//! How key presses and mouse wheel events change the terminal state: line
//! editing, history navigation, scrolling and the help overlay.
use vstd::prelude::*;
use vstd::utf8::{encode_utf8, is_char_boundary};
use crate::app::{AppState, TerminalMode, SCROLL_BOTTOM};

verus! {

/// A key, as the terminal reports it.
#[derive(Debug, Clone, Copy, PartialEq, Eq, Structural)]
pub enum KeyCode {
    Char(char),
    Enter,
    Backspace,
    Delete,
    Left,
    Right,
    Home,
    End,
    Up,
    Down,
    PageUp,
    PageDown,
    Esc,
    Tab,
    /// Any other key.
    Other,
}

/// A key press with the modifiers that matter here.
#[derive(Debug, Clone, Copy, PartialEq, Eq, Structural)]
pub struct KeyPress {
    pub code: KeyCode,
    pub ctrl: bool,
    pub shift: bool,
}

/// A mouse event.
#[derive(Debug, Clone, Copy, PartialEq, Eq, Structural)]
pub enum MouseEvent {
    ScrollUp,
    ScrollDown,
    /// Any other mouse event.
    Other,
}

/// The UTF-8 bytes of a text.
pub open spec fn bytes(s: Seq<char>) -> Seq<u8> {
    encode_utf8(s)
}

/// A character takes one to four bytes.
pub proof fn lemma_char_bytes(c: char)
    ensures
        1 <= bytes(seq![c]).len() <= 4,
{
    reveal_with_fuel(encode_utf8, 2);
    assert(seq![c].drop_first() =~= Seq::<char>::empty());
}

/// `String::insert`: inserts `c` at byte position `idx`.
#[verifier::external_body]
fn string_insert(s: &mut String, idx: usize, c: char)
    requires
        idx <= bytes(old(s)@).len(),
        is_char_boundary(bytes(old(s)@), idx as int),
    ensures
        bytes(final(s)@) == bytes(old(s)@).take(idx as int) + bytes(seq![c]) + bytes(
            old(s)@,
        ).skip(idx as int),
{
    s.insert(idx, c);
}

/// `String::remove`: removes the character that starts at byte position
/// `idx` and returns it.
#[verifier::external_body]
fn string_remove(s: &mut String, idx: usize) -> (c: char)
    requires
        idx < bytes(old(s)@).len(),
        is_char_boundary(bytes(old(s)@), idx as int),
    ensures
        bytes(old(s)@).subrange(idx as int, idx + bytes(seq![c]).len()) == bytes(seq![c]),
        bytes(final(s)@) == bytes(old(s)@).take(idx as int) + bytes(old(s)@).skip(
            idx + bytes(seq![c]).len(),
        ),
{
    s.remove(idx)
}

/// The number of lines of the output the terminal shows.
pub open spec fn shown_len(st: AppState) -> nat {
    match st.mode {
        TerminalMode::Admin => st.output_lines@.len(),
        TerminalMode::Client => st.client_output@.len(),
    }
}

/// Scrolling up by `step` lines: leaving the sticky bottom starts from the
/// number of shown lines.
pub open spec fn scroll_up(offset: u32, len: nat, step: u32) -> u32 {
    if offset == SCROLL_BOTTOM {
        ((len as usize) as u32).saturating_sub(step)
    } else {
        offset.saturating_sub(step)
    }
}

/// Scrolling down by `step` lines: reaching the end returns to the sticky bottom.
pub open spec fn scroll_down(offset: u32, len: nat, step: u32) -> u32 {
    if offset != SCROLL_BOTTOM {
        let s = offset.saturating_add(step);
        if s >= ((len as usize) as u32) {
            SCROLL_BOTTOM
        } else {
            s
        }
    } else {
        offset
    }
}

/// The fields key handling never touches.
pub open spec fn key_frame(a: AppState, b: AppState) -> bool {
    &&& a.clients == b.clients
    &&& a.output_lines == b.output_lines
    &&& a.client_output == b.client_output
    &&& a.command_history == b.command_history
    &&& a.alter_target == b.alter_target
    &&& a.client_counter == b.client_counter
    &&& a.last_visual_row_count == b.last_visual_row_count
    &&& a.command_id_counter == b.command_id_counter
    &&& a.mode == b.mode
    &&& a.client_service_status == b.client_service_status
    &&& a.admin_port == b.admin_port
    &&& a.server_active == b.server_active
}

/// The line being edited is unchanged.
pub open spec fn same_edit(a: AppState, b: AppState) -> bool {
    &&& a.input_buffer == b.input_buffer
    &&& a.cursor_pos == b.cursor_pos
    &&& a.history_index == b.history_index
    &&& a.saved_input == b.saved_input
}

/// The view (help, scroll, quit) is unchanged.
pub open spec fn same_view(a: AppState, b: AppState) -> bool {
    &&& a.show_help == b.show_help
    &&& a.scroll_offset == b.scroll_offset
    &&& a.should_quit == b.should_quit
    &&& a.help_scroll == b.help_scroll
}

/// Only the cursor moved, to `pos`.
pub open spec fn cursor_to(a: AppState, b: AppState, pos: usize) -> bool {
    &&& same_view(a, b)
    &&& b.cursor_pos == pos
    &&& b.input_buffer == a.input_buffer
    &&& b.history_index == a.history_index
    &&& b.saved_input == a.saved_input
}

/// Only the scroll position changed, to `offset`.
pub open spec fn scrolled_to(a: AppState, b: AppState, offset: u32) -> bool {
    &&& same_edit(a, b)
    &&& b.scroll_offset == offset
    &&& b.show_help == a.show_help
    &&& b.should_quit == a.should_quit
    &&& b.help_scroll == a.help_scroll
}

/// The key would not make the editing operations panic: the byte
/// positions that `String::insert` and `String::remove` receive lie on
/// character boundaries, and a history index points into the history. Where
/// the cursor moves by the line's byte length, that length fits in `usize`,
/// as the length of every string does.
pub open spec fn key_allowed(st: AppState, key: KeyPress) -> bool {
    let b = bytes(st.input_buffer@);
    &&& st.history_index matches Some(i) ==> i <= st.command_history@.len()
    &&& !st.show_help ==> match key.code {
        KeyCode::Char(c) => !(c == 'c' && key.ctrl) ==> b.len() < usize::MAX && st.cursor_pos
            <= b.len() && is_char_boundary(b, st.cursor_pos as int),
        KeyCode::Backspace => st.cursor_pos > 0 ==> st.cursor_pos - 1 < b.len()
            && is_char_boundary(b, st.cursor_pos - 1),
        KeyCode::Delete => b.len() <= usize::MAX && (st.cursor_pos < b.len() ==> is_char_boundary(
            b,
            st.cursor_pos as int,
        )),
        KeyCode::Right => b.len() <= usize::MAX,
        _ => true,
    }
}

/// What one key press does to the terminal: `o` before, `f` after, and the
/// line handed on for processing.
pub open spec fn key_handled(o: AppState, f: AppState, key: KeyPress, submitted: Option<String>) -> bool {
    let b = bytes(o.input_buffer@);
    &&& key_frame(o, f)
    &&& if o.show_help {
        &&& same_edit(o, f)
        &&& submitted is None
        &&& f.scroll_offset == o.scroll_offset
        &&& f.should_quit == o.should_quit
        &&& match key.code {
            KeyCode::Esc | KeyCode::Char('q') => !f.show_help && f.help_scroll
                == o.help_scroll,
            KeyCode::Down | KeyCode::Char('j') => f.show_help && f.help_scroll
                == o.help_scroll.saturating_add(1),
            KeyCode::Up | KeyCode::Char('k') => f.show_help && f.help_scroll
                == o.help_scroll.saturating_sub(1),
            KeyCode::PageDown => f.show_help && f.help_scroll
                == o.help_scroll.saturating_add(10),
            KeyCode::PageUp => f.show_help && f.help_scroll
                == o.help_scroll.saturating_sub(10),
            _ => f.show_help && f.help_scroll == o.help_scroll,
        }
    } else {
        match key.code {
            KeyCode::Char(c) => if c == 'c' && key.ctrl {
                &&& f.should_quit
                &&& same_edit(o, f)
                &&& f.show_help == o.show_help && f.scroll_offset == o.scroll_offset
                &&& f.help_scroll == o.help_scroll
                &&& submitted is None
            } else {
                &&& bytes(f.input_buffer@) == b.take(o.cursor_pos as int) + bytes(seq![c])
                    + b.skip(o.cursor_pos as int)
                &&& f.cursor_pos == o.cursor_pos + 1
                &&& f.history_index == o.history_index
                &&& f.saved_input == o.saved_input
                &&& same_view(o, f)
                &&& submitted is None
            },
            KeyCode::Enter => if o.input_buffer@.len() > 0 {
                &&& submitted matches Some(line) && line@ == o.input_buffer@
                &&& f.input_buffer@.len() == 0
                &&& f.cursor_pos == 0
                &&& f.history_index is None
                &&& f.saved_input@.len() == 0
                &&& same_view(o, f)
            } else {
                same_edit(o, f) && same_view(o, f) && submitted is None
            },
            KeyCode::Backspace => {
                &&& submitted is None
                &&& same_view(o, f)
                &&& f.history_index == o.history_index
                &&& f.saved_input == o.saved_input
                &&& if o.cursor_pos > 0 {
                    let p = o.cursor_pos - 1;
                    &&& f.cursor_pos == p
                    &&& exists|c: char|
                        b.subrange(p, p + bytes(seq![c]).len()) == bytes(seq![c])
                            && bytes(f.input_buffer@) == b.take(p) + b.skip(
                            p + bytes(seq![c]).len(),
                        )
                } else {
                    f.input_buffer == o.input_buffer && f.cursor_pos == o.cursor_pos
                }
            },
            KeyCode::Delete => {
                &&& submitted is None
                &&& same_view(o, f)
                &&& f.cursor_pos == o.cursor_pos
                &&& f.history_index == o.history_index
                &&& f.saved_input == o.saved_input
                &&& if o.cursor_pos < b.len() {
                    let p = o.cursor_pos as int;
                    exists|c: char|
                        b.subrange(p, p + bytes(seq![c]).len()) == bytes(seq![c])
                            && bytes(f.input_buffer@) == b.take(p) + b.skip(
                            p + bytes(seq![c]).len(),
                        )
                } else {
                    f.input_buffer == o.input_buffer
                }
            },
            KeyCode::Left => submitted is None && cursor_to(
                o,
                f,
                if o.cursor_pos > 0 {
                    (o.cursor_pos - 1) as usize
                } else {
                    o.cursor_pos
                },
            ),
            KeyCode::Right => submitted is None && cursor_to(
                o,
                f,
                if o.cursor_pos < b.len() {
                    (o.cursor_pos + 1) as usize
                } else {
                    o.cursor_pos
                },
            ),
            KeyCode::Home => submitted is None && cursor_to(o, f, 0),
            KeyCode::End => submitted is None && cursor_to(o, f, b.len() as usize),
            KeyCode::Up => if key.shift {
                submitted is None && scrolled_to(
                    o,
                    f,
                    scroll_up(o.scroll_offset, shown_len(o), 1),
                )
            } else {
                let h = o.command_history@;
                &&& submitted is None
                &&& same_view(o, f)
                &&& if h.len() == 0 {
                    same_edit(o, f)
                } else {
                    let idx: int = match o.history_index {
                        Some(i) => if i > 0 {
                            i - 1
                        } else {
                            0
                        },
                        None => h.len() - 1,
                    };
                    &&& f.history_index == Some(idx as usize)
                    &&& f.input_buffer == h[idx]
                    &&& f.cursor_pos == bytes(h[idx]@).len() as usize
                    &&& f.saved_input == if o.history_index is None {
                        o.input_buffer
                    } else {
                        o.saved_input
                    }
                }
            },
            KeyCode::Down => if key.shift {
                submitted is None && scrolled_to(
                    o,
                    f,
                    scroll_down(o.scroll_offset, shown_len(o), 1),
                )
            } else {
                let h = o.command_history@;
                &&& submitted is None
                &&& same_view(o, f)
                &&& f.saved_input == o.saved_input
                &&& match o.history_index {
                    Some(i) => if i + 1 < h.len() {
                        &&& f.history_index == Some((i + 1) as usize)
                        &&& f.input_buffer == h[i + 1]
                        &&& f.cursor_pos == bytes(h[i + 1]@).len() as usize
                    } else {
                        &&& f.history_index is None
                        &&& f.input_buffer == o.saved_input
                        &&& f.cursor_pos == bytes(o.saved_input@).len() as usize
                    },
                    None => same_edit(o, f),
                }
            },
            KeyCode::PageUp => submitted is None && scrolled_to(
                o,
                f,
                scroll_up(o.scroll_offset, shown_len(o), 10),
            ),
            KeyCode::PageDown => submitted is None && scrolled_to(
                o,
                f,
                scroll_down(o.scroll_offset, shown_len(o), 10),
            ),
            KeyCode::Esc => {
                &&& submitted is None
                &&& f.input_buffer@.len() == 0
                &&& f.cursor_pos == 0
                &&& f.history_index == o.history_index
                &&& f.saved_input == o.saved_input
                &&& same_view(o, f)
            },
            _ => submitted is None && same_edit(o, f) && same_view(o, f),
        }
    }
}

/// Handle a key press. Returns the line to process when Enter submits one.
pub fn handle_key(st: &mut AppState, key: KeyPress) -> (submitted: Option<String>)
    requires
        key_allowed(*old(st), key),
    ensures
        key_handled(*old(st), *final(st), key, submitted),
{
    // Handle help overlay keys
    if st.show_help {
        match key.code {
            KeyCode::Esc | KeyCode::Char('q') => {
                st.show_help = false;
            },
            KeyCode::Down | KeyCode::Char('j') => {
                st.help_scroll = st.help_scroll.saturating_add(1);
            },
            KeyCode::Up | KeyCode::Char('k') => {
                st.help_scroll = st.help_scroll.saturating_sub(1);
            },
            KeyCode::PageDown => {
                st.help_scroll = st.help_scroll.saturating_add(10);
            },
            KeyCode::PageUp => {
                st.help_scroll = st.help_scroll.saturating_sub(10);
            },
            _ => {},
        }
        return None;
    }
    match key.code {
        // Ctrl+C to exit
        KeyCode::Char(c) => {
            if c == 'c' && key.ctrl {
                st.should_quit = true;
            } else {
                // Regular character input
                let pos = st.cursor_pos;
                string_insert(&mut st.input_buffer, pos, c);
                let _len = st.input_buffer.as_str().len();
                proof {
                    lemma_char_bytes(c);
                }
                st.cursor_pos = st.cursor_pos + 1;
            }
            None
        },
        // Enter to submit command
        KeyCode::Enter => {
            if !st.input_buffer.as_str().is_empty() {
                let input = st.input_buffer.clone();
                st.input_buffer = String::new();
                st.cursor_pos = 0;
                st.history_index = None;
                st.saved_input = String::new();
                Some(input)
            } else {
                None
            }
        },
        // Backspace
        KeyCode::Backspace => {
            if st.cursor_pos > 0 {
                st.cursor_pos = st.cursor_pos - 1;
                let pos = st.cursor_pos;
                let _ = string_remove(&mut st.input_buffer, pos);
            }
            None
        },
        // Delete
        KeyCode::Delete => {
            let pos = st.cursor_pos;
            if pos < st.input_buffer.as_str().len() {
                let _ = string_remove(&mut st.input_buffer, pos);
            }
            None
        },
        // Left arrow
        KeyCode::Left => {
            if st.cursor_pos > 0 {
                st.cursor_pos = st.cursor_pos - 1;
            }
            None
        },
        // Right arrow
        KeyCode::Right => {
            if st.cursor_pos < st.input_buffer.as_str().len() {
                st.cursor_pos = st.cursor_pos + 1;
            }
            None
        },
        // Home
        KeyCode::Home => {
            st.cursor_pos = 0;
            None
        },
        // End
        KeyCode::End => {
            st.cursor_pos = st.input_buffer.as_str().len();
            None
        },
        KeyCode::Up => {
            if key.shift {
                // Shift + Up — scroll output up
                scroll_output_up(st, 1);
            } else if st.command_history.len() > 0 {
                // Up arrow — History navigation
                let new_index = match st.history_index {
                    Some(idx) => if idx > 0 {
                        idx - 1
                    } else {
                        0
                    },
                    None => {
                        st.saved_input = st.input_buffer.clone();
                        st.command_history.len() - 1
                    },
                };
                st.history_index = Some(new_index);
                st.input_buffer = st.command_history[new_index].clone();
                st.cursor_pos = st.input_buffer.as_str().len();
            }
            None
        },
        KeyCode::Down => {
            if key.shift {
                // Shift + Down — scroll output down
                scroll_output_down(st, 1);
            } else if let Some(idx) = st.history_index {
                // Down arrow — History navigation
                if idx < st.command_history.len() && idx + 1 < st.command_history.len() {
                    let new_index = idx + 1;
                    st.history_index = Some(new_index);
                    st.input_buffer = st.command_history[new_index].clone();
                    st.cursor_pos = st.input_buffer.as_str().len();
                } else {
                    st.history_index = None;
                    st.input_buffer = st.saved_input.clone();
                    st.cursor_pos = st.input_buffer.as_str().len();
                }
            }
            None
        },
        // Page Up
        KeyCode::PageUp => {
            scroll_output_up(st, 10);
            None
        },
        // Page Down
        KeyCode::PageDown => {
            scroll_output_down(st, 10);
            None
        },
        // Escape
        KeyCode::Esc => {
            st.input_buffer = String::new();
            st.cursor_pos = 0;
            None
        },
        // Tab — could be used for auto-complete in the future
        KeyCode::Tab => None,
        KeyCode::Other => None,
    }
}

fn shown_len_exec(st: &AppState) -> (n: usize)
    ensures
        n == shown_len(*st),
{
    match st.mode {
        TerminalMode::Admin => st.output_lines.len(),
        TerminalMode::Client => st.client_output.len(),
    }
}

fn scroll_output_up(st: &mut AppState, step: u32)
    ensures
        key_frame(*old(st), *final(st)),
        scrolled_to(*old(st), *final(st), scroll_up(old(st).scroll_offset, shown_len(*old(st)), step)),
{
    if st.scroll_offset == SCROLL_BOTTOM {
        // Start manual scroll from the bottom
        let len = shown_len_exec(st);
        st.scroll_offset = (len as u32).saturating_sub(step);
    } else {
        st.scroll_offset = st.scroll_offset.saturating_sub(step);
    }
}

fn scroll_output_down(st: &mut AppState, step: u32)
    ensures
        key_frame(*old(st), *final(st)),
        scrolled_to(*old(st), *final(st), scroll_down(old(st).scroll_offset, shown_len(*old(st)), step)),
{
    if st.scroll_offset != SCROLL_BOTTOM {
        st.scroll_offset = st.scroll_offset.saturating_add(step);
        let max = shown_len_exec(st) as u32;
        if st.scroll_offset >= max {
            // Re-enable sticky bottom if we hit the end
            st.scroll_offset = SCROLL_BOTTOM;
        }
    }
}

/// Handle a mouse event: the wheel scrolls the output by one line.
pub fn handle_mouse(st: &mut AppState, ev: MouseEvent)
    ensures
        key_frame(*old(st), *final(st)),
        match ev {
            MouseEvent::ScrollUp => scrolled_to(
                *old(st),
                *final(st),
                scroll_up(old(st).scroll_offset, shown_len(*old(st)), 1),
            ),
            MouseEvent::ScrollDown => scrolled_to(
                *old(st),
                *final(st),
                scroll_down(old(st).scroll_offset, shown_len(*old(st)), 1),
            ),
            MouseEvent::Other => same_edit(*old(st), *final(st)) && same_view(*old(st), *final(st)),
        },
{
    match ev {
        MouseEvent::ScrollUp => scroll_output_up(st, 1),
        MouseEvent::ScrollDown => scroll_output_down(st, 1),
        MouseEvent::Other => {},
    }
}

} // verus!
