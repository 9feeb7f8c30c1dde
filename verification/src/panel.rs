//! The output panel: how many screen rows its lines wrap to, where it is
//! scrolled, and where the cursor of the inline prompt is.
use vstd::prelude::*;
use crate::app::{AppState, LineColor, OutputLine, SCROLL_BOTTOM, TerminalMode};
use crate::text::{chars_of, push_char, str_eq};

verus! {

/// `UnicodeWidthStr::width`: the columns a text takes on a terminal.
pub uninterp spec fn str_width(s: Seq<char>) -> nat;

/// `unicode_width::UnicodeWidthStr::width`, whose value is named
/// `str_width`. The one fact stated of it: a text made only of printable
/// ASCII characters is as many columns wide as it has characters.
#[verifier::external_body]
fn display_width(s: &str) -> (w: usize)
    ensures
        w == str_width(s@),
        (forall|i: int| 0 <= i < s@.len() ==> ' ' <= #[trigger] s@[i] <= '~') ==> w == s@.len(),
{
    unicode_width::UnicodeWidthStr::width(s)
}

/// A rectangle of the screen.
#[derive(Debug, Clone, Copy, PartialEq, Eq, Structural)]
pub struct Area {
    pub x: u16,
    pub y: u16,
    pub width: u16,
    pub height: u16,
}

/// `s` with each tab replaced by four spaces.
pub open spec fn expand_tabs(s: Seq<char>) -> Seq<char>
    decreases s.len(),
{
    if s.len() == 0 {
        s
    } else {
        expand_tabs(s.drop_last()) + if s.last() == '\t' {
            "    "@
        } else {
            seq![s.last()]
        }
    }
}

/// The first `n` characters of `s`, tabs expanded.
fn expanded_prefix(s: &str, n: usize) -> (r: String)
    ensures
        r@ == expand_tabs(s@.take(if n < s@.len() { n as int } else { s@.len() as int })),
{
    let v = chars_of(s);
    let end = if n < v.len() {
        n
    } else {
        v.len()
    };
    let mut r = String::new();
    let mut i: usize = 0;
    assert(v@.take(0) =~= Seq::<char>::empty());
    while i < end
        invariant
            i <= end <= v@.len(),
            v@ == s@,
            r@ == expand_tabs(v@.take(i as int)),
        decreases end - i,
    {
        let c = v[i];
        proof {
            assert(v@.take(i + 1).drop_last() =~= v@.take(i as int));
            assert(v@.take(i + 1).last() == c);
        }
        if c == '\t' {
            r.append("    ");
        } else {
            push_char(&mut r, c);
        }
        i = i + 1;
    }
    r
}

/// The widths the panel needs: for each line those of its time, of its
/// `[tag] ` and of its text (tabs expanded); those of the prompt, of the
/// input, and of the input before the cursor.
pub struct PanelWidths {
    pub lines: Vec<(usize, usize, usize)>,
    pub prompt: usize,
    pub input: usize,
    pub before_cursor: usize,
}

/// The widths of a line's pieces.
pub open spec fn line_widths(l: OutputLine) -> (nat, nat, nat) {
    (str_width(l.timestamp@), str_width("["@ + l.tag@ + "] "@), str_width(expand_tabs(l.text@)))
}

/// The lines the panel shows in the current mode.
pub open spec fn shown_lines(st: AppState) -> Seq<OutputLine> {
    match st.mode {
        TerminalMode::Admin => st.output_lines@,
        TerminalMode::Client => st.client_output@,
    }
}

/// The widths of what the panel shows.
pub open spec fn widths_of(st: AppState, w: PanelWidths) -> bool {
    let ls = shown_lines(st);
    let prompt = crate::app::prompt_text(st.alter_target);
    let input = st.input_buffer@;
    let before = if st.cursor_pos < input.len() {
        st.cursor_pos as int
    } else {
        input.len() as int
    };
    &&& w.lines@.len() == ls.len()
    &&& forall|i: int|
        0 <= i < ls.len() ==> {
            let (a, b, c) = line_widths(ls[i]);
            &&& (#[trigger] w.lines@[i]).0 == a
            &&& w.lines@[i].1 == b
            &&& w.lines@[i].2 == c
        }
    &&& w.prompt == str_width(prompt)
    &&& w.input == str_width(expand_tabs(input))
    &&& w.before_cursor == str_width(expand_tabs(input.take(before)))
}

/// Measures what the panel shows.
pub fn panel_widths(st: &AppState) -> (w: PanelWidths)
    ensures
        widths_of(*st, w),
{
    let lines = match st.mode {
        TerminalMode::Admin => &st.output_lines,
        TerminalMode::Client => &st.client_output,
    };
    let mut ws: Vec<(usize, usize, usize)> = Vec::new();
    let mut i: usize = 0;
    while i < lines.len()
        invariant
            i <= lines@.len(),
            lines@ == shown_lines(*st),
            ws@.len() == i,
            forall|j: int|
                0 <= j < i ==> {
                    let (a, b, c) = line_widths(lines@[j]);
                    &&& (#[trigger] ws@[j]).0 == a
                    &&& ws@[j].1 == b
                    &&& ws@[j].2 == c
                },
        decreases lines.len() - i,
    {
        let l = &lines[i];
        let a = display_width(l.timestamp.as_str());
        let mut tag = String::from_str("[");
        tag.append(l.tag.as_str());
        tag.append("] ");
        let b = display_width(tag.as_str());
        let n = l.text.as_str().unicode_len();
        let text = expanded_prefix(l.text.as_str(), n);
        assert(l.text@.take(n as int) =~= l.text@);
        let c = display_width(text.as_str());
        ws.push((a, b, c));
        i = i + 1;
    }
    let prompt = st.prompt();
    let n = st.input_buffer.as_str().unicode_len();
    let input = expanded_prefix(st.input_buffer.as_str(), n);
    assert(st.input_buffer@.take(n as int) =~= st.input_buffer@);
    let before = expanded_prefix(st.input_buffer.as_str(), st.cursor_pos);
    PanelWidths {
        lines: ws,
        prompt: display_width(prompt.as_str()),
        input: display_width(input.as_str()),
        before_cursor: display_width(before.as_str()),
    }
}

/// `x as u32` for a count `x`: its low 32 bits.
pub open spec fn low32(x: int) -> int {
    x % 0x1_0000_0000
}

proof fn lemma_low32(w: usize)
    ensures
        (w as u32) as int == low32(w as int),
{
    assert((w as u32) as u64 == (w as u64) % 0x1_0000_0000) by (bit_vector);
}

/// The rows a text of `w` columns wraps to in `cw` columns (at least one),
/// as the panel computes it: `(w as u32 + cw - 1).max(cw) / cw`.
pub open spec fn rows_of(w: int, cw: int) -> int {
    let a = low32(w) + cw - 1;
    (if a > cw {
        a
    } else {
        cw
    }) / cw
}

/// The width of a line.
pub open spec fn line_total(l: (usize, usize, usize)) -> int {
    l.0 + 1 + l.1 + l.2
}

/// The rows all the lines wrap to.
pub open spec fn lines_rows(ls: Seq<(usize, usize, usize)>, cw: int) -> int
    decreases ls.len(),
{
    if ls.len() == 0 {
        0
    } else {
        lines_rows(ls.drop_last(), cw) + rows_of(line_total(ls.last()), cw)
    }
}

/// The rows the prompt line wraps to.
pub open spec fn prompt_rows(w: PanelWidths, cw: int) -> int {
    rows_of(w.prompt + w.input, cw)
}

/// The rows of the whole panel.
pub open spec fn total_rows(w: PanelWidths, cw: int) -> int {
    lines_rows(w.lines@, cw) + prompt_rows(w, cw)
}

/// The columns inside the panel's border.
pub open spec fn inner(n: u16) -> int {
    if n >= 2 {
        n - 2
    } else {
        0
    }
}

/// Where the panel is scrolled: to its last rows when it follows the
/// output, else where it was put but no further than that.
pub open spec fn scroll_of(total: int, view: int, offset: u32) -> int {
    let max_scroll = if total > view {
        total - view
    } else {
        0
    };
    if offset == SCROLL_BOTTOM {
        max_scroll
    } else if (offset as int) < max_scroll {
        offset as int
    } else {
        max_scroll
    }
}

/// The arithmetic of the panel does not overflow: each line's width fits,
/// and so do the row counts.
pub open spec fn panel_fits(w: PanelWidths, cw: int) -> bool {
    &&& cw > 0
    &&& forall|i: int|
        0 <= i < w.lines@.len() ==> {
            &&& line_total(#[trigger] w.lines@[i]) <= usize::MAX
            &&& low32(line_total(w.lines@[i])) + cw <= u32::MAX
        }
    &&& w.prompt + w.input <= usize::MAX
    &&& low32(w.prompt + w.input) + cw <= u32::MAX
    &&& total_rows(w, cw) <= u32::MAX
}

proof fn lemma_rows_pos(w: int, cw: int)
    requires
        cw > 0,
    ensures
        rows_of(w, cw) >= 1,
{
    let a = low32(w) + cw - 1;
    let m = if a > cw {
        a
    } else {
        cw
    };
    assert(m >= cw);
    assert(m / cw >= 1) by (nonlinear_arith)
        requires
            m >= cw,
            cw > 0,
    ;
}

proof fn lemma_lines_rows_grow(ls: Seq<(usize, usize, usize)>, cw: int, i: int)
    requires
        cw > 0,
        0 <= i <= ls.len(),
    ensures
        lines_rows(ls.take(i), cw) <= lines_rows(ls, cw),
        lines_rows(ls.take(i), cw) >= 0,
    decreases ls.len() - i,
{
    if i < ls.len() {
        lemma_lines_rows_grow(ls, cw, i + 1);
        assert(ls.take(i + 1).drop_last() =~= ls.take(i));
        lemma_rows_pos(line_total(ls[i]), cw);
    } else {
        assert(ls.take(i) =~= ls);
    }
    lemma_lines_rows_nonneg(ls.take(i), cw);
}

proof fn lemma_lines_rows_nonneg(ls: Seq<(usize, usize, usize)>, cw: int)
    requires
        cw > 0,
    ensures
        lines_rows(ls, cw) >= 0,
    decreases ls.len(),
{
    if ls.len() > 0 {
        lemma_lines_rows_nonneg(ls.drop_last(), cw);
        lemma_rows_pos(line_total(ls.last()), cw);
    }
}

fn rows_exec(w: usize, cw: u32) -> (r: u32)
    requires
        cw > 0,
        low32(w as int) + cw <= u32::MAX,
    ensures
        r == rows_of(w as int, cw as int),
{
    proof {
        lemma_low32(w);
    }
    let a = w as u32 + cw - 1;
    let m = if a > cw {
        a
    } else {
        cw
    };
    m / cw
}

/// The rows of the lines, the rows of the prompt, and their total.
fn count_rows(w: &PanelWidths, cw: u32) -> (r: (u32, u32))
    requires
        panel_fits(*w, cw as int),
    ensures
        r.0 == lines_rows(w.lines@, cw as int),
        r.1 == prompt_rows(*w, cw as int),
{
    let mut total: u32 = 0;
    let mut i: usize = 0;
    while i < w.lines.len()
        invariant
            i <= w.lines@.len(),
            panel_fits(*w, cw as int),
            total == lines_rows(w.lines@.take(i as int), cw as int),
        decreases w.lines.len() - i,
    {
        let (a, b, c) = w.lines[i];
        assert(line_total(w.lines@[i as int]) <= usize::MAX);
        let lw = a + 1 + b + c;
        let rows = rows_exec(lw, cw);
        proof {
            assert(w.lines@.take(i + 1).drop_last() =~= w.lines@.take(i as int));
            lemma_lines_rows_grow(w.lines@, cw as int, i + 1);
            lemma_rows_pos(w.prompt + w.input, cw as int);
        }
        total = total + rows;
        i = i + 1;
    }
    assert(w.lines@.take(w.lines@.len() as int) =~= w.lines@);
    let p = rows_exec(w.prompt + w.input, cw);
    (total, p)
}

/// Where the panel is scrolled, as `render` scrolls it: `None` when the
/// panel has no room inside its border.
pub open spec fn panel_scroll_spec(w: PanelWidths, area: Area, offset: u32) -> int {
    scroll_of(total_rows(w, inner(area.width)), inner(area.height), offset)
}

/// Where the output panel is scrolled (the first row it shows).
pub fn panel_scroll(w: &PanelWidths, area: Area, offset: u32) -> (r: u32)
    requires
        panel_fits(*w, inner(area.width)),
    ensures
        r == panel_scroll_spec(*w, area, offset),
{
    let cw = area.width - 2;
    let (lines, prompt) = count_rows(w, cw as u32);
    let total = lines + prompt;
    let view = if area.height >= 2 {
        area.height - 2
    } else {
        0
    };
    let max_scroll = if total > view as u32 {
        total - view as u32
    } else {
        0
    };
    if offset == SCROLL_BOTTOM {
        max_scroll
    } else if offset < max_scroll {
        offset
    } else {
        max_scroll
    }
}

/// The cursor cell, as `cursor_position` computes it: `(0, 0)` when the
/// cursor's row is scrolled out of view.
pub open spec fn cursor_spec(w: PanelWidths, area: Area, offset: u32) -> (int, int) {
    let cw = inner(area.width);
    if cw == 0 {
        (area.x + 1, area.y + 1)
    } else {
        let total = total_rows(w, cw);
        let start = total - prompt_rows(w, cw);
        let off = low32(w.prompt as int) + low32(w.before_cursor as int);
        let row = start + off / cw;
        let col = off % cw;
        let view = inner(area.height);
        let visible = row - scroll_of(total, view, offset);
        if visible < 0 || visible >= view {
            (0, 0)
        } else {
            (area.x + 1 + col, area.y + 1 + visible)
        }
    }
}

/// The cursor's arithmetic does not overflow.
pub open spec fn cursor_fits(w: PanelWidths, area: Area, offset: u32) -> bool {
    let cw = inner(area.width);
    cw == 0 || {
        let total = total_rows(w, cw);
        let start = total - prompt_rows(w, cw);
        let off = low32(w.prompt as int) + low32(w.before_cursor as int);
        let row = start + off / cw;
        let view = inner(area.height);
        let visible = row - scroll_of(total, view, offset);
        &&& panel_fits(w, cw)
        &&& off <= u32::MAX
        &&& row <= u32::MAX
        &&& (0 <= visible < view ==> area.x + 1 + off % cw <= u16::MAX && area.y + 1 + visible
            <= u16::MAX)
    }
}

/// The cursor's arithmetic does not overflow: the sums of a visible cursor
/// fit (`cursor_fits`), and a panel without room inside has a next column
/// and row.
pub open spec fn cursor_ok(w: PanelWidths, area: Area, offset: u32) -> bool {
    &&& cursor_fits(w, area, offset)
    &&& inner(area.width) == 0 ==> area.x < u16::MAX && area.y < u16::MAX
}

/// The cursor of the inline prompt inside the panel at `area`, given the
/// widths of what it shows and where it is scrolled.
pub fn cursor_cell(w: &PanelWidths, area: Area, offset: u32) -> (r: (u16, u16))
    requires
        cursor_ok(*w, area, offset),
    ensures
        (r.0 as int, r.1 as int) == cursor_spec(*w, area, offset),
{
    if area.width <= 2 {
        return (area.x + 1, area.y + 1);
    }
    let cw = (area.width - 2) as u32;
    let (lines, prompt) = count_rows(w, cw);
    proof {
        lemma_lines_rows_nonneg(w.lines@, cw as int);
        lemma_rows_pos(w.prompt + w.input, cw as int);
    }
    let total = lines + prompt;
    let start = total - prompt;
    proof {
        lemma_low32(w.prompt);
        lemma_low32(w.before_cursor);
    }
    let off = w.prompt as u32 + w.before_cursor as u32;
    let row = start + off / cw;
    let col = off % cw;
    let view: u32 = if area.height >= 2 {
        (area.height - 2) as u32
    } else {
        0
    };
    let max_scroll = if total > view {
        total - view
    } else {
        0
    };
    let scroll = if offset == SCROLL_BOTTOM {
        max_scroll
    } else if offset < max_scroll {
        offset
    } else {
        max_scroll
    };
    let visible = row as i64 - scroll as i64;
    if visible < 0 || visible >= view as i64 {
        (0, 0)
    } else {
        (area.x + 1 + col as u16, area.y + 1 + visible as u16)
    }
}

/// Checks `cursor_fits` on the measured widths.
fn cursor_fits_exec(w: &PanelWidths, area: Area, offset: u32) -> (r: bool)
    ensures
        r == cursor_fits(*w, area, offset),
{
    if area.width <= 2 {
        return true;
    }
    let cw = (area.width - 2) as u128;
    let mut total: u128 = 0;
    let mut i: usize = 0;
    while i < w.lines.len()
        invariant
            i <= w.lines@.len(),
            cw == inner(area.width),
            cw > 0,
            total == lines_rows(w.lines@.take(i as int), cw as int),
            total <= u32::MAX,
            forall|j: int|
                0 <= j < i ==> {
                    &&& line_total(#[trigger] w.lines@[j]) <= usize::MAX
                    &&& low32(line_total(w.lines@[j])) + cw <= u32::MAX
                },
        decreases w.lines.len() - i,
    {
        let (a, b, c) = w.lines[i];
        let lw = a as u128 + 1 + b as u128 + c as u128;
        if lw > usize::MAX as u128 {
            return false;
        }
        proof {
            lemma_low32(lw as usize);
        }
        let lw32 = (lw as usize) as u32 as u128;
        if lw32 + cw > u32::MAX as u128 {
            return false;
        }
        let a2 = lw32 + cw - 1;
        let rows = (if a2 > cw {
            a2
        } else {
            cw
        }) / cw;
        proof {
            assert(w.lines@.take(i + 1).drop_last() =~= w.lines@.take(i as int));
            assert(rows == rows_of(line_total(w.lines@[i as int]), cw as int));
            lemma_rows_pos(line_total(w.lines@[i as int]), cw as int);
        }
        total = total + rows;
        if total > u32::MAX as u128 {
            proof {
                lemma_lines_rows_grow(w.lines@, cw as int, i + 1);
                lemma_rows_pos(w.prompt + w.input, cw as int);
            }
            return false;
        }
        i = i + 1;
    }
    assert(w.lines@.take(w.lines@.len() as int) =~= w.lines@);
    let pw = w.prompt as u128 + w.input as u128;
    if pw > usize::MAX as u128 {
        return false;
    }
    proof {
        lemma_low32(pw as usize);
    }
    let pw32 = (pw as usize) as u32 as u128;
    if pw32 + cw > u32::MAX as u128 {
        return false;
    }
    let a2 = pw32 + cw - 1;
    let prows = (if a2 > cw {
        a2
    } else {
        cw
    }) / cw;
    assert(prows == prompt_rows(*w, cw as int));
    let all = total + prows;
    if all > u32::MAX as u128 {
        return false;
    }
    let start = all - prows;
    proof {
        lemma_low32(w.prompt);
        lemma_low32(w.before_cursor);
    }
    let off = (w.prompt as u32) as u128 + (w.before_cursor as u32) as u128;
    if off > u32::MAX as u128 {
        return false;
    }
    let row = start + off / cw;
    if row > u32::MAX as u128 {
        return false;
    }
    let view: u128 = if area.height >= 2 {
        (area.height - 2) as u128
    } else {
        0
    };
    let max_scroll = if all > view {
        all - view
    } else {
        0
    };
    let scroll = if offset == SCROLL_BOTTOM {
        max_scroll
    } else if (offset as u128) < max_scroll {
        offset as u128
    } else {
        max_scroll
    };
    if row >= scroll && row - scroll < view {
        let visible = row - scroll;
        area.x as u128 + 1 + off % cw <= u16::MAX as u128 && area.y as u128 + 1 + visible
            <= u16::MAX as u128
    } else {
        true
    }
}

/// Get the cursor position for the inline prompt (inside the output panel):
/// `None` where the arithmetic of the panel would overflow.
pub fn cursor_position(st: &AppState, area: Area) -> (r: Option<(u16, u16)>)
    ensures
        forall|w: PanelWidths|
            widths_of(*st, w) ==> (match r {
                Some(c) => cursor_ok(w, area, st.scroll_offset) && (c.0 as int, c.1 as int)
                    == cursor_spec(w, area, st.scroll_offset),
                None => !cursor_ok(w, area, st.scroll_offset),
            }),
{
    let w = panel_widths(st);
    proof {
        lemma_widths_unique(*st, w);
    }
    if (area.width > 2 || (area.x < u16::MAX && area.y < u16::MAX)) && cursor_fits_exec(
        &w,
        area,
        st.scroll_offset,
    ) {
        Some(cursor_cell(&w, area, st.scroll_offset))
    } else {
        None
    }
}

proof fn lemma_widths_unique(st: AppState, w: PanelWidths)
    requires
        widths_of(st, w),
    ensures
        forall|w2: PanelWidths|
            widths_of(st, w2) ==> w2.lines@ == w.lines@ && w2.prompt == w.prompt && w2.input
                == w.input && w2.before_cursor == w.before_cursor,
{
    assert forall|w2: PanelWidths| widths_of(st, w2) implies w2.lines@ == w.lines@ && w2.prompt
        == w.prompt && w2.input == w.input && w2.before_cursor == w.before_cursor by {
        assert(w2.lines@ =~= w.lines@);
    }
}

/// The colour role of a line's tag.
pub fn tag_color(tag: &str) -> (r: LineColor)
    ensures
        r == if tag@ == "local"@ {
            LineColor::LocalTag
        } else if tag@ == "system"@ {
            LineColor::Brand
        } else {
            LineColor::ClientTag
        },
{
    if str_eq(tag, "local") {
        LineColor::LocalTag
    } else if str_eq(tag, "system") {
        LineColor::Brand
    } else {
        LineColor::ClientTag
    }
}

/// `x as u16` for a count `x`: its low 16 bits.
pub open spec fn low16(x: int) -> int {
    x % 0x1_0000
}

proof fn lemma_low16(w: usize)
    ensures
        (w as u16) as int == low16(w as int),
{
    assert((w as u16) as u64 == (w as u64) % 0x1_0000) by (bit_vector);
}

/// The cursor of the bottom input bar at `area`: after the prompt's bytes
/// and the cursor's position, but no further than two columns before the
/// bar's right end.
pub open spec fn input_cursor_spec(prompt_len: int, cursor_pos: int, area: Area) -> (int, int) {
    let x = area.x + 1 + low16(prompt_len) + low16(cursor_pos);
    let limit = area.x + area.width - 2;
    (if x < limit {
        x
    } else {
        limit
    }, area.y + 1)
}

/// The input bar's arithmetic stays within `u16`.
pub open spec fn input_cursor_fits(prompt_len: int, cursor_pos: int, area: Area) -> bool {
    &&& area.x + 1 + low16(prompt_len) + low16(cursor_pos) <= u16::MAX
    &&& area.x + area.width <= u16::MAX
    &&& area.x + area.width >= 2
    &&& area.y < u16::MAX
}

/// Get the cursor position for the input bar (x, y relative to terminal).
pub fn input_bar_cursor(st: &AppState, area: Area) -> (r: (u16, u16))
    requires
        crate::text::utf8_len(crate::app::prompt_text(st.alter_target)) <= usize::MAX,
        input_cursor_fits(
            crate::text::utf8_len(crate::app::prompt_text(st.alter_target)) as int,
            st.cursor_pos as int,
            area,
        ),
    ensures
        (r.0 as int, r.1 as int) == input_cursor_spec(
            crate::text::utf8_len(crate::app::prompt_text(st.alter_target)) as int,
            st.cursor_pos as int,
            area,
        ),
{
    let prompt = st.prompt();
    proof {
        crate::text::lemma_utf8_len(prompt@);
    }
    let n = prompt.as_str().len();
    proof {
        lemma_low16(n);
        lemma_low16(st.cursor_pos);
    }
    let x = area.x + 1 + #[verifier::truncate] (n as u16) + #[verifier::truncate] (st.cursor_pos as u16);
    let limit = area.x + area.width - 2;
    (if x < limit {
        x
    } else {
        limit
    }, area.y + 1)
}

} // verus!
