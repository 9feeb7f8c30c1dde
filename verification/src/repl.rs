//! What a line typed at the admin prompt does: the admin's own commands,
//! targeting a client, alter mode and local execution.
use vstd::prelude::*;
use crate::app::{
    appended_lines, find_tag_index, has_tag, AppState, ClientInfo, LineColor, SCROLL_BOTTOM,
};
use crate::commands::{option_command_view, Command, CommandView};
use crate::parser::{first_word, first_word_len, parse_command, spec_parse_command};
use crate::text::{
    chars_of, decimal, is_ws_char, lemma_prefix_len, non_ws_pred, push_char, push_decimal,
    spec_trim, spec_trim_char, string_of_range, trim_char_range, trim_range,
};

verus! {

/// What the program still has to do after a line was processed.
pub enum ReplEffect {
    /// Nothing more.
    Done,
    /// Process this earlier command again.
    Rerun(String),
    /// Show the table of connected clients.
    Rolecall,
    /// Send a notification with this message to every client.
    Broadcast(String),
    /// Send this command to the client with this tag.
    Send { tag: String, command: Command },
    /// Execute this line on the admin's own machine and show the output.
    Local(String),
}

/// The branch that a (trimmed) line takes.
pub enum ReplCase {
    Empty,
    Quit,
    Rerun,
    NoHistory,
    Clean,
    History,
    Rolecall,
    Help,
    AlterOff,
    AlterSet,
    AlterMissing,
    Broadcast,
    ClientMissing,
    ClientSend,
    AlterSend,
    Local,
}

pub open spec fn starts_with(s: Seq<char>, prefix: Seq<char>) -> bool {
    prefix.len() <= s.len() && s.take(prefix.len() as int) == prefix
}

/// A client tag as typed: `f` followed only by ASCII digits.
pub open spec fn is_tag_word(w: Seq<char>) -> bool {
    &&& w.len() > 0
    &&& w[0] == 'f'
    &&& forall|i: int| 1 <= i < w.len() ==> '0' <= #[trigger] w[i] <= '9'
}

/// The target named after `f alter `.
pub open spec fn alter_arg(t: Seq<char>) -> Seq<char> {
    spec_trim(t.skip(8))
}

/// The message after `broadcast `, trimmed and stripped of quotes.
pub open spec fn broadcast_arg(t: Seq<char>) -> Seq<char> {
    spec_trim_char(spec_trim_char(spec_trim(t.skip(10)), '"'), '\'')
}

/// The command after a client tag.
pub open spec fn tagged_command(t: Seq<char>) -> Seq<char> {
    spec_trim(t.skip(first_word_len(t) + 1 as int))
}

pub open spec fn history_views(h: Seq<String>) -> Seq<Seq<char>> {
    h.map_values(|s: String| s@)
}

/// The branch taken by the trimmed line `t`, given the history (already
/// holding `t`), the connected clients and the alter target.
pub open spec fn repl_case(
    t: Seq<char>,
    history: Seq<String>,
    clients: Seq<(String, ClientInfo)>,
    alter: Option<String>,
) -> ReplCase {
    if t.len() == 0 {
        ReplCase::Empty
    } else if t == "exit"@ || t == "quit"@ {
        ReplCase::Quit
    } else if t == "!!"@ {
        if history.len() < 2 {
            ReplCase::NoHistory
        } else {
            ReplCase::Rerun
        }
    } else if t == "clean"@ || t == "clear"@ {
        ReplCase::Clean
    } else if t == "history"@ {
        ReplCase::History
    } else if t == "rolecall"@ {
        ReplCase::Rolecall
    } else if t == "fluffy --help"@ || t == "help"@ || t == "--help"@ {
        ReplCase::Help
    } else if starts_with(t, "f alter "@) {
        let target = alter_arg(t);
        if target == "local"@ || target == "off"@ {
            ReplCase::AlterOff
        } else if has_tag(clients, target) {
            ReplCase::AlterSet
        } else {
            ReplCase::AlterMissing
        }
    } else if starts_with(t, "broadcast "@) {
        ReplCase::Broadcast
    } else if is_tag_word(first_word(t)) && first_word_len(t) < t.len() {
        if has_tag(clients, first_word(t)) {
            ReplCase::ClientSend
        } else {
            ReplCase::ClientMissing
        }
    } else if alter is Some {
        ReplCase::AlterSend
    } else {
        ReplCase::Local
    }
}

/// One line of the history listing: `  n. command`.
pub open spec fn history_entry(n: nat, cmd: Seq<char>) -> Seq<char> {
    "  "@ + decimal(n) + ". "@ + cmd
}

/// The numbered history, one entry per line.
pub open spec fn history_listing(h: Seq<Seq<char>>) -> Seq<char>
    decreases h.len(),
{
    if h.len() == 0 {
        Seq::empty()
    } else if h.len() == 1 {
        history_entry(1, h[0])
    } else {
        history_listing(h.drop_last()) + seq!['\n'] + history_entry(h.len(), h.last())
    }
}

pub open spec fn unknown_command_text(cmd: Seq<char>) -> Seq<char> {
    "Unknown command: '"@ + cmd + "'. Type 'fluffy --help' to see all commands."@
}

pub open spec fn echo_text(tag: Seq<char>, cmd: Seq<char>) -> Seq<char> {
    "["@ + tag + "] "@ + cmd
}

/// The fields that processing a line may change are the history, the output,
/// the scroll position, the quit flag, the help overlay and the alter target.
pub open spec fn repl_frame(a: AppState, b: AppState) -> bool {
    &&& a.clients == b.clients
    &&& a.input_buffer == b.input_buffer
    &&& a.cursor_pos == b.cursor_pos
    &&& a.history_index == b.history_index
    &&& a.saved_input == b.saved_input
    &&& a.client_counter == b.client_counter
    &&& a.last_visual_row_count == b.last_visual_row_count
    &&& a.command_id_counter == b.command_id_counter
    &&& a.mode == b.mode
    &&& a.client_service_status == b.client_service_status
    &&& a.client_output == b.client_output
    &&& a.admin_port == b.admin_port
    &&& a.server_active == b.server_active
}

/// Nothing shown and no mode changed.
pub open spec fn quiet(a: AppState, b: AppState) -> bool {
    &&& a.output_lines == b.output_lines
    &&& a.scroll_offset == b.scroll_offset
    &&& a.should_quit == b.should_quit
    &&& a.show_help == b.show_help
    &&& a.help_scroll == b.help_scroll
    &&& a.alter_target == b.alter_target
}

/// Only `text` was shown, with `tag` and `color`.
pub open spec fn shows(a: AppState, b: AppState, tag: Seq<char>, text: Seq<char>, color: LineColor) -> bool {
    &&& appended_lines(a.output_lines@, b.output_lines@, tag, text, color)
    &&& b.scroll_offset == SCROLL_BOTTOM
    &&& a.should_quit == b.should_quit
    &&& a.show_help == b.show_help
    &&& a.help_scroll == b.help_scroll
    &&& a.alter_target == b.alter_target
}

/// `text1` and then `text2` were shown, both with `tag`.
pub open spec fn shows_two(
    a: AppState,
    b: AppState,
    tag: Seq<char>,
    text1: Seq<char>,
    color1: LineColor,
    text2: Seq<char>,
    color2: LineColor,
) -> bool {
    &&& exists|mid: Seq<crate::app::OutputLine>|
        appended_lines(a.output_lines@, mid, tag, text1, color1) && appended_lines(
            mid,
            b.output_lines@,
            tag,
            text2,
            color2,
        )
    &&& b.scroll_offset == SCROLL_BOTTOM
    &&& a.should_quit == b.should_quit
    &&& a.show_help == b.show_help
    &&& a.help_scroll == b.help_scroll
    &&& a.alter_target == b.alter_target
}

/// Whether `v[lo..hi]` is exactly `s`.
pub fn range_is(v: &Vec<char>, lo: usize, hi: usize, s: &str) -> (r: bool)
    requires
        lo <= hi <= v.len(),
    ensures
        r == (v@.subrange(lo as int, hi as int) == s@),
{
    let n = s.unicode_len();
    if hi - lo != n {
        return false;
    }
    let mut i: usize = 0;
    while i < n
        invariant
            n == s@.len(),
            hi - lo == n,
            lo <= hi <= v.len(),
            i <= n,
            forall|j: int| 0 <= j < i ==> v@[lo + j] == s@[j],
        decreases n - i,
    {
        if v[lo + i] != s.get_char(i) {
            return false;
        }
        i = i + 1;
    }
    assert(v@.subrange(lo as int, hi as int) =~= s@);
    true
}

/// Whether `v[lo..hi]` starts with `s`.
pub fn range_starts_with(v: &Vec<char>, lo: usize, hi: usize, s: &str) -> (r: bool)
    requires
        lo <= hi <= v.len(),
    ensures
        r == starts_with(v@.subrange(lo as int, hi as int), s@),
{
    let n = s.unicode_len();
    if n > hi - lo {
        return false;
    }
    let r = range_is(v, lo, lo + n, s);
    assert(v@.subrange(lo as int, hi as int).take(n as int) =~= v@.subrange(lo as int, lo + n));
    r
}

/// The numbered history, one entry per line.
pub fn history_text(h: &Vec<String>) -> (r: String)
    ensures
        r@ == history_listing(history_views(h@)),
{
    let ghost views = history_views(h@);
    let mut out = String::new();
    let mut i: usize = 0;
    while i < h.len()
        invariant
            i <= h@.len(),
            views == history_views(h@),
            out@ == history_listing(views.take(i as int)),
        decreases h.len() - i,
    {
        let ghost prev = views.take(i as int);
        let ghost next = views.take(i + 1);
        assert(next.drop_last() =~= prev);
        assert(next.last() == h@[i as int]@);
        if i > 0 {
            push_char(&mut out, '\n');
        }
        let ghost before = out@;
        out.append("  ");
        push_decimal(&mut out, (i as u64) + 1);
        out.append(". ");
        out.append(h[i].as_str());
        proof {
            assert(out@ =~= before + history_entry((i + 1) as nat, next.last()));
            if i == 0 {
                assert(prev =~= Seq::<Seq<char>>::empty());
            }
        }
        i = i + 1;
    }
    assert(views.take(h.len() as int) =~= views);
    out
}

fn unknown_command_message(cmd: &str) -> (r: String)
    ensures
        r@ == unknown_command_text(cmd@),
{
    let mut s = String::from_str("Unknown command: '");
    s.append(cmd);
    s.append("'. Type 'fluffy --help' to see all commands.");
    s
}

fn echo_message(tag: &str, cmd: &str) -> (r: String)
    ensures
        r@ == echo_text(tag@, cmd@),
{
    let mut s = String::from_str("[");
    s.append(tag);
    s.append("] ");
    s.append(cmd);
    s
}

/// What processing the line `raw` does: the state goes from `o` to `f` and
/// `eff` is left to do.
pub open spec fn processed(o: AppState, f: AppState, raw: Seq<char>, eff: ReplEffect) -> bool {
    let t = spec_trim(raw);
    let h = if t.len() == 0 {
        o.command_history@
    } else {
        o.command_history@.push(f.command_history@.last())
    };
    &&& repl_frame(o, f)
    &&& f.command_history@ == h
    &&& t.len() > 0 ==> f.command_history@.last()@ == t
    &&& match repl_case(t, h, o.clients@, o.alter_target) {
        ReplCase::Empty => quiet(o, f) && eff is Done,
        ReplCase::Quit => {
            &&& f.should_quit
            &&& f.output_lines == o.output_lines
            &&& f.scroll_offset == o.scroll_offset
            &&& f.show_help == o.show_help
            &&& f.help_scroll == o.help_scroll
            &&& f.alter_target == o.alter_target
            &&& eff is Done
        },
        ReplCase::NoHistory => shows(o, f, "system"@, "No commands in history."@, LineColor::Warning)
            && eff is Done,
        ReplCase::Rerun => {
            let cmd = h[h.len() - 2]@;
            &&& shows(o, f, "system"@, "Re-running: "@ + cmd, LineColor::Dim)
            &&& eff matches ReplEffect::Rerun(c) && c@ == cmd
        },
        ReplCase::Clean => {
            &&& f.output_lines@.len() == 0
            &&& f.scroll_offset == 0
            &&& f.should_quit == o.should_quit
            &&& f.show_help == o.show_help
            &&& f.help_scroll == o.help_scroll
            &&& f.alter_target == o.alter_target
            &&& eff is Done
        },
        ReplCase::History => shows(o, f, "system"@, history_listing(history_views(h)), LineColor::Text)
            && eff is Done,
        ReplCase::Rolecall => quiet(o, f) && eff is Rolecall,
        ReplCase::Help => {
            &&& f.show_help
            &&& f.help_scroll == 0
            &&& f.output_lines == o.output_lines
            &&& f.scroll_offset == o.scroll_offset
            &&& f.should_quit == o.should_quit
            &&& f.alter_target == o.alter_target
            &&& eff is Done
        },
        ReplCase::AlterOff => {
            &&& appended_lines(o.output_lines@, f.output_lines@, "system"@,
                "Alter mode cleared. Commands will run locally."@, LineColor::Success)
            &&& f.alter_target is None
            &&& eff is Done
        },
        ReplCase::AlterSet => {
            let target = alter_arg(t);
            &&& appended_lines(o.output_lines@, f.output_lines@, "system"@,
                "Alter mode set to ["@ + target + "]. All commands will target this client."@,
                LineColor::Success)
            &&& f.alter_target matches Some(a) && a@ == target
            &&& eff is Done
        },
        ReplCase::AlterMissing => shows(o, f, "system"@,
            "Client ["@ + alter_arg(t) + "] not found. Use 'rolecall' to see connected clients."@,
            LineColor::Error) && eff is Done,
        ReplCase::Broadcast => {
            let msg = broadcast_arg(t);
            if msg.len() == 0 {
                shows(o, f, "system"@, "Usage: broadcast \"message\""@, LineColor::Warning)
                    && eff is Done
            } else {
                quiet(o, f) && (eff matches ReplEffect::Broadcast(m) && m@ == msg)
            }
        },
        ReplCase::ClientMissing => shows(o, f, "system"@,
            "Client ["@ + first_word(t) + "] not found."@, LineColor::Error) && eff is Done,
        ReplCase::ClientSend => {
            let tag = first_word(t);
            let cmd = tagged_command(t);
            match spec_parse_command(cmd) {
                Some(c) => {
                    &&& shows(o, f, tag, echo_text(tag, cmd), LineColor::ClientTag)
                    &&& eff matches ReplEffect::Send { tag: g, command } && g@ == tag
                        && command@ == c
                },
                None => shows_two(o, f, tag, echo_text(tag, cmd), LineColor::ClientTag,
                    unknown_command_text(cmd), LineColor::Error) && eff is Done,
            }
        },
        ReplCase::AlterSend => {
            let target = o.alter_target->0@;
            match spec_parse_command(t) {
                Some(c) => {
                    &&& shows(o, f, target, echo_text(target, t), LineColor::ClientTag)
                    &&& eff matches ReplEffect::Send { tag: g, command } && g@ == target
                        && command@ == c
                },
                None => shows_two(o, f, target, echo_text(target, t), LineColor::ClientTag,
                    unknown_command_text(t), LineColor::Error) && eff is Done,
            }
        },
        ReplCase::Local => {
            &&& shows(o, f, "local"@, echo_text("local"@, t), LineColor::LocalTag)
            &&& eff matches ReplEffect::Local(s) && s@ == t
        },
    }
}

/// Process a line of input from the user: admin commands, client targeting,
/// alter mode and local execution. The returned effect is what remains to be
/// done outside the state.
#[verifier::spinoff_prover]
#[verifier::rlimit(60)]
pub fn process_input(st: &mut AppState, raw_input: &str) -> (eff: ReplEffect)
    ensures
        processed(*old(st), *final(st), raw_input@, eff),
{
    let v = chars_of(raw_input);
    let (a, b) = trim_range(&v, 0, v.len());
    assert(v@.subrange(0, v.len() as int) =~= raw_input@);
    let ghost t = v@.subrange(a as int, b as int);
    if a == b {
        return ReplEffect::Done;
    }
    let input = string_of_range(&v, a, b);

    // Add to history
    st.command_history.push(input.clone());

    // ─── Admin-side built-in commands ───────────────────────

    // Exit/quit
    if range_is(&v, a, b, "exit") || range_is(&v, a, b, "quit") {
        st.should_quit = true;
        return ReplEffect::Done;
    }

    // !! — re-run last command
    if range_is(&v, a, b, "!!") {
        let n = st.command_history.len();
        if n < 2 {
            st.add_output("system", "No commands in history.", LineColor::Warning);
            return ReplEffect::Done;
        } else {
            let cmd = st.command_history[n - 2].clone();
            let mut msg = String::from_str("Re-running: ");
            msg.append(cmd.as_str());
            st.add_output("system", msg.as_str(), LineColor::Dim);
            return ReplEffect::Rerun(cmd);
        }
    }

    // Clean — clear output
    if range_is(&v, a, b, "clean") || range_is(&v, a, b, "clear") {
        st.output_lines.clear();
        st.scroll_offset = 0;
        return ReplEffect::Done;
    }

    // History
    if range_is(&v, a, b, "history") {
        let listing = history_text(&st.command_history);
        st.add_output("system", listing.as_str(), LineColor::Text);
        return ReplEffect::Done;
    }

    // Rolecall
    if range_is(&v, a, b, "rolecall") {
        return ReplEffect::Rolecall;
    }

    // fluffy --help
    if range_is(&v, a, b, "fluffy --help") || range_is(&v, a, b, "help") || range_is(
        &v,
        a,
        b,
        "--help",
    ) {
        st.show_help = true;
        st.help_scroll = 0;
        return ReplEffect::Done;
    }

    // f alter
    if range_starts_with(&v, a, b, "f alter ") {
        proof {
            reveal_strlit("f alter ");
        }
        let (p, q) = trim_range(&v, a + 8, b);
        assert(t.skip(8) =~= v@.subrange(a + 8, b as int));
        let target = string_of_range(&v, p, q);
        if range_is(&v, p, q, "local") || range_is(&v, p, q, "off") {
            st.alter_target = None;
            st.add_output(
                "system",
                "Alter mode cleared. Commands will run locally.",
                LineColor::Success,
            );
        } else {
            // Verify the client exists
            let i = find_tag_index(&st.clients, target.as_str());
            if i < st.clients.len() {
                let mut msg = String::from_str("Alter mode set to [");
                msg.append(target.as_str());
                msg.append("]. All commands will target this client.");
                st.alter_target = Some(target);
                st.add_output("system", msg.as_str(), LineColor::Success);
            } else {
                let mut msg = String::from_str("Client [");
                msg.append(target.as_str());
                msg.append("] not found. Use 'rolecall' to see connected clients.");
                st.add_output("system", msg.as_str(), LineColor::Error);
            }
        }
        return ReplEffect::Done;
    }

    // Broadcast
    if range_starts_with(&v, a, b, "broadcast ") {
        proof {
            reveal_strlit("broadcast ");
        }
        let (p0, q0) = trim_range(&v, a + 10, b);
        assert(t.skip(10) =~= v@.subrange(a + 10, b as int));
        let (p1, q1) = trim_char_range(&v, p0, q0, '"');
        let (p2, q2) = trim_char_range(&v, p1, q1, '\'');
        if p2 == q2 {
            st.add_output("system", "Usage: broadcast \"message\"", LineColor::Warning);
            return ReplEffect::Done;
        } else {
            return ReplEffect::Broadcast(string_of_range(&v, p2, q2));
        }
    }

    // ─── Check for client tag prefix (f1, f2, ...) ──────────
    let mut k = a;
    while k < b && !is_ws_char(v[k])
        invariant
            a <= k <= b <= v.len(),
            forall|j: int| a <= j < k ==> !#[trigger] crate::text::is_ws(v@[j]),
        decreases b - k,
    {
        k = k + 1;
    }
    proof {
        assert forall|j: int| 0 <= j < k - a implies #[trigger] non_ws_pred()(t[j]) by {
            assert(t[j] == v@[a + j]);
        }
        if k < b {
            assert(t[k - a] == v@[k as int]);
        }
        lemma_prefix_len(t, non_ws_pred(), k - a);
        assert(first_word(t) =~= v@.subrange(a as int, k as int));
    }
    // Check if first word is a client tag (f followed by digits)
    let mut tag_word = v[a] == 'f';
    let mut j = a + 1;
    while tag_word && j < k
        invariant
            a < j <= k + 1,
            a <= k <= b <= v.len(),
            tag_word ==> j <= k,
            tag_word ==> v@[a as int] == 'f',
            tag_word ==> forall|i: int| a + 1 <= i < j ==> '0' <= #[trigger] v@[i] <= '9',
            !tag_word ==> !is_tag_word(v@.subrange(a as int, k as int)),
        decreases k + 1 - j,
    {
        if !('0' <= v[j] && v[j] <= '9') {
            tag_word = false;
            assert(v@.subrange(a as int, k as int)[j - a] == v@[j as int]);
        }
        j = j + 1;
    }
    proof {
        let w = v@.subrange(a as int, k as int);
        if tag_word {
            assert forall|i: int| 1 <= i < w.len() implies '0' <= #[trigger] w[i] <= '9' by {
                assert(w[i] == v@[a + i]);
            }
        }
    }
    if tag_word && k < b {
        let (p, q) = trim_range(&v, k + 1, b);
        assert(t.skip(k - a + 1) =~= v@.subrange(k + 1, b as int));
        let tag = string_of_range(&v, a, k);
        let cmd_str = string_of_range(&v, p, q);
        let i = find_tag_index(&st.clients, tag.as_str());
        if i == st.clients.len() {
            let mut msg = String::from_str("Client [");
            msg.append(tag.as_str());
            msg.append("] not found.");
            st.add_output("system", msg.as_str(), LineColor::Error);
            return ReplEffect::Done;
        }
        // Show the command being sent
        let echo = echo_message(tag.as_str(), cmd_str.as_str());
        st.add_output(tag.as_str(), echo.as_str(), LineColor::ClientTag);
        // Parse and send
        match parse_command(cmd_str.as_str()) {
            Some(command) => {
                return ReplEffect::Send { tag, command };
            },
            None => {
                let ghost mid = st.output_lines@;
                let msg = unknown_command_message(cmd_str.as_str());
                st.add_output(tag.as_str(), msg.as_str(), LineColor::Error);
                return ReplEffect::Done;
            },
        }
    }
    // ─── Alter mode: send to the active target ──────────────
    match &st.alter_target {
        Some(target) => {
            let target = target.clone();
            let echo = echo_message(target.as_str(), input.as_str());
            st.add_output(target.as_str(), echo.as_str(), LineColor::ClientTag);
            match parse_command(input.as_str()) {
                Some(command) => ReplEffect::Send { tag: target, command },
                None => {
                    let ghost mid = st.output_lines@;
                    let msg = unknown_command_message(input.as_str());
                    st.add_output(target.as_str(), msg.as_str(), LineColor::Error);
                    ReplEffect::Done
                },
            }
        },
        None => {
            // ─── Local execution (no target, no alter mode) ─────────
            let echo = echo_message("local", input.as_str());
            st.add_output("local", echo.as_str(), LineColor::LocalTag);
            ReplEffect::Local(input)
        },
    }
}

} // verus!
