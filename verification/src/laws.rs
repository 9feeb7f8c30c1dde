//! Properties of the terminal that hold across its operations.
use vstd::prelude::*;
use crate::app::{
    addr_index, addrs_unique, connected, has_tag, none_from, not_from, removed, tag_text, targets,
    AppState, ClientInfo,
};
use crate::paths::{dir_len, file_name, is_absolute, join_path, not_slash, slash, strip_slashes};
use crate::files::download_reply;
use crate::local::{client_only_text, spec_local_action, LocalActionView};
use crate::sysreport::{sysinfo_body, sysinfo_head, uptime_text, SystemSnapshot};
use crate::encoding::{b64_decode, spec_base64};
use crate::protocol::ClientHandshake;
use crate::repl::{alter_arg, processed, repl_case, starts_with, ReplCase, ReplEffect};
use crate::commands::{client_command_table, CommandView};
use crate::keys::{key_frame, key_handled, same_edit, scroll_down, scroll_up, scrolled_to, shown_len, KeyCode, KeyPress};
use crate::parser::{first_word, first_word_len, spec_args, spec_dispatch, spec_parse_command, word_lowers_to};
use crate::sizes::{f64_scale, f64_value};
use crate::text::{
    is_ws, non_ws_pred, decimal, digit_char, prefix_len, spec_lines, spec_trim, suffix_len, ws_pred,
    not_newline_pred, strip_cr,
};

verus! {

proof fn lemma_decimal_len(n: nat)
    ensures
        decimal(n).len() >= 1,
        n >= 10 ==> decimal(n).len() >= 2,
    decreases n,
{
    if n >= 10 {
        lemma_decimal_len(n / 10);
    }
}

proof fn lemma_digit_injective(a: nat, b: nat)
    requires
        a < 10,
        b < 10,
        digit_char(a) == digit_char(b),
    ensures
        a == b,
{
    assert(digit_char(a) as u32 == a + 48);
    assert(digit_char(b) as u32 == b + 48);
}

/// Different numbers are written differently.
pub proof fn law_decimal_injective(n: nat, m: nat)
    requires
        decimal(n) == decimal(m),
    ensures
        n == m,
    decreases n,
{
    lemma_decimal_len(n);
    lemma_decimal_len(m);
    if n < 10 && m < 10 {
        assert(decimal(n)[0] == digit_char(n));
        assert(decimal(m)[0] == digit_char(m));
        lemma_digit_injective(n, m);
    } else if n >= 10 && m >= 10 {
        let dn = decimal(n / 10);
        let dm = decimal(m / 10);
        assert(decimal(n) == dn.push(digit_char(n % 10)));
        assert(decimal(m) == dm.push(digit_char(m % 10)));
        assert(decimal(n).last() == digit_char(n % 10));
        assert(decimal(m).last() == digit_char(m % 10));
        lemma_digit_injective(n % 10, m % 10);
        assert(dn =~= decimal(n).drop_last());
        assert(dm =~= decimal(m).drop_last());
        law_decimal_injective(n / 10, m / 10);
    } else {
        assert(decimal(n).len() != decimal(m).len());
    }
}

/// Client tags never repeat: different counter values give different tags.
pub proof fn law_tags_never_repeat(n: nat, m: nat)
    requires
        n != m,
    ensures
        tag_text(n) != tag_text(m),
{
    if tag_text(n) == tag_text(m) {
        assert(decimal(n) =~= tag_text(n).drop_first());
        assert(decimal(m) =~= tag_text(m).drop_first());
        law_decimal_injective(n, m);
    }
}

/// Every client carries a tag that the counter has handed out.
pub open spec fn tags_issued(clients: Seq<(String, ClientInfo)>, counter: nat) -> bool {
    forall|i: int|
        0 <= i < clients.len() ==> exists|k: nat|
            1 <= k <= counter && (#[trigger] clients[i]).1.tag@ == tag_text(k)
}

/// No two clients carry the same tag.
pub open spec fn tags_unique(clients: Seq<(String, ClientInfo)>) -> bool {
    forall|i: int, j: int|
        0 <= i < clients.len() && 0 <= j < clients.len() && i != j ==> (#[trigger] clients[i]).1.tag@
            != (#[trigger] clients[j]).1.tag@
}

/// Registering a client keeps the tags issued and distinct: the newcomer's
/// tag was never handed out before.
pub proof fn law_connect_keeps_tags_unique(
    o: AppState,
    f: AppState,
    addr: Seq<char>,
    h: ClientHandshake,
    r: Seq<char>,
)
    requires
        tags_issued(o.clients@, o.client_counter as nat),
        tags_unique(o.clients@),
        connected(o, f, addr, h, r),
    ensures
        tags_issued(f.clients@, f.client_counter as nat),
        tags_unique(f.clients@),
{
    let i = addr_index(o.clients@, addr);
    crate::order::lemma_prefix_len_facts(o.clients@, not_from(addr));
    let n = f.client_counter as nat;
    assert forall|a: int| 0 <= a < f.clients@.len() implies exists|k: nat|
        1 <= k <= n && (#[trigger] f.clients@[a]).1.tag@ == tag_text(k) by {
        if a == i {
            assert(1 <= n <= n && f.clients@[a].1.tag@ == tag_text(n));
        } else {
            assert(a < o.clients@.len());
            assert(f.clients@[a] == o.clients@[a]);
            let k = choose|k: nat| 1 <= k <= o.client_counter && (#[trigger] o.clients@[a]).1.tag@ == tag_text(k);
            assert(1 <= k <= n && f.clients@[a].1.tag@ == tag_text(k));
        }
    }
    assert forall|a: int, b: int|
        0 <= a < f.clients@.len() && 0 <= b < f.clients@.len() && a != b implies (#[trigger] f.clients@[a]).1.tag@
        != (#[trigger] f.clients@[b]).1.tag@ by {
        if a == i || b == i {
            let other = if a == i {
                b
            } else {
                a
            };
            assert(other < o.clients@.len());
            assert(f.clients@[other] == o.clients@[other]);
            let k = choose|k: nat|
                1 <= k <= o.client_counter && (#[trigger] o.clients@[other]).1.tag@ == tag_text(k);
            law_tags_never_repeat(k, n);
        } else {
            assert(a < o.clients@.len() && b < o.clients@.len());
            assert(f.clients@[a] == o.clients@[a]);
            assert(f.clients@[b] == o.clients@[b]);
        }
    }
}

/// A client leaving keeps the tags of the others issued and distinct.
pub proof fn law_remove_keeps_tags_unique(
    o: AppState,
    clients2: Seq<(String, ClientInfo)>,
    alter2: Option<String>,
    addr: Seq<char>,
    r: Option<String>,
)
    requires
        tags_issued(o.clients@, o.client_counter as nat),
        tags_unique(o.clients@),
        removed(o.clients@, o.alter_target, clients2, alter2, addr, r),
    ensures
        tags_issued(clients2, o.client_counter as nat),
        tags_unique(clients2),
{
    let i = addr_index(o.clients@, addr);
    if i < o.clients@.len() {
        assert forall|a: int| 0 <= a < clients2.len() implies exists|k: nat|
            1 <= k <= o.client_counter && (#[trigger] clients2[a]).1.tag@ == tag_text(k) by {
            if a < i {
                assert(clients2[a] == o.clients@[a]);
            } else {
                assert(clients2[a] == o.clients@[a + 1]);
            }
        }
        assert forall|a: int, b: int|
            0 <= a < clients2.len() && 0 <= b < clients2.len() && a != b implies (#[trigger] clients2[a]).1.tag@
            != (#[trigger] clients2[b]).1.tag@ by {
            let a2 = if a < i {
                a
            } else {
                a + 1
            };
            let b2 = if b < i {
                b
            } else {
                b + 1
            };
            assert(clients2[a] == o.clients@[a2]);
            assert(clients2[b] == o.clients@[b2]);
        }
    }
}

/// A client that connects from a new address and then leaves gives back
/// the client list as it was, and its leaving names its tag.
pub proof fn law_connect_then_remove(
    o: AppState,
    m: AppState,
    clients2: Seq<(String, ClientInfo)>,
    alter2: Option<String>,
    addr: Seq<char>,
    h: ClientHandshake,
    r: Seq<char>,
    r2: Option<String>,
)
    requires
        addr_index(o.clients@, addr) == o.clients@.len(),
        connected(o, m, addr, h, r),
        removed(m.clients@, m.alter_target, clients2, alter2, addr, r2),
    ensures
        clients2 == o.clients@,
        r2 matches Some(t) && t@ == r,
{
    let p = not_from(addr);
    let n = o.clients@.len();
    crate::order::lemma_prefix_len_facts(o.clients@, p);
    assert forall|j: int| 0 <= j < n implies #[trigger] p(m.clients@[j]) by {
        assert(m.clients@[j] == o.clients@[j]);
        assert(p(o.clients@[j]));
    }
    assert(!p(m.clients@[n as int]));
    crate::text::lemma_prefix_len(m.clients@, p, n as int);
    assert(m.clients@.remove(n as int) =~= o.clients@);
}

/// Text added to the output is split into lines that hold no line break.
pub proof fn law_output_lines_unbroken(s: Seq<char>)
    ensures
        forall|i: int| 0 <= i < spec_lines(s).len() ==> !(#[trigger] spec_lines(s)[i]).contains('\n'),
    decreases s.len(),
{
    if s.len() > 0 {
        let k = prefix_len(s, not_newline_pred());
        crate::order::lemma_prefix_len_facts(s, not_newline_pred());
        if k < s.len() {
            law_output_lines_unbroken(s.skip(k + 1 as int));
            let first = strip_cr(s.take(k as int));
            assert forall|i: int| 0 <= i < spec_lines(s).len() implies !(#[trigger] spec_lines(s)[i]).contains('\n') by {
                assert(spec_lines(s) == seq![first] + spec_lines(s.skip(k + 1 as int)));
                if i == 0 {
                    assert(spec_lines(s)[0] == first);
                    if first.contains('\n') {
                        let j = choose|j: int| 0 <= j < first.len() && first[j] == '\n';
                        assert(first[j] == s[j]);
                        assert(not_newline_pred()(s[j]));
                    }
                } else {
                    assert(spec_lines(s)[i] == spec_lines(s.skip(k + 1 as int))[i - 1]);
                }
            }
        } else {
            assert forall|i: int| 0 <= i < spec_lines(s).len() implies !(#[trigger] spec_lines(s)[i]).contains('\n') by {
                assert(spec_lines(s)[0] == s);
                if s.contains('\n') {
                    let j = choose|j: int| 0 <= j < s.len() && s[j] == '\n';
                    assert(not_newline_pred()(s[j]));
                }
            }
        }
    }
}

/// A path joined to an absolute directory is absolute.
pub proof fn law_join_stays_absolute(base: Seq<char>, p: Seq<char>)
    requires
        is_absolute(base),
    ensures
        is_absolute(join_path(base, p)),
{
    if !is_absolute(p) {
        if base.last() == '/' {
            assert((base + p)[0] == base[0]);
        } else {
            assert((base + "/"@ + p)[0] == base[0]);
        }
    }
}

/// Byte counts below 2^53 are exact as doubles, so their sizes are printed
/// from the exact count.
pub proof fn law_small_counts_exact(n: nat)
    requires
        n < 0x20_0000_0000_0000,
    ensures
        f64_value(n) == n,
{
    assert(f64_scale(n) == 1);
}

/// Alter mode routes commands: once `f alter <tag>` has set a connected
/// client as the target, a command line that would have run locally is sent
/// to that client instead.
pub proof fn law_alter_routes_to_target(
    a: AppState,
    b: AppState,
    c: AppState,
    alter_line: Seq<char>,
    line: Seq<char>,
    e1: ReplEffect,
    e2: ReplEffect,
    cmd: CommandView,
)
    requires
        processed(a, b, alter_line, e1),
        processed(b, c, line, e2),
        spec_trim(alter_line) == alter_line,
        starts_with(alter_line, "f alter "@),
        alter_arg(alter_line) != "local"@,
        alter_arg(alter_line) != "off"@,
        has_tag(a.clients@, alter_arg(alter_line)),
        spec_trim(line) == line,
        forall|h: Seq<String>| repl_case(line, h, b.clients@, None) == ReplCase::Local,
        spec_parse_command(line) == Some(cmd),
    ensures
        e2 matches ReplEffect::Send { tag, command } && tag@ == alter_arg(alter_line) && command@
            == cmd,
{
    reveal_strlit("exit");
    reveal_strlit("quit");
    reveal_strlit("!!");
    reveal_strlit("clean");
    reveal_strlit("clear");
    reveal_strlit("history");
    reveal_strlit("rolecall");
    reveal_strlit("fluffy --help");
    reveal_strlit("help");
    reveal_strlit("--help");
    reveal_strlit("f alter ");
    let t = alter_line;
    assert(t.len() >= 8);
    assert(t.take(8) == "f alter "@);
    assert(t.take(8)[1] == t[1]);
    assert(t[1] == ' ');
    assert(t != "fluffy --help"@) by {
        assert("fluffy --help"@[1] == 'l');
    }
    let h1 = a.command_history@.push(b.command_history@.last());
    assert(repl_case(t, h1, a.clients@, a.alter_target) == ReplCase::AlterSet);
    assert(b.alter_target matches Some(x) && x@ == alter_arg(alter_line));
    let h2 = b.command_history@.push(c.command_history@.last());
    assert(repl_case(line, h2, b.clients@, None) == ReplCase::Local);
    assert(repl_case(line, h2, b.clients@, b.alter_target) == ReplCase::AlterSend);
}

/// Browsing the history and coming back restores the line being typed: from
/// a state that is not browsing the history, Up recalls the newest entry and
/// Down then gives back exactly the line that was typed before, with the
/// cursor at its end.
pub proof fn law_history_round_trip(
    a: AppState,
    b: AppState,
    c: AppState,
    up: KeyPress,
    down: KeyPress,
    r1: Option<String>,
    r2: Option<String>,
)
    requires
        key_handled(a, b, up, r1),
        key_handled(b, c, down, r2),
        up.code == KeyCode::Up,
        !up.shift,
        down.code == KeyCode::Down,
        !down.shift,
        !a.show_help,
        a.history_index is None,
        a.command_history@.len() > 0,
    ensures
        b.input_buffer == a.command_history@.last(),
        c.input_buffer == a.input_buffer,
        c.cursor_pos == crate::keys::bytes(a.input_buffer@).len() as usize,
        c.history_index is None,
        c.command_history == a.command_history,
        r1 is None,
        r2 is None,
{
    assert(a.command_history@.len() == a.command_history.len());
}

/// Leaving alter mode: after `f alter off` (or `f alter local`) no client is
/// targeted, and a command line that names no client runs on the admin's own
/// machine again.
pub proof fn law_alter_off_runs_locally(
    a: AppState,
    b: AppState,
    c: AppState,
    off_line: Seq<char>,
    line: Seq<char>,
    e1: ReplEffect,
    e2: ReplEffect,
)
    requires
        processed(a, b, off_line, e1),
        processed(b, c, line, e2),
        spec_trim(off_line) == off_line,
        starts_with(off_line, "f alter "@),
        alter_arg(off_line) == "off"@ || alter_arg(off_line) == "local"@,
        spec_trim(line) == line,
        forall|h: Seq<String>| repl_case(line, h, b.clients@, None) == ReplCase::Local,
    ensures
        b.alter_target is None,
        e2 matches ReplEffect::Local(s) && s@ == line,
{
    reveal_strlit("exit");
    reveal_strlit("quit");
    reveal_strlit("!!");
    reveal_strlit("clean");
    reveal_strlit("clear");
    reveal_strlit("history");
    reveal_strlit("rolecall");
    reveal_strlit("fluffy --help");
    reveal_strlit("help");
    reveal_strlit("--help");
    reveal_strlit("f alter ");
    let t = off_line;
    assert(t.len() >= 8);
    assert(t.take(8) == "f alter "@);
    assert(t.take(8)[1] == t[1]);
    assert(t[1] == ' ');
    assert(t != "fluffy --help"@) by {
        assert("fluffy --help"@[1] == 'l');
    }
    let h1 = a.command_history@.push(b.command_history@.last());
    assert(repl_case(t, h1, a.clients@, a.alter_target) == ReplCase::AlterOff);
    let h2 = b.command_history@.push(c.command_history@.last());
    assert(repl_case(line, h2, b.clients@, None) == ReplCase::Local);
}

proof fn lemma_prefix_stop(s: Seq<char>, p: spec_fn(char) -> bool)
    ensures
        prefix_len(s, p) <= s.len(),
        prefix_len(s, p) < s.len() ==> !p(s[prefix_len(s, p) as int]),
    decreases s.len(),
{
    if s.len() > 0 && p(s[0]) {
        lemma_prefix_stop(s.drop_first(), p);
        if prefix_len(s, p) < s.len() {
            assert(s.drop_first()[prefix_len(s.drop_first(), p) as int] == s[prefix_len(s, p) as int]);
        }
    }
}

proof fn lemma_suffix_stop(s: Seq<char>, p: spec_fn(char) -> bool)
    ensures
        suffix_len(s, p) <= s.len(),
        suffix_len(s, p) < s.len() ==> !p(s[s.len() - suffix_len(s, p) - 1]),
    decreases s.len(),
{
    if s.len() > 0 && p(s.last()) {
        lemma_suffix_stop(s.drop_last(), p);
        if suffix_len(s, p) < s.len() {
            let t = s.drop_last();
            assert(t[t.len() - suffix_len(t, p) - 1] == s[s.len() - suffix_len(s, p) - 1]);
        }
    }
}

/// Trimming twice is trimming once.
pub proof fn law_trim_idempotent(s: Seq<char>)
    ensures
        spec_trim(spec_trim(s)) == spec_trim(s),
{
    let p = ws_pred();
    let f = s.skip(prefix_len(s, p) as int);
    let t = spec_trim(s);
    lemma_prefix_stop(s, p);
    lemma_suffix_stop(f, p);
    assert(t == f.take(f.len() - suffix_len(f, p)));
    if t.len() > 0 {
        assert(t[0] == f[0]);
        assert(f[0] == s[prefix_len(s, p) as int]);
        crate::text::lemma_prefix_len(t, p, 0);
        assert(t[t.len() - 1] == f[f.len() - suffix_len(f, p) - 1]);
        crate::text::lemma_suffix_len(t, p, 0);
        assert(t.skip(0) =~= t);
        assert(t.take(t.len() as int) =~= t);
    } else {
        assert(spec_trim(t) =~= t);
    }
}

/// Parsing ignores the whitespace around a command: a line and the line
/// trimmed denote the same command, or both none.
pub proof fn law_parse_ignores_outer_whitespace(s: Seq<char>)
    ensures
        spec_parse_command(spec_trim(s)) == spec_parse_command(s),
{
    law_trim_idempotent(s);
}

/// Scrolling the output up one line and then down one line comes back to
/// the same position, as long as the view was neither at the top nor
/// following the bottom; the line being edited is untouched.
pub proof fn law_scroll_round_trip(a: AppState, b: AppState, c: AppState)
    requires
        key_frame(a, b),
        scrolled_to(a, b, scroll_up(a.scroll_offset, shown_len(a), 1)),
        key_frame(b, c),
        scrolled_to(b, c, scroll_down(b.scroll_offset, shown_len(b), 1)),
        1 <= a.scroll_offset < shown_len(a),
        shown_len(a) < crate::app::SCROLL_BOTTOM,
    ensures
        c.scroll_offset == a.scroll_offset,
        same_edit(a, c),
{
}

/// Clients are keyed by address: registering a client keeps every address
/// connected at most once, and the address it came from is held by exactly
/// the newcomer.
pub proof fn law_connect_keeps_addrs_unique(
    o: AppState,
    f: AppState,
    addr: Seq<char>,
    h: ClientHandshake,
    r: Seq<char>,
)
    requires
        connected(o, f, addr, h, r),
        addrs_unique(o.clients@),
    ensures
        addrs_unique(f.clients@),
        f.clients@[addr_index(o.clients@, addr)].0@ == addr,
        f.clients@[addr_index(o.clients@, addr)].1.tag@ == r,
{
    crate::app::lemma_removed_keeps_unique(o.clients@, addr);
    crate::order::lemma_prefix_len_facts(o.clients@, not_from(addr));
    let i = addr_index(o.clients@, addr);
    let fc = f.clients@;
    assert forall|a: int, b: int| 0 <= a < b < fc.len() implies (#[trigger] fc[a]).0@ != (#[trigger] fc[b]).0@ by {
        if a == i {
            assert(fc[b] == o.clients@[b]);
            if i < o.clients@.len() {
                assert(o.clients@[i].0@ != o.clients@[b].0@);
            }
        } else if b == i {
            assert(fc[a] == o.clients@[a]);
            assert(not_from(addr)(o.clients@[a]));
        } else {
            assert(fc[a] == o.clients@[a]);
            assert(fc[b] == o.clients@[b]);
        }
    }
}

/// A client's connection closing forgets its address: when addresses are
/// unique, no client from that address remains afterwards, the others stay
/// unique, and alter mode does not point at the tag that left.
pub proof fn law_link_closed_forgets_address(
    clients: Seq<(String, ClientInfo)>,
    alter: Option<String>,
    clients2: Seq<(String, ClientInfo)>,
    alter2: Option<String>,
    addr: Seq<char>,
    r: Option<String>,
)
    requires
        removed(clients, alter, clients2, alter2, addr, r),
        addrs_unique(clients),
    ensures
        none_from(clients2, addr),
        addrs_unique(clients2),
        r matches Some(tag) ==> !targets(alter2, tag@),
{
    crate::app::lemma_removed_keeps_unique(clients, addr);
}

/// A text that neither starts nor ends with whitespace is its own trim.
proof fn lemma_trim_solid(s: Seq<char>)
    requires
        s.len() > 0,
        !is_ws(s[0]),
        !is_ws(s.last()),
    ensures
        spec_trim(s) == s,
{
    crate::text::lemma_prefix_len(s, ws_pred(), 0);
    assert(s.skip(0) =~= s);
    crate::text::lemma_suffix_len(s, ws_pred(), 0);
    assert(s.take(s.len() as int) =~= s);
}

/// A word without whitespace, a space and an argument that neither starts
/// nor ends with whitespace: the line is already trimmed, its first word is
/// the word and its argument the argument.
proof fn lemma_word_and_arg(n: Seq<char>, a: Seq<char>)
    requires
        n.len() > 0,
        forall|j: int| 0 <= j < n.len() ==> !is_ws(#[trigger] n[j]),
        a.len() > 0,
        !is_ws(a[0]),
        !is_ws(a.last()),
    ensures
        spec_trim(n + " "@ + a) == n + " "@ + a,
        first_word(n + " "@ + a) == n,
        spec_args(n + " "@ + a) == a,
{
    reveal_strlit(" ");
    let t = n + " "@ + a;
    assert(t[0] == n[0]);
    assert(t.last() == a.last());
    lemma_trim_solid(t);
    assert forall|j: int| 0 <= j < n.len() implies #[trigger] non_ws_pred()(t[j]) by {
        assert(t[j] == n[j]);
    }
    assert(t[n.len() as int] == ' ');
    crate::text::lemma_prefix_len(t, non_ws_pred(), n.len() as int);
    assert(first_word_len(t) == n.len());
    assert(t.take(n.len() as int) =~= n);
    assert(t.skip(n.len() + 1 as int) =~= a);
    lemma_trim_solid(a);
}

/// A lowercase command name followed by ` 1` parses when the name selects a
/// command.
proof fn lemma_name_parses(n: Seq<char>)
    requires
        n.len() > 0,
        forall|j: int| 0 <= j < n.len() ==> 'a' <= #[trigger] n[j] <= 'z',
        spec_dispatch(n, "1"@) is Some,
    ensures
        spec_parse_command(n + " 1"@) is Some,
{
    reveal_strlit("1");
    reveal_strlit(" 1");
    reveal_strlit(" ");
    assert(" 1"@ =~= " "@ + "1"@);
    assert(n + " 1"@ =~= n + " "@ + "1"@);
    lemma_word_and_arg(n, "1"@);
}

/// Only the commands of the help parse: when a line parses, its first word
/// is, up to case, the name of one of the client commands.
pub proof fn law_parsed_commands_are_known(s: Seq<char>)
    requires
        spec_parse_command(s) is Some,
    ensures
        exists|i: int|
            0 <= i < client_command_table().len() && word_lowers_to(
                first_word(spec_trim(s)),
                #[trigger] client_command_table()[i].name@,
            ),
{
    let w = first_word(spec_trim(s));
    if word_lowers_to(w, "ls"@) {
        assert(word_lowers_to(w, client_command_table()[0].name@));
    } else if word_lowers_to(w, "pwd"@) {
        assert(word_lowers_to(w, client_command_table()[1].name@));
    } else if word_lowers_to(w, "cd"@) {
        assert(word_lowers_to(w, client_command_table()[2].name@));
    } else if word_lowers_to(w, "cat"@) {
        assert(word_lowers_to(w, client_command_table()[3].name@));
    } else if word_lowers_to(w, "whoami"@) {
        assert(word_lowers_to(w, client_command_table()[4].name@));
    } else if word_lowers_to(w, "sysinfo"@) {
        assert(word_lowers_to(w, client_command_table()[5].name@));
    } else if word_lowers_to(w, "processes"@) {
        assert(word_lowers_to(w, client_command_table()[6].name@));
    } else if word_lowers_to(w, "kill"@) {
        assert(word_lowers_to(w, client_command_table()[7].name@));
    } else if word_lowers_to(w, "disk"@) {
        assert(word_lowers_to(w, client_command_table()[8].name@));
    } else if word_lowers_to(w, "lock"@) {
        assert(word_lowers_to(w, client_command_table()[9].name@));
    } else if word_lowers_to(w, "shutdown"@) {
        assert(word_lowers_to(w, client_command_table()[10].name@));
    } else if word_lowers_to(w, "restart"@) {
        assert(word_lowers_to(w, client_command_table()[11].name@));
    } else if word_lowers_to(w, "notify"@) {
        assert(word_lowers_to(w, client_command_table()[12].name@));
    } else if word_lowers_to(w, "alert"@) {
        assert(word_lowers_to(w, client_command_table()[13].name@));
    } else if word_lowers_to(w, "locate"@) {
        assert(word_lowers_to(w, client_command_table()[14].name@));
    } else if word_lowers_to(w, "netinfo"@) {
        assert(word_lowers_to(w, client_command_table()[15].name@));
    } else if word_lowers_to(w, "users"@) {
        assert(word_lowers_to(w, client_command_table()[16].name@));
    } else if word_lowers_to(w, "screenshot"@) {
        assert(word_lowers_to(w, client_command_table()[17].name@));
    } else if word_lowers_to(w, "clipboard"@) {
        assert(word_lowers_to(w, client_command_table()[18].name@));
    } else if word_lowers_to(w, "battery"@) {
        assert(word_lowers_to(w, client_command_table()[19].name@));
    } else if word_lowers_to(w, "upload"@) {
        assert(word_lowers_to(w, client_command_table()[20].name@));
    } else if word_lowers_to(w, "download"@) {
        assert(word_lowers_to(w, client_command_table()[21].name@));
    } else if word_lowers_to(w, "ping"@) {
        assert(word_lowers_to(w, client_command_table()[22].name@));
    } else if word_lowers_to(w, "sh"@) {
        assert(word_lowers_to(w, client_command_table()[23].name@));
    }
}

/// Every client command of the help parses when its name is followed by an
/// argument (here `1`).
pub proof fn law_command_names_parse(i: int)
    requires
        0 <= i < client_command_table().len(),
    ensures
        spec_parse_command(client_command_table()[i].name@ + " 1"@) is Some,
{
    reveal_strlit("1");
    assert(crate::parser::spec_parse_u32("1"@) == Some(1u32)) by {
        assert("1"@.len() == 1);
        assert("1"@.drop_last().len() == 0);
        assert(crate::parser::digits_value("1"@.drop_last()) == 0);
        assert(crate::parser::digits_value("1"@) == 1);
        assert(crate::parser::all_digits("1"@));
    }
    if i == 0 {
        reveal_strlit("ls");
        lemma_name_parses(client_command_table()[0].name@);
    } else if i == 1 {
        reveal_strlit("pwd");
        lemma_name_parses(client_command_table()[1].name@);
    } else if i == 2 {
        reveal_strlit("cd");
        lemma_name_parses(client_command_table()[2].name@);
    } else if i == 3 {
        reveal_strlit("cat");
        lemma_name_parses(client_command_table()[3].name@);
    } else if i == 4 {
        reveal_strlit("whoami");
        lemma_name_parses(client_command_table()[4].name@);
    } else if i == 5 {
        reveal_strlit("sysinfo");
        lemma_name_parses(client_command_table()[5].name@);
    } else if i == 6 {
        reveal_strlit("processes");
        lemma_name_parses(client_command_table()[6].name@);
    } else if i == 7 {
        reveal_strlit("kill");
        lemma_name_parses(client_command_table()[7].name@);
    } else if i == 8 {
        reveal_strlit("disk");
        lemma_name_parses(client_command_table()[8].name@);
    } else if i == 9 {
        reveal_strlit("lock");
        lemma_name_parses(client_command_table()[9].name@);
    } else if i == 10 {
        reveal_strlit("shutdown");
        lemma_name_parses(client_command_table()[10].name@);
    } else if i == 11 {
        reveal_strlit("restart");
        lemma_name_parses(client_command_table()[11].name@);
    } else if i == 12 {
        reveal_strlit("notify");
        lemma_name_parses(client_command_table()[12].name@);
    } else if i == 13 {
        reveal_strlit("alert");
        lemma_name_parses(client_command_table()[13].name@);
    } else if i == 14 {
        reveal_strlit("locate");
        lemma_name_parses(client_command_table()[14].name@);
    } else if i == 15 {
        reveal_strlit("netinfo");
        lemma_name_parses(client_command_table()[15].name@);
    } else if i == 16 {
        reveal_strlit("users");
        lemma_name_parses(client_command_table()[16].name@);
    } else if i == 17 {
        reveal_strlit("screenshot");
        lemma_name_parses(client_command_table()[17].name@);
    } else if i == 18 {
        reveal_strlit("clipboard");
        lemma_name_parses(client_command_table()[18].name@);
    } else if i == 19 {
        reveal_strlit("battery");
        lemma_name_parses(client_command_table()[19].name@);
    } else if i == 20 {
        reveal_strlit("upload");
        lemma_name_parses(client_command_table()[20].name@);
    } else if i == 21 {
        reveal_strlit("download");
        lemma_name_parses(client_command_table()[21].name@);
    } else if i == 22 {
        reveal_strlit("ping");
        lemma_name_parses(client_command_table()[22].name@);
    } else if i == 23 {
        reveal_strlit("sh");
        lemma_name_parses(client_command_table()[23].name@);
    }
}

/// A character with its ASCII capital (and the Kelvin sign, which Rust
/// lowercases to `k`) made lowercase; other characters stay.
pub open spec fn lower_char(c: char) -> char {
    if 'A' <= c && c <= 'Z' {
        ((c as u32) + 32) as char
    } else if c == '\u{212a}' {
        'k'
    } else {
        c
    }
}

/// A word with `lower_char` applied to each character.
pub open spec fn ascii_lower(w: Seq<char>) -> Seq<char> {
    Seq::new(w.len(), |j: int| lower_char(w[j]))
}

proof fn lemma_lower_char(c: char, k: char)
    requires
        'a' <= k <= 'z',
    ensures
        crate::parser::char_lowers_to(c, k) == (lower_char(c) == k),
        crate::parser::char_lowers_to(lower_char(c), k) == (lower_char(c) == k),
{
    if 'A' <= c && c <= 'Z' {
        assert(((c as u32) + 32) as char as int == c as int + 32);
    }
}

/// Against a lowercase keyword, a word and the word lowercased match alike.
proof fn lemma_lowered_word(w: Seq<char>, kw: Seq<char>)
    requires
        forall|j: int| 0 <= j < kw.len() ==> 'a' <= #[trigger] kw[j] <= 'z',
    ensures
        word_lowers_to(w, kw) == word_lowers_to(ascii_lower(w), kw),
{
    let lw = ascii_lower(w);
    if w.len() == kw.len() {
        assert forall|j: int| 0 <= j < w.len() implies crate::parser::char_lowers_to(w[j], kw[j])
            == crate::parser::char_lowers_to(#[trigger] lw[j], kw[j]) by {
            lemma_lower_char(w[j], kw[j]);
        }
        if word_lowers_to(w, kw) {
            assert forall|j: int| 0 <= j < lw.len() implies #[trigger] crate::parser::char_lowers_to(lw[j], kw[j]) by {
                assert(crate::parser::char_lowers_to(w[j], kw[j]));
            }
        }
        if word_lowers_to(lw, kw) {
            assert forall|j: int| 0 <= j < w.len() implies #[trigger] crate::parser::char_lowers_to(w[j], kw[j]) by {
                assert(crate::parser::char_lowers_to(lw[j], kw[j]));
            }
        }
    }
}

/// The command a word selects does not depend on the case of its ASCII
/// letters.
proof fn lemma_dispatch_ignores_case(w: Seq<char>, a: Seq<char>)
    ensures
        spec_dispatch(w, a) == spec_dispatch(ascii_lower(w), a),
{
    reveal_strlit("ls");
    lemma_lowered_word(w, "ls"@);
    reveal_strlit("pwd");
    lemma_lowered_word(w, "pwd"@);
    reveal_strlit("cd");
    lemma_lowered_word(w, "cd"@);
    reveal_strlit("cat");
    lemma_lowered_word(w, "cat"@);
    reveal_strlit("whoami");
    lemma_lowered_word(w, "whoami"@);
    reveal_strlit("sysinfo");
    lemma_lowered_word(w, "sysinfo"@);
    reveal_strlit("processes");
    lemma_lowered_word(w, "processes"@);
    reveal_strlit("kill");
    lemma_lowered_word(w, "kill"@);
    reveal_strlit("disk");
    lemma_lowered_word(w, "disk"@);
    reveal_strlit("lock");
    lemma_lowered_word(w, "lock"@);
    reveal_strlit("shutdown");
    lemma_lowered_word(w, "shutdown"@);
    reveal_strlit("restart");
    lemma_lowered_word(w, "restart"@);
    reveal_strlit("notify");
    lemma_lowered_word(w, "notify"@);
    reveal_strlit("alert");
    lemma_lowered_word(w, "alert"@);
    reveal_strlit("locate");
    lemma_lowered_word(w, "locate"@);
    reveal_strlit("netinfo");
    lemma_lowered_word(w, "netinfo"@);
    reveal_strlit("users");
    lemma_lowered_word(w, "users"@);
    reveal_strlit("screenshot");
    lemma_lowered_word(w, "screenshot"@);
    reveal_strlit("clipboard");
    lemma_lowered_word(w, "clipboard"@);
    reveal_strlit("battery");
    lemma_lowered_word(w, "battery"@);
    reveal_strlit("upload");
    lemma_lowered_word(w, "upload"@);
    reveal_strlit("download");
    lemma_lowered_word(w, "download"@);
    reveal_strlit("ping");
    lemma_lowered_word(w, "ping"@);
    reveal_strlit("sh");
    lemma_lowered_word(w, "sh"@);
}

/// Lowercasing keeps a word free of whitespace.
proof fn lemma_lower_solid(w: Seq<char>)
    requires
        forall|j: int| 0 <= j < w.len() ==> !is_ws(#[trigger] w[j]),
    ensures
        forall|j: int| 0 <= j < w.len() ==> !is_ws(#[trigger] ascii_lower(w)[j]),
{
    assert forall|j: int| 0 <= j < w.len() implies !is_ws(#[trigger] ascii_lower(w)[j]) by {
        let c = w[j];
        if 'A' <= c && c <= 'Z' {
            assert(((c as u32) + 32) as char as int == c as int + 32);
        }
    }
}

/// Parsing reads the command word without regard to the case of its ASCII
/// letters: a word followed by an argument (which neither starts nor ends
/// with whitespace) parses as the lowercased word with that argument.
pub proof fn law_parse_ignores_case(w: Seq<char>, a: Seq<char>)
    requires
        w.len() > 0,
        forall|j: int| 0 <= j < w.len() ==> !is_ws(#[trigger] w[j]),
        a.len() > 0,
        !is_ws(a[0]),
        !is_ws(a.last()),
    ensures
        spec_parse_command(w + " "@ + a) == spec_parse_command(ascii_lower(w) + " "@ + a),
{
    lemma_word_and_arg(w, a);
    lemma_lower_solid(w);
    lemma_word_and_arg(ascii_lower(w), a);
    lemma_dispatch_ignores_case(w, a);
}

/// The same for a word alone: it parses as the lowercased word.
pub proof fn law_parse_word_ignores_case(w: Seq<char>)
    requires
        w.len() > 0,
        forall|j: int| 0 <= j < w.len() ==> !is_ws(#[trigger] w[j]),
    ensures
        spec_parse_command(w) == spec_parse_command(ascii_lower(w)),
{
    lemma_lower_solid(w);
    let lw = ascii_lower(w);
    lemma_trim_solid(w);
    lemma_trim_solid(lw);
    crate::text::lemma_prefix_len(w, non_ws_pred(), w.len() as int);
    crate::text::lemma_prefix_len(lw, non_ws_pred(), lw.len() as int);
    assert(w.take(w.len() as int) =~= w);
    assert(lw.take(lw.len() as int) =~= lw);
    lemma_dispatch_ignores_case(w, Seq::empty());
}

/// A plain file name: not empty, without `/`, and neither `.` nor `..`.
pub open spec fn plain_name(name: Seq<char>) -> bool {
    &&& name.len() > 0
    &&& forall|i: int| 0 <= i < name.len() ==> #[trigger] name[i] != '/'
    &&& name != "."@
    &&& name != ".."@
}

/// A plain name joined to a directory is the file that name names there.
#[verifier::spinoff_prover]
#[verifier::rlimit(60)]
pub proof fn law_joined_name(cwd: Seq<char>, name: Seq<char>)
    requires
        plain_name(name),
    ensures
        file_name(join_path(cwd, name)) == Some(name),
{
    reveal_strlit("/");
    let t = join_path(cwd, name);
    assert(!is_absolute(name));
    let pre = t.len() - name.len();
    assert(t.skip(pre) =~= name) by {
        if cwd.len() == 0 || cwd.last() == '/' {
            assert(t == cwd + name);
        } else {
            assert(t == cwd + "/"@ + name);
        }
    }
    assert(pre == 0 || t[pre - 1] == '/') by {
        if cwd.len() == 0 {
        } else if cwd.last() == '/' {
            assert(t[pre - 1] == cwd.last());
        } else {
            assert(t[pre - 1] == '/');
        }
    }
    assert(t.last() == name.last());
    crate::text::lemma_suffix_len(t, slash(), 0);
    assert(strip_slashes(t) =~= t);
    assert forall|j: int| t.len() - name.len() <= j < t.len() implies #[trigger] not_slash()(t[j]) by {
        assert(t[j] == name[j - pre]);
    }
    crate::text::lemma_suffix_len(t, not_slash(), name.len() as int);
    assert(dir_len(t) == pre);
}

/// A transfer gives the bytes back: when the file that an upload of a plain
/// `name` into `cwd` wrote is read back as `data`, the download's reply
/// names the file `name` and carries a base64 text that decodes to exactly
/// `data`. (That the file system returns what was written is not the
/// library's to state.)
pub proof fn law_download_gives_back(cwd: Seq<char>, name: Seq<char>, data: Seq<u8>)
    requires
        plain_name(name),
    ensures
        download_reply(join_path(cwd, name), true, false, Ok(data)) == Ok::<Seq<char>, Seq<char>>(
            "FILE_TRANSFER:"@ + name + ":"@ + spec_base64(data),
        ),
        b64_decode(spec_base64(data)) == data,
{
    law_joined_name(cwd, name);
    crate::encoding::law_base64_decodes(data);
}

proof fn lemma_suffix_facts(s: Seq<char>, p: spec_fn(char) -> bool)
    ensures
        suffix_len(s, p) <= s.len(),
        forall|k: int| s.len() - suffix_len(s, p) <= k < s.len() ==> #[trigger] p(s[k]),
        suffix_len(s, p) < s.len() ==> !p(s[s.len() - suffix_len(s, p) - 1]),
    decreases s.len(),
{
    lemma_suffix_stop(s, p);
    if s.len() > 0 && p(s.last()) {
        let t = s.drop_last();
        lemma_suffix_facts(t, p);
        assert forall|k: int| s.len() - suffix_len(s, p) <= k < s.len() implies #[trigger] p(s[k]) by {
            if k < s.len() - 1 {
                assert(s[k] == t[k]);
            }
        }
    }
}

/// The trim of a text is what lies between its leading and its trailing
/// whitespace.
proof fn lemma_trim_bounds(s: Seq<char>, i: int, j: int)
    requires
        0 <= i <= j <= s.len(),
        forall|k: int| 0 <= k < i ==> is_ws(#[trigger] s[k]),
        forall|k: int| j <= k < s.len() ==> is_ws(#[trigger] s[k]),
        i < j ==> !is_ws(s[i]) && !is_ws(s[j - 1]),
    ensures
        spec_trim(s) == s.subrange(i, j),
{
    if i < j {
        assert forall|k: int| 0 <= k < i implies #[trigger] ws_pred()(s[k]) by {}
        crate::text::lemma_prefix_len(s, ws_pred(), i);
        let f = s.skip(i);
        let m = s.len() - j;
        assert forall|k: int| f.len() - m <= k < f.len() implies #[trigger] ws_pred()(f[k]) by {
            assert(f[k] == s[k + i]);
        }
        if m < f.len() {
            assert(f[f.len() - m - 1] == s[j - 1]);
        }
        crate::text::lemma_suffix_len(f, ws_pred(), m);
        assert(f.take(f.len() - m) =~= s.subrange(i, j));
    } else {
        assert forall|k: int| 0 <= k < s.len() implies #[trigger] ws_pred()(s[k]) by {
            if k >= j {
                assert(is_ws(s[k]));
            }
        }
        crate::text::lemma_prefix_len(s, ws_pred(), s.len() as int);
        assert(s.skip(s.len() as int).len() == 0);
        assert(s.subrange(i, j) =~= Seq::<char>::empty());
    }
}

/// Bounds of the trim of any text.
proof fn lemma_trim_bounds_of(a: Seq<char>) -> (r: (int, int))
    ensures
        0 <= r.0 <= r.1 <= a.len(),
        forall|k: int| 0 <= k < r.0 ==> is_ws(#[trigger] a[k]),
        forall|k: int| r.1 <= k < a.len() ==> is_ws(#[trigger] a[k]),
        r.0 < r.1 ==> !is_ws(a[r.0]) && !is_ws(a[r.1 - 1]),
        spec_trim(a) == a.subrange(r.0, r.1),
{
    let p = ws_pred();
    crate::order::lemma_prefix_len_facts(a, p);
    let ia = prefix_len(a, p) as int;
    assert forall|k: int| 0 <= k < ia implies is_ws(#[trigger] a[k]) by {
        assert(p(a[k]));
    }
    if ia == a.len() {
        lemma_trim_bounds(a, ia, ia);
        (ia, ia)
    } else {
        lemma_suffix_facts(a, p);
        let ja = a.len() - suffix_len(a, p);
        assert(!p(a[ia]));
        assert(ja > ia);
        assert forall|k: int| ja <= k < a.len() implies is_ws(#[trigger] a[k]) by {
            assert(p(a[k]));
        }
        assert(!p(a[ja - 1]));
        lemma_trim_bounds(a, ia, ja);
        (ia, ja)
    }
}

/// A word, a space and any text: once trimmed, its first word is the word
/// and its argument the text trimmed.
proof fn lemma_word_then_text(w: Seq<char>, a: Seq<char>)
    requires
        w.len() > 0,
        forall|j: int| 0 <= j < w.len() ==> !is_ws(#[trigger] w[j]),
    ensures
        spec_trim(w + " "@ + a).len() > 0,
        first_word(spec_trim(w + " "@ + a)) == w,
        spec_args(spec_trim(w + " "@ + a)) == spec_trim(a),
{
    reveal_strlit(" ");
    let (ia, ja) = lemma_trim_bounds_of(a);
    let t = w + " "@ + a;
    let n = w.len() as int;
    assert(t[0] == w[0]);
    assert(t[n] == ' ');
    assert forall|k: int| 0 <= k < n implies #[trigger] t[k] == w[k] by {}
    assert forall|k: int| n + 1 <= k < t.len() implies #[trigger] t[k] == a[k - n - 1] by {}
    if ia < ja {
        let j = n + 1 + ja;
        assert(t[j - 1] == a[ja - 1]);
        assert forall|k: int| j <= k < t.len() implies is_ws(#[trigger] t[k]) by {
            assert(t[k] == a[k - n - 1]);
        }
        lemma_trim_bounds(t, 0, j);
        let u = t.subrange(0, j);
        assert forall|k: int| 0 <= k < n implies #[trigger] non_ws_pred()(u[k]) by {
            assert(u[k] == w[k]);
        }
        assert(u[n] == ' ');
        crate::text::lemma_prefix_len(u, non_ws_pred(), n);
        assert(u.take(n) =~= w);
        let v = u.skip(n + 1);
        assert(v =~= a.subrange(0, ja));
        assert forall|k: int| 0 <= k < ia implies is_ws(#[trigger] v[k]) by {
            assert(v[k] == a[k]);
        }
        assert(v[ia] == a[ia]);
        assert(v[ja - 1] == a[ja - 1]);
        lemma_trim_bounds(v, ia, ja);
        assert(v.subrange(ia, ja) =~= a.subrange(ia, ja));
    } else {
        assert(t[n - 1] == w[n - 1]);
        assert forall|k: int| n <= k < t.len() implies is_ws(#[trigger] t[k]) by {
            if k > n {
                assert(t[k] == a[k - n - 1]);
            }
        }
        lemma_trim_bounds(t, 0, n);
        let u = t.subrange(0, n);
        assert(u =~= w);
        assert forall|k: int| 0 <= k < n implies #[trigger] non_ws_pred()(u[k]) by {}
        crate::text::lemma_prefix_len(u, non_ws_pred(), n);
        assert(u.take(n) =~= w);
        assert(a.subrange(ia, ja) =~= Seq::<char>::empty());
    }
}

/// Parsing reads the command word without regard to the case of its ASCII
/// letters, and reads the argument trimmed: a word followed by a space and
/// any text parses as the lowercased word followed by the text trimmed.
pub proof fn law_parse_ignores_case_and_argument_spaces(w: Seq<char>, a: Seq<char>)
    requires
        w.len() > 0,
        forall|j: int| 0 <= j < w.len() ==> !is_ws(#[trigger] w[j]),
    ensures
        spec_parse_command(w + " "@ + a) == spec_parse_command(ascii_lower(w) + " "@ + spec_trim(a)),
{
    lemma_word_then_text(w, a);
    lemma_lower_solid(w);
    assert(ascii_lower(w).len() == w.len());
    lemma_word_then_text(ascii_lower(w), spec_trim(a));
    law_trim_idempotent(a);
    lemma_dispatch_ignores_case(w, spec_trim(a));
}

/// Against a lowercase keyword, a word matches exactly when its ASCII
/// letters lowered give the keyword.
proof fn lemma_word_is_lowered(w: Seq<char>, kw: Seq<char>)
    requires
        forall|j: int| 0 <= j < kw.len() ==> 'a' <= #[trigger] kw[j] <= 'z',
    ensures
        word_lowers_to(w, kw) == (ascii_lower(w) == kw),
{
    lemma_lowered_word(w, kw);
    let lw = ascii_lower(w);
    if lw.len() == kw.len() {
        assert forall|j: int| 0 <= j < lw.len() implies crate::parser::char_lowers_to(#[trigger] lw[j], kw[j])
            == (lw[j] == kw[j]) by {
            lemma_lower_char(w[j], kw[j]);
        }
        if word_lowers_to(lw, kw) {
            assert(lw =~= kw);
        }
    }
}

/// Each command word selects its own command: a line made of a word and an
/// argument parses, according to the command the word names (in any case),
/// to that command with the argument trimmed; commands that need an
/// argument give none without one.
#[verifier::spinoff_prover]
#[verifier::rlimit(100)]
pub proof fn law_command_words_select_their_command(w: Seq<char>, a: Seq<char>)
    requires
        w.len() > 0,
        forall|j: int| 0 <= j < w.len() ==> !is_ws(#[trigger] w[j]),
    ensures
        ({
            let t = spec_trim(a);
            let r = spec_parse_command(w + " "@ + a);
            &&& word_lowers_to(w, "ls"@) ==> r == Some(CommandView::Ls { path: if t.len() == 0 { None } else { Some(t) } })
            &&& word_lowers_to(w, "pwd"@) ==> r == Some(CommandView::Pwd)
            &&& word_lowers_to(w, "cd"@) ==> r == if t.len() == 0 { None } else { Some(CommandView::Cd { path: t }) }
            &&& word_lowers_to(w, "cat"@) ==> r == if t.len() == 0 { None } else { Some(CommandView::Cat { path: t }) }
            &&& word_lowers_to(w, "whoami"@) ==> r == Some(CommandView::Whoami)
            &&& word_lowers_to(w, "sysinfo"@) ==> r == Some(CommandView::Sysinfo)
            &&& word_lowers_to(w, "processes"@) ==> r == Some(CommandView::Processes)
            &&& word_lowers_to(w, "kill"@) ==> (r is Some <==> t.len() > 0 && crate::parser::spec_parse_u32(t) is Some)
                && (r is Some ==> r == Some(CommandView::Kill { pid: crate::parser::spec_parse_u32(t)->0 }))
            &&& word_lowers_to(w, "disk"@) ==> r == Some(CommandView::DiskInfo)
            &&& word_lowers_to(w, "lock"@) ==> r == Some(CommandView::Lock)
            &&& word_lowers_to(w, "shutdown"@) ==> r == Some(CommandView::Shutdown)
            &&& word_lowers_to(w, "restart"@) ==> r == Some(CommandView::Restart)
            &&& word_lowers_to(w, "notify"@) ==> r == if t.len() == 0 { None } else { Some(CommandView::Notify { message: crate::parser::notify_message(t) }) }
            &&& word_lowers_to(w, "alert"@) ==> r == Some(CommandView::Alert)
            &&& word_lowers_to(w, "locate"@) ==> r == Some(CommandView::Locate)
            &&& word_lowers_to(w, "netinfo"@) ==> r == Some(CommandView::NetInfo)
            &&& word_lowers_to(w, "users"@) ==> r == Some(CommandView::Users)
            &&& word_lowers_to(w, "screenshot"@) ==> r == Some(CommandView::Screenshot)
            &&& word_lowers_to(w, "clipboard"@) ==> r == Some(CommandView::Clipboard)
            &&& word_lowers_to(w, "battery"@) ==> r == Some(CommandView::Battery)
            &&& word_lowers_to(w, "upload"@) ==> r == if t.len() == 0 { None } else { Some(CommandView::Upload { filename: t, data: Seq::empty() }) }
            &&& word_lowers_to(w, "download"@) ==> r == if t.len() == 0 { None } else { Some(CommandView::Download { path: t }) }
            &&& word_lowers_to(w, "ping"@) ==> r == Some(CommandView::Ping)
            &&& word_lowers_to(w, "sh"@) ==> r == if t.len() == 0 { None } else { Some(CommandView::Shell { command: t }) }
        }),
{
    lemma_word_then_text(w, a);
    reveal_strlit("ls");
    lemma_word_is_lowered(w, "ls"@);
    reveal_strlit("pwd");
    lemma_word_is_lowered(w, "pwd"@);
    reveal_strlit("cd");
    lemma_word_is_lowered(w, "cd"@);
    reveal_strlit("cat");
    lemma_word_is_lowered(w, "cat"@);
    reveal_strlit("whoami");
    lemma_word_is_lowered(w, "whoami"@);
    reveal_strlit("sysinfo");
    lemma_word_is_lowered(w, "sysinfo"@);
    reveal_strlit("processes");
    lemma_word_is_lowered(w, "processes"@);
    reveal_strlit("kill");
    lemma_word_is_lowered(w, "kill"@);
    reveal_strlit("disk");
    lemma_word_is_lowered(w, "disk"@);
    reveal_strlit("lock");
    lemma_word_is_lowered(w, "lock"@);
    reveal_strlit("shutdown");
    lemma_word_is_lowered(w, "shutdown"@);
    reveal_strlit("restart");
    lemma_word_is_lowered(w, "restart"@);
    reveal_strlit("notify");
    lemma_word_is_lowered(w, "notify"@);
    reveal_strlit("alert");
    lemma_word_is_lowered(w, "alert"@);
    reveal_strlit("locate");
    lemma_word_is_lowered(w, "locate"@);
    reveal_strlit("netinfo");
    lemma_word_is_lowered(w, "netinfo"@);
    reveal_strlit("users");
    lemma_word_is_lowered(w, "users"@);
    reveal_strlit("screenshot");
    lemma_word_is_lowered(w, "screenshot"@);
    reveal_strlit("clipboard");
    lemma_word_is_lowered(w, "clipboard"@);
    reveal_strlit("battery");
    lemma_word_is_lowered(w, "battery"@);
    reveal_strlit("upload");
    lemma_word_is_lowered(w, "upload"@);
    reveal_strlit("download");
    lemma_word_is_lowered(w, "download"@);
    reveal_strlit("ping");
    lemma_word_is_lowered(w, "ping"@);
    reveal_strlit("sh");
    lemma_word_is_lowered(w, "sh"@);
    assert("ls"@[0] != "cd"@[0]);
    assert("ls"@[0] != "sh"@[0]);
    assert("pwd"@[0] != "cat"@[0]);
    assert("cd"@[0] != "sh"@[0]);
    assert("whoami"@[0] != "notify"@[0]);
    assert("whoami"@[0] != "locate"@[0]);
    assert("whoami"@[0] != "upload"@[0]);
    assert("sysinfo"@[0] != "restart"@[0]);
    assert("sysinfo"@[0] != "netinfo"@[0]);
    assert("sysinfo"@[0] != "battery"@[0]);
    assert("processes"@[0] != "clipboard"@[0]);
    assert("kill"@[0] != "disk"@[0]);
    assert("kill"@[0] != "lock"@[0]);
    assert("kill"@[0] != "ping"@[0]);
    assert("disk"@[0] != "lock"@[0]);
    assert("disk"@[0] != "ping"@[0]);
    assert("lock"@[0] != "ping"@[0]);
    assert("shutdown"@[0] != "download"@[0]);
    assert("restart"@[0] != "netinfo"@[0]);
    assert("restart"@[0] != "battery"@[0]);
    assert("notify"@[0] != "locate"@[0]);
    assert("notify"@[0] != "upload"@[0]);
    assert("alert"@[0] != "users"@[0]);
    assert("locate"@[0] != "upload"@[0]);
    assert("netinfo"@[0] != "battery"@[0]);
}

/// A word and any text, untrimmed: the word is the first word and the
/// text trimmed the argument.
proof fn lemma_first_word_of(w: Seq<char>, a: Seq<char>)
    requires
        w.len() > 0,
        forall|j: int| 0 <= j < w.len() ==> !is_ws(#[trigger] w[j]),
    ensures
        first_word(w + " "@ + a) == w,
        spec_args(w + " "@ + a) == spec_trim(a),
{
    reveal_strlit(" ");
    let t = w + " "@ + a;
    let n = w.len() as int;
    assert forall|k: int| 0 <= k < n implies #[trigger] non_ws_pred()(t[k]) by {
        assert(t[k] == w[k]);
    }
    assert(t[n] == ' ');
    crate::text::lemma_prefix_len(t, non_ws_pred(), n);
    assert(t.take(n) =~= w);
    assert(t.skip(n + 1) =~= a);
}

/// Each local command word selects its own action: a line made of a word and
/// an argument asks, according to the command the word names (in any
/// case), for that action with the argument trimmed, or for the usage text
/// when the command needs an argument and has none; a command meant for a
/// client is answered with a hint to target one.
#[verifier::spinoff_prover]
#[verifier::rlimit(100)]
pub proof fn law_local_words_select_their_action(w: Seq<char>, a: Seq<char>)
    requires
        w.len() > 0,
        forall|j: int| 0 <= j < w.len() ==> !is_ws(#[trigger] w[j]),
    ensures
        ({
            let t = spec_trim(a);
            let line = w + " "@ + a;
            let r = spec_local_action(line);
            &&& word_lowers_to(w, "ls"@) ==> r == LocalActionView::ListDir(if t.len() == 0 { None } else { Some(t) })
            &&& word_lowers_to(w, "pwd"@) ==> r == LocalActionView::Pwd
            &&& word_lowers_to(w, "cd"@) ==> r == if t.len() == 0 { LocalActionView::Reply("Usage: cd <path>"@) } else { LocalActionView::ChangeDir(t) }
            &&& word_lowers_to(w, "cat"@) ==> r == if t.len() == 0 { LocalActionView::Reply("Usage: cat <file>"@) } else { LocalActionView::Cat(t) }
            &&& word_lowers_to(w, "whoami"@) ==> r == LocalActionView::Whoami
            &&& word_lowers_to(w, "sysinfo"@) ==> r == LocalActionView::Sysinfo
            &&& word_lowers_to(w, "processes"@) ==> r == LocalActionView::Processes
            &&& word_lowers_to(w, "kill"@) ==> r == if t.len() == 0 {
                LocalActionView::Reply("Usage: kill <pid>"@)
            } else if crate::parser::spec_parse_u32(t) is Some {
                LocalActionView::Kill(crate::parser::spec_parse_u32(t)->0)
            } else {
                LocalActionView::Reply("Invalid PID: "@ + t)
            }
            &&& word_lowers_to(w, "disk"@) ==> r == LocalActionView::DiskInfo
            &&& word_lowers_to(w, "netinfo"@) ==> r == LocalActionView::NetInfo
            &&& word_lowers_to(w, "battery"@) ==> r == LocalActionView::Reply(
                "Run on target client for battery info. Admin machine uses 'sysinfo' for details."@)
            &&& word_lowers_to(w, "users"@) ==> r == LocalActionView::Users
            &&& word_lowers_to(w, "clipboard"@) ==> r == LocalActionView::Clipboard
            &&& word_lowers_to(w, "ping"@) ==> r == LocalActionView::Reply("PONG (local)"@)
            &&& word_lowers_to(w, "sh"@) ==> r == if t.len() == 0 { LocalActionView::Reply("Usage: sh <command>"@) } else { LocalActionView::Shell(t) }
            &&& word_lowers_to(w, "locate"@) ==> r == LocalActionView::Reply(client_only_text("locate"@, line))
            &&& word_lowers_to(w, "screenshot"@) ==> r == LocalActionView::Reply(client_only_text("screenshot"@, line))
            &&& word_lowers_to(w, "alert"@) ==> r == LocalActionView::Reply(client_only_text("alert"@, line))
            &&& word_lowers_to(w, "notify"@) ==> r == LocalActionView::Reply(client_only_text("notify"@, line))
            &&& word_lowers_to(w, "lock"@) ==> r == LocalActionView::Reply(client_only_text("lock"@, line))
            &&& word_lowers_to(w, "shutdown"@) ==> r == LocalActionView::Reply(client_only_text("shutdown"@, line))
            &&& word_lowers_to(w, "restart"@) ==> r == LocalActionView::Reply(client_only_text("restart"@, line))
            &&& word_lowers_to(w, "upload"@) ==> r == LocalActionView::Reply(client_only_text("upload"@, line))
            &&& word_lowers_to(w, "download"@) ==> r == LocalActionView::Reply(client_only_text("download"@, line))
        }),
{
    lemma_first_word_of(w, a);
    reveal_strlit("ls");
    lemma_word_is_lowered(w, "ls"@);
    reveal_strlit("pwd");
    lemma_word_is_lowered(w, "pwd"@);
    reveal_strlit("cd");
    lemma_word_is_lowered(w, "cd"@);
    reveal_strlit("cat");
    lemma_word_is_lowered(w, "cat"@);
    reveal_strlit("whoami");
    lemma_word_is_lowered(w, "whoami"@);
    reveal_strlit("sysinfo");
    lemma_word_is_lowered(w, "sysinfo"@);
    reveal_strlit("processes");
    lemma_word_is_lowered(w, "processes"@);
    reveal_strlit("kill");
    lemma_word_is_lowered(w, "kill"@);
    reveal_strlit("disk");
    lemma_word_is_lowered(w, "disk"@);
    reveal_strlit("lock");
    lemma_word_is_lowered(w, "lock"@);
    reveal_strlit("shutdown");
    lemma_word_is_lowered(w, "shutdown"@);
    reveal_strlit("restart");
    lemma_word_is_lowered(w, "restart"@);
    reveal_strlit("notify");
    lemma_word_is_lowered(w, "notify"@);
    reveal_strlit("alert");
    lemma_word_is_lowered(w, "alert"@);
    reveal_strlit("locate");
    lemma_word_is_lowered(w, "locate"@);
    reveal_strlit("netinfo");
    lemma_word_is_lowered(w, "netinfo"@);
    reveal_strlit("users");
    lemma_word_is_lowered(w, "users"@);
    reveal_strlit("screenshot");
    lemma_word_is_lowered(w, "screenshot"@);
    reveal_strlit("clipboard");
    lemma_word_is_lowered(w, "clipboard"@);
    reveal_strlit("battery");
    lemma_word_is_lowered(w, "battery"@);
    reveal_strlit("upload");
    lemma_word_is_lowered(w, "upload"@);
    reveal_strlit("download");
    lemma_word_is_lowered(w, "download"@);
    reveal_strlit("ping");
    lemma_word_is_lowered(w, "ping"@);
    reveal_strlit("sh");
    lemma_word_is_lowered(w, "sh"@);
    assert("ls"@[0] != "cd"@[0]);
    assert("ls"@[0] != "sh"@[0]);
    assert("pwd"@[0] != "cat"@[0]);
    assert("cd"@[0] != "sh"@[0]);
    assert("whoami"@[0] != "notify"@[0]);
    assert("whoami"@[0] != "locate"@[0]);
    assert("whoami"@[0] != "upload"@[0]);
    assert("sysinfo"@[0] != "restart"@[0]);
    assert("sysinfo"@[0] != "netinfo"@[0]);
    assert("sysinfo"@[0] != "battery"@[0]);
    assert("processes"@[0] != "clipboard"@[0]);
    assert("kill"@[0] != "disk"@[0]);
    assert("kill"@[0] != "lock"@[0]);
    assert("kill"@[0] != "ping"@[0]);
    assert("disk"@[0] != "lock"@[0]);
    assert("disk"@[0] != "ping"@[0]);
    assert("lock"@[0] != "ping"@[0]);
    assert("shutdown"@[0] != "download"@[0]);
    assert("restart"@[0] != "netinfo"@[0]);
    assert("restart"@[0] != "battery"@[0]);
    assert("notify"@[0] != "locate"@[0]);
    assert("notify"@[0] != "upload"@[0]);
    assert("alert"@[0] != "users"@[0]);
    assert("locate"@[0] != "upload"@[0]);
    assert("netinfo"@[0] != "battery"@[0]);
}

/// `exit` and `quit` end the terminal: processing either (with any spaces
/// around it) asks to quit, leaves the output and the alter target as they
/// were, and leaves nothing more to do.
pub proof fn law_exit_and_quit_end_the_terminal(o: AppState, f: AppState, raw: Seq<char>, eff: ReplEffect)
    requires
        processed(o, f, raw, eff),
        spec_trim(raw) == "exit"@ || spec_trim(raw) == "quit"@,
    ensures
        f.should_quit,
        eff is Done,
        f.output_lines == o.output_lines,
        f.alter_target == o.alter_target,
        f.clients == o.clients,
{
    reveal_strlit("exit");
    reveal_strlit("quit");
    assert(spec_trim(raw).len() == 4);
}

/// Uptime in days, hours and minutes: for seconds made of `d` days, `h`
/// hours, `m` minutes and `sec` seconds (each below the next unit), the text
/// is `{d}d {h}h {m}m`.
pub proof fn law_uptime_reads_days_hours_minutes(secs: nat, d: nat, h: nat, m: nat, sec: nat)
    requires
        secs == d * 86400 + h * 3600 + m * 60 + sec,
        h < 24,
        m < 60,
        sec < 60,
    ensures
        uptime_text(secs) == decimal(d) + "d "@ + decimal(h) + "h "@ + decimal(m) + "m"@,
{
    let x = secs as int;
    let ms = m * 60 + sec;
    assert(ms < 3600) by (nonlinear_arith)
        requires
            m < 60,
            sec < 60,
            ms == m * 60 + sec,
    ;
    let r = h * 3600 + ms;
    assert(r < 86400) by (nonlinear_arith)
        requires
            h < 24,
            ms < 3600,
            r == h * 3600 + ms,
    ;
    vstd::arithmetic::div_mod::lemma_fundamental_div_mod_converse(x, 86400, d as int, r as int);
    vstd::arithmetic::div_mod::lemma_fundamental_div_mod_converse(r as int, 3600, h as int, ms as int);
    assert(x == (d * 24 + h) * 3600 + ms) by (nonlinear_arith)
        requires
            x == d * 86400 + h * 3600 + m * 60 + sec,
            ms == m * 60 + sec,
    ;
    vstd::arithmetic::div_mod::lemma_fundamental_div_mod_converse(x, 3600, (d * 24 + h) as int, ms as int);
    vstd::arithmetic::div_mod::lemma_fundamental_div_mod_converse(ms as int, 60, m as int, sec as int);
}

/// The system summary (what `handle_sysinfo` replies) ends with the uptime
/// line: two spaces, then the days, hours and minutes the machine has been
/// up.
#[verifier::spinoff_prover]
#[verifier::rlimit(100)]
pub proof fn law_sysinfo_ends_with_uptime(s: SystemSnapshot, d: nat, h: nat, m: nat, sec: nat)
    requires
        s.uptime_secs == d * 86400 + h * 3600 + m * 60 + sec,
        h < 24,
        m < 60,
        sec < 60,
    ensures
        ({
            let text = sysinfo_head(s) + sysinfo_body(s);
            let line = "  "@ + decimal(d) + "d "@ + decimal(h) + "h "@ + decimal(m) + "m\n"@;
            &&& line.len() <= text.len()
            &&& text.subrange(text.len() - line.len(), text.len() as int) == line
        }),
{
    law_uptime_reads_days_hours_minutes(s.uptime_secs as nat, d, h, m, sec);
    let text = sysinfo_head(s) + sysinfo_body(s);
    let line = "  "@ + decimal(d) + "d "@ + decimal(h) + "h "@ + decimal(m) + "m\n"@;
    let front = sysinfo_head(s) + crate::sysreport::sysinfo_cpu(s) + crate::sysreport::sysinfo_ram(s)
        + "  ── GPU ─────────────────────────────────\n"@ + "  "@ + s.gpu_info@ + "\n\n"@
        + "  ── Uptime ──────────────────────────────\n"@;
    reveal_strlit("m");
    reveal_strlit("\n");
    reveal_strlit("m\n");
    assert("m\n"@ =~= "m"@ + "\n"@);
    assert(text =~= front + line);
    assert(text.subrange(text.len() - line.len(), text.len() as int) =~= line);
}

/// While the help is shown, `q` or Esc closes it (whatever modifiers are
/// held), the line being edited stays as it was, and nothing is submitted;
/// no other key closes it.
pub proof fn law_q_and_esc_close_the_help(o: AppState, f: AppState, key: KeyPress, r: Option<String>)
    requires
        key_handled(o, f, key, r),
        o.show_help,
    ensures
        (key.code == KeyCode::Char('q') || key.code == KeyCode::Esc) <==> !f.show_help,
        r is None,
        same_edit(o, f),
{
}

/// The admin's built-in commands: an empty line changes nothing; any other
/// line is added to the history; `clean` and `clear` empty the output and
/// scroll to the top; `rolecall` asks for the table of clients; the help
/// commands open the help at its top; `!!` runs the previous line again when
/// there is one.
pub proof fn law_builtin_commands(o: AppState, f: AppState, raw: Seq<char>, eff: ReplEffect)
    requires
        processed(o, f, raw, eff),
    ensures
        ({
            let t = spec_trim(raw);
            &&& t.len() == 0 ==> eff is Done && f.command_history@ == o.command_history@
                && f.output_lines == o.output_lines && f.should_quit == o.should_quit
            &&& t.len() > 0 ==> f.command_history@.len() == o.command_history@.len() + 1
                && f.command_history@.last()@ == t
                && f.command_history@.take(o.command_history@.len() as int) == o.command_history@
            &&& (t == "clean"@ || t == "clear"@) ==> eff is Done && f.output_lines@.len() == 0
                && f.scroll_offset == 0 && f.alter_target == o.alter_target
            &&& t == "rolecall"@ ==> eff is Rolecall && f.output_lines == o.output_lines
            &&& (t == "fluffy --help"@ || t == "help"@ || t == "--help"@) ==> eff is Done
                && f.show_help && f.help_scroll == 0 && f.output_lines == o.output_lines
            &&& (t == "!!"@ && o.command_history@.len() > 0) ==> (eff matches ReplEffect::Rerun(c)
                && c@ == o.command_history@.last()@)
        }),
{
    reveal_strlit("exit");
    reveal_strlit("quit");
    reveal_strlit("!!");
    reveal_strlit("clean");
    reveal_strlit("clear");
    reveal_strlit("history");
    reveal_strlit("rolecall");
    reveal_strlit("fluffy --help");
    reveal_strlit("help");
    reveal_strlit("--help");
    let t = spec_trim(raw);
    if t.len() > 0 {
        let h = o.command_history@.push(f.command_history@.last());
        assert(f.command_history@ == h);
        assert(h.take(o.command_history@.len() as int) =~= o.command_history@);
        if t == "!!"@ && o.command_history@.len() > 0 {
            assert(h[h.len() - 2] == o.command_history@.last());
        }
    }
    assert("clean"@[1] != "clear"@[1] || "clean"@[4] != "clear"@[4]);
}

/// Editing keys (help closed): Enter hands on a non-empty line and clears
/// it; Esc clears the line; Home and End put the cursor at the line's
/// start and end; typed characters are never submitted.
pub proof fn law_editing_keys(o: AppState, f: AppState, key: KeyPress, r: Option<String>)
    requires
        key_handled(o, f, key, r),
        !o.show_help,
    ensures
        key.code == KeyCode::Enter && o.input_buffer@.len() > 0 ==> (r matches Some(l) && l@
            == o.input_buffer@) && f.input_buffer@.len() == 0 && f.cursor_pos == 0,
        key.code == KeyCode::Enter && o.input_buffer@.len() == 0 ==> r is None && f.input_buffer
            == o.input_buffer,
        key.code != KeyCode::Enter ==> r is None,
        key.code == KeyCode::Esc ==> f.input_buffer@.len() == 0 && f.cursor_pos == 0,
        key.code == KeyCode::Home ==> f.cursor_pos == 0 && f.input_buffer == o.input_buffer,
        key.code == KeyCode::End ==> f.cursor_pos == crate::keys::bytes(o.input_buffer@).len() as usize
            && f.input_buffer == o.input_buffer,
        f.command_history == o.command_history,
        f.clients == o.clients,
{
}

/// A disk's used space and its free space make up its total; a disk that
/// reports more free space than its total shows nothing used.
pub proof fn law_disk_used_and_free_make_total(d: crate::sysreport::DiskInfo)
    ensures
        d.available <= d.total ==> crate::sysreport::disk_used(d) + d.available == d.total,
        d.available > d.total ==> crate::sysreport::disk_used(d) == 0,
{
}

} // verus!
