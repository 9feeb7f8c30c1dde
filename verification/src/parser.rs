//! Parsing of a typed command line into a [`Command`].
use vstd::prelude::*;
use crate::commands::{Command, CommandView, option_command_view};
use crate::text::{
    chars_of, is_ws_char, non_ws_pred, prefix_len, spec_trim, spec_trim_char, string_of_range,
    trim_char_range, trim_range, lemma_prefix_len,
};

verus! {

/// `c` lowercases (in the Unicode sense of `str::to_lowercase`) to the
/// lowercase ASCII letter `k`: `c` is `k` itself, its ASCII capital, or,
/// for `k == 'k'`, the KELVIN SIGN U+212A.
pub open spec fn char_lowers_to(c: char, k: char) -> bool {
    ||| c == k
    ||| ('A' <= c && c <= 'Z' && c as int + 32 == k as int)
    ||| (c == '\u{212a}' && k == 'k')
}

/// `w.to_lowercase() == kw` for a keyword `kw` made of lowercase ASCII letters.
pub open spec fn word_lowers_to(w: Seq<char>, kw: Seq<char>) -> bool {
    &&& w.len() == kw.len()
    &&& forall|i: int| 0 <= i < w.len() ==> #[trigger] char_lowers_to(w[i], kw[i])
}

pub open spec fn is_digit(c: char) -> bool {
    '0' <= c && c <= '9'
}

pub open spec fn all_digits(s: Seq<char>) -> bool {
    forall|i: int| 0 <= i < s.len() ==> #[trigger] is_digit(s[i])
}

/// The number written by the decimal digits `s`.
pub open spec fn digits_value(s: Seq<char>) -> nat
    decreases s.len(),
{
    if s.len() == 0 {
        0
    } else {
        digits_value(s.drop_last()) * 10 + (s.last() as int - '0' as int) as nat
    }
}

/// `str::parse` into an unsigned type whose largest value is `max`: an
/// optional `+`, then at least one decimal digit, and a value at most `max`.
pub open spec fn spec_parse_uint(s: Seq<char>, max: nat) -> Option<nat> {
    let d = if s.len() > 0 && s[0] == '+' {
        s.drop_first()
    } else {
        s
    };
    if d.len() > 0 && all_digits(d) && digits_value(d) <= max {
        Some(digits_value(d))
    } else {
        None
    }
}

/// `str::parse::<u32>`.
pub open spec fn spec_parse_u32(s: Seq<char>) -> Option<u32> {
    match spec_parse_uint(s, u32::MAX as nat) {
        Some(n) => Some(n as u32),
        None => None,
    }
}

/// `str::parse::<u8>`.
pub open spec fn spec_parse_u8(s: Seq<char>) -> Option<u8> {
    match spec_parse_uint(s, u8::MAX as nat) {
        Some(n) => Some(n as u8),
        None => None,
    }
}

/// Length of the first word of `t` (up to its first whitespace character).
pub open spec fn first_word_len(t: Seq<char>) -> nat {
    prefix_len(t, non_ws_pred())
}

/// The first word of `t`, as `splitn(2, char::is_whitespace)` yields it.
pub open spec fn first_word(t: Seq<char>) -> Seq<char> {
    t.take(first_word_len(t) as int)
}

/// What follows the first whitespace character of `t`, trimmed; empty
/// when `t` holds no whitespace.
pub open spec fn spec_args(t: Seq<char>) -> Seq<char> {
    let k = first_word_len(t);
    if k < t.len() {
        spec_trim(t.skip(k + 1 as int))
    } else {
        Seq::empty()
    }
}

/// An argument that must be present.
pub open spec fn required_arg(a: Seq<char>) -> Option<Seq<char>> {
    if a.len() == 0 {
        None
    } else {
        Some(a)
    }
}

/// The notification text: quotes `"` and then `'` stripped from both ends.
pub open spec fn notify_message(a: Seq<char>) -> Seq<char> {
    spec_trim_char(spec_trim_char(a, '"'), '\'')
}

/// The command named by the (case-insensitive) word `w` with arguments `a`.
pub open spec fn spec_dispatch(w: Seq<char>, a: Seq<char>) -> Option<CommandView> {
    if word_lowers_to(w, "ls"@) {
        Some(CommandView::Ls { path: required_arg(a) })
    } else if word_lowers_to(w, "pwd"@) {
        Some(CommandView::Pwd)
    } else if word_lowers_to(w, "cd"@) {
        if a.len() == 0 { None } else { Some(CommandView::Cd { path: a }) }
    } else if word_lowers_to(w, "cat"@) {
        if a.len() == 0 { None } else { Some(CommandView::Cat { path: a }) }
    } else if word_lowers_to(w, "whoami"@) {
        Some(CommandView::Whoami)
    } else if word_lowers_to(w, "sysinfo"@) {
        Some(CommandView::Sysinfo)
    } else if word_lowers_to(w, "processes"@) {
        Some(CommandView::Processes)
    } else if word_lowers_to(w, "kill"@) {
        if a.len() == 0 {
            None
        } else {
            match spec_parse_u32(a) {
                Some(pid) => Some(CommandView::Kill { pid }),
                None => None,
            }
        }
    } else if word_lowers_to(w, "disk"@) {
        Some(CommandView::DiskInfo)
    } else if word_lowers_to(w, "lock"@) {
        Some(CommandView::Lock)
    } else if word_lowers_to(w, "shutdown"@) {
        Some(CommandView::Shutdown)
    } else if word_lowers_to(w, "restart"@) {
        Some(CommandView::Restart)
    } else if word_lowers_to(w, "notify"@) {
        if a.len() == 0 { None } else { Some(CommandView::Notify { message: notify_message(a) }) }
    } else {
        spec_dispatch_rest(w, a)
    }
}

pub open spec fn spec_dispatch_rest(w: Seq<char>, a: Seq<char>) -> Option<CommandView> {
    if word_lowers_to(w, "alert"@) {
        Some(CommandView::Alert)
    } else if word_lowers_to(w, "locate"@) {
        Some(CommandView::Locate)
    } else if word_lowers_to(w, "netinfo"@) {
        Some(CommandView::NetInfo)
    } else if word_lowers_to(w, "users"@) {
        Some(CommandView::Users)
    } else if word_lowers_to(w, "screenshot"@) {
        Some(CommandView::Screenshot)
    } else if word_lowers_to(w, "clipboard"@) {
        Some(CommandView::Clipboard)
    } else if word_lowers_to(w, "battery"@) {
        Some(CommandView::Battery)
    } else if word_lowers_to(w, "upload"@) {
        if a.len() == 0 { None } else { Some(CommandView::Upload { filename: a, data: Seq::empty() }) }
    } else if word_lowers_to(w, "download"@) {
        if a.len() == 0 { None } else { Some(CommandView::Download { path: a }) }
    } else if word_lowers_to(w, "ping"@) {
        Some(CommandView::Ping)
    } else if word_lowers_to(w, "sh"@) {
        if a.len() == 0 { None } else { Some(CommandView::Shell { command: a }) }
    } else {
        None
    }
}

/// The command that the line `input` denotes, if any: the line is trimmed,
/// its first word selects the command case-insensitively, and the rest of
/// the line, trimmed, is the argument.
pub open spec fn spec_parse_command(input: Seq<char>) -> Option<CommandView> {
    let t = spec_trim(input);
    if t.len() == 0 {
        None
    } else {
        spec_dispatch(first_word(t), spec_args(t))
    }
}

pub fn char_lowers_to_exec(c: char, k: char) -> (r: bool)
    ensures
        r == char_lowers_to(c, k),
{
    c == k || ('A' <= c && c <= 'Z' && (c as u32) + 32 == k as u32) || (c == '\u{212a}' && k
        == 'k')
}

/// Whether `v[lo..hi]` lowercases to the keyword `kw`.
pub fn word_is(v: &Vec<char>, lo: usize, hi: usize, kw: &str) -> (r: bool)
    requires
        lo <= hi <= v.len(),
    ensures
        r == word_lowers_to(v@.subrange(lo as int, hi as int), kw@),
{
    let n = kw.unicode_len();
    if hi - lo != n {
        return false;
    }
    let ghost w = v@.subrange(lo as int, hi as int);
    let mut i: usize = 0;
    while i < n
        invariant
            n == kw@.len(),
            hi - lo == n,
            lo <= hi <= v.len(),
            w == v@.subrange(lo as int, hi as int),
            i <= n,
            forall|j: int| 0 <= j < i ==> #[trigger] char_lowers_to(w[j], kw@[j]),
        decreases n - i,
    {
        let k = kw.get_char(i);
        if !char_lowers_to_exec(v[lo + i], k) {
            assert(w[i as int] == v@[lo + i]);
            return false;
        }
        assert(w[i as int] == v@[lo + i]);
        i = i + 1;
    }
    true
}

proof fn lemma_digits_value_prefix(s: Seq<char>, j: int)
    requires
        0 <= j <= s.len(),
    ensures
        digits_value(s) >= digits_value(s.take(j)),
    decreases s.len() - j,
{
    if j < s.len() {
        lemma_digits_value_prefix(s.drop_last(), j);
        assert(s.drop_last().take(j) =~= s.take(j));
    } else {
        assert(s.take(j) =~= s);
    }
}

/// `v[lo..hi].parse()` into an unsigned type whose largest value is `max`.
pub fn parse_uint_range(v: &Vec<char>, lo: usize, hi: usize, max: u32) -> (r: Option<u32>)
    requires
        lo <= hi <= v.len(),
    ensures
        match spec_parse_uint(v@.subrange(lo as int, hi as int), max as nat) {
            Some(n) => r == Some(n as u32),
            None => r is None,
        },
{
    let ghost s = v@.subrange(lo as int, hi as int);
    let mut start = lo;
    if start < hi && v[start] == '+' {
        start = start + 1;
    }
    let ghost d = v@.subrange(start as int, hi as int);
    proof {
        if s.len() > 0 && s[0] == '+' {
            assert(d =~= s.drop_first());
        } else {
            assert(d =~= s);
        }
    }
    assert(spec_parse_uint(s, max as nat) == (if d.len() > 0 && all_digits(d) && digits_value(d)
        <= max {
        Some(digits_value(d))
    } else {
        None::<nat>
    }));
    if start == hi {
        return None;
    }
    let mut val: u64 = 0;
    let mut i = start;
    while i < hi
        invariant
            lo <= start < hi <= v.len(),
            start <= i <= hi,
            d == v@.subrange(start as int, hi as int),
            s == v@.subrange(lo as int, hi as int),
            spec_parse_uint(s, max as nat) == (if d.len() > 0 && all_digits(d) && digits_value(d)
                <= max {
                Some(digits_value(d))
            } else {
                None::<nat>
            }),
            val == digits_value(d.take(i - start)),
            val <= max,
            forall|j: int| 0 <= j < i - start ==> #[trigger] is_digit(d[j]),
        decreases hi - i,
    {
        let c = v[i];
        assert(c == d[i - start]);
        if !('0' <= c && c <= '9') {
            assert(!is_digit(d[i - start]));
            return None;
        }
        let ghost pre = d.take(i - start);
        let ghost nxt = d.take(i - start + 1);
        assert(nxt.drop_last() =~= pre);
        val = val * 10 + ((c as u32) - ('0' as u32)) as u64;
        i = i + 1;
        if val > max as u64 {
            proof {
                if all_digits(d) {
                    lemma_digits_value_prefix(d, i - start);
                }
            }
            return None;
        }
    }
    assert(d.take(i - start) =~= d);
    Some(val as u32)
}

/// `v[lo..hi].parse::<u32>()`.
pub fn parse_u32_range(v: &Vec<char>, lo: usize, hi: usize) -> (r: Option<u32>)
    requires
        lo <= hi <= v.len(),
    ensures
        r == spec_parse_u32(v@.subrange(lo as int, hi as int)),
{
    parse_uint_range(v, lo, hi, 0xffff_ffffu32)
}

/// `v[lo..hi].parse::<u8>()`.
pub fn parse_u8_range(v: &Vec<char>, lo: usize, hi: usize) -> (r: Option<u8>)
    requires
        lo <= hi <= v.len(),
    ensures
        r == spec_parse_u8(v@.subrange(lo as int, hi as int)),
{
    match parse_uint_range(v, lo, hi, 255) {
        Some(n) => Some(n as u8),
        None => None,
    }
}

/// Parse a raw input string into a Command enum.
/// Returns None if the input doesn't match any known command.
pub fn parse_command(input: &str) -> (res: Option<Command>)
    ensures
        option_command_view(res) == spec_parse_command(input@),
{
    let v = chars_of(input);
    let (a, b) = trim_range(&v, 0, v.len());
    let ghost t = v@.subrange(a as int, b as int);
    assert(v@.subrange(0, v.len() as int) =~= input@);
    if a == b {
        return None;
    }
    // The first word ends at the first whitespace character.
    let mut k = a;
    while k < b && !is_ws_char(v[k])
        invariant
            a <= k <= b <= v.len(),
            forall|j: int| a <= j < k ==> !#[trigger] crate::text::is_ws(v@[j]),
        decreases b - k,
    {
        k = k + 1;
    }
    proof {
        assert forall|j: int| 0 <= j < k - a implies #[trigger] non_ws_pred()(t[j]) by {
            assert(t[j] == v@[a + j]);
        }
        if k < b {
            assert(t[k - a] == v@[k as int]);
        }
        lemma_prefix_len(t, non_ws_pred(), k - a);
        assert(first_word(t) =~= v@.subrange(a as int, k as int));
    }
    let (p, q) = if k < b {
        let r = trim_range(&v, k + 1, b);
        assert(t.skip(k - a + 1) =~= v@.subrange(k + 1, b as int));
        r
    } else {
        proof {
            assert(spec_trim(Seq::<char>::empty()) =~= Seq::<char>::empty()) by {
                lemma_prefix_len(Seq::<char>::empty(), crate::text::ws_pred(), 0);
                crate::text::lemma_suffix_len(Seq::<char>::empty(), crate::text::ws_pred(), 0);
            }
        }
        (b, b)
    };
    assert(spec_args(t) =~= v@.subrange(p as int, q as int));
    dispatch(&v, a, k, p, q)
}

fn dispatch(v: &Vec<char>, a: usize, k: usize, p: usize, q: usize) -> (res: Option<Command>)
    requires
        a <= k <= v.len(),
        p <= q <= v.len(),
    ensures
        option_command_view(res) == spec_dispatch(
            v@.subrange(a as int, k as int),
            v@.subrange(p as int, q as int),
        ),
{
    let ghost w = v@.subrange(a as int, k as int);
    let ghost arg = v@.subrange(p as int, q as int);
    let empty = p == q;
    if word_is(v, a, k, "ls") {
        let path = if empty {
            None
        } else {
            Some(string_of_range(v, p, q))
        };
        Some(Command::Ls { path })
    } else if word_is(v, a, k, "pwd") {
        Some(Command::Pwd)
    } else if word_is(v, a, k, "cd") {
        if empty {
            None
        } else {
            Some(Command::Cd { path: string_of_range(v, p, q) })
        }
    } else if word_is(v, a, k, "cat") {
        if empty {
            None
        } else {
            Some(Command::Cat { path: string_of_range(v, p, q) })
        }
    } else if word_is(v, a, k, "whoami") {
        Some(Command::Whoami)
    } else if word_is(v, a, k, "sysinfo") {
        Some(Command::Sysinfo)
    } else if word_is(v, a, k, "processes") {
        Some(Command::Processes)
    } else if word_is(v, a, k, "kill") {
        if empty {
            None
        } else {
            match parse_u32_range(v, p, q) {
                Some(pid) => Some(Command::Kill { pid }),
                None => None,
            }
        }
    } else if word_is(v, a, k, "disk") {
        // Accept "disk --info" or just "disk"
        Some(Command::DiskInfo)
    } else if word_is(v, a, k, "lock") {
        Some(Command::Lock)
    } else if word_is(v, a, k, "shutdown") {
        Some(Command::Shutdown)
    } else if word_is(v, a, k, "restart") {
        Some(Command::Restart)
    } else if word_is(v, a, k, "notify") {
        if empty {
            None
        } else {
            // Strip surrounding quotes if present
            let (p1, q1) = trim_char_range(v, p, q, '"');
            let (p2, q2) = trim_char_range(v, p1, q1, '\'');
            Some(Command::Notify { message: string_of_range(v, p2, q2) })
        }
    } else {
        dispatch_rest(v, a, k, p, q)
    }
}

fn dispatch_rest(v: &Vec<char>, a: usize, k: usize, p: usize, q: usize) -> (res: Option<Command>)
    requires
        a <= k <= v.len(),
        p <= q <= v.len(),
    ensures
        option_command_view(res) == spec_dispatch_rest(
            v@.subrange(a as int, k as int),
            v@.subrange(p as int, q as int),
        ),
{
    let empty = p == q;
    if word_is(v, a, k, "alert") {
        Some(Command::Alert)
    } else if word_is(v, a, k, "locate") {
        Some(Command::Locate)
    } else if word_is(v, a, k, "netinfo") {
        Some(Command::NetInfo)
    } else if word_is(v, a, k, "users") {
        Some(Command::Users)
    } else if word_is(v, a, k, "screenshot") {
        Some(Command::Screenshot)
    } else if word_is(v, a, k, "clipboard") {
        Some(Command::Clipboard)
    } else if word_is(v, a, k, "battery") {
        Some(Command::Battery)
    } else if word_is(v, a, k, "upload") {
        if empty {
            None
        } else {
            // Data is filled in by the admin before sending
            let data: Vec<u8> = Vec::new();
            Some(Command::Upload { filename: string_of_range(v, p, q), data })
        }
    } else if word_is(v, a, k, "download") {
        if empty {
            None
        } else {
            Some(Command::Download { path: string_of_range(v, p, q) })
        }
    } else if word_is(v, a, k, "ping") {
        Some(Command::Ping)
    } else if word_is(v, a, k, "sh") {
        if empty {
            None
        } else {
            Some(Command::Shell { command: string_of_range(v, p, q) })
        }
    } else {
        None
    }
}

} // verus!
