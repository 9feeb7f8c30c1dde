//! What the agent reads on Windows and macOS, from the text the system
//! tools print: PowerShell's listings, `pmset` and `system_profiler`.
//! Running the tools is the caller's; these functions read their output.
use vstd::prelude::*;
use crate::accounts::{contains_range, contains_text, last_login_of, logged_by};
use crate::handlers::{reply_view, run_reply, run_reply_exec, trimmed, ProcessOutcome};
use crate::network::words;
use crate::parser::{parse_u8_range, spec_parse_u8, word_lowers_to};
use crate::platform::{join_lines, no_battery, BatteryInfo, OsDetails, UserInfo};
use crate::repl::{range_is, range_starts_with, starts_with};
use crate::text::{
    chars_of, is_ws, is_ws_char, lemma_prefix_len, non_ws_pred, ws_pred, lines_of, prefix_len, spec_lines, spec_trim,
    string_of_range, trim_range,
};

verus! {

/// A colon or a whitespace character.
pub open spec fn colon_or_ws() -> spec_fn(char) -> bool {
    |c: char| c == ':' || is_ws(c)
}

/// The value after `key` on a `Key : value` line: what follows the key with
/// the colons and whitespace in front of it removed.
pub open spec fn after_key(line: Seq<char>, key: Seq<char>) -> Seq<char> {
    let r = line.skip(key.len() as int);
    r.skip(prefix_len(r, colon_or_ws()) as int)
}

/// The battery status of a `BatteryStatus` code.
pub open spec fn windows_status(code: Seq<char>) -> Seq<char> {
    if code == "1"@ {
        "Discharging"@
    } else if code == "2"@ {
        "Charging"@
    } else if code == "3"@ {
        "Full"@
    } else {
        "Status code: "@ + code
    }
}

/// The charge, status and time left that the lines of the listing give:
/// each known line sets its field, a later line winning. The run time
/// 71582788 stands for "unknown" and is skipped.
pub open spec fn windows_battery_fields(lines: Seq<Seq<char>>) -> (Option<u8>, Seq<char>, Option<Seq<char>>)
    decreases lines.len(),
{
    if lines.len() == 0 {
        (None, "Unknown"@, None)
    } else {
        let f = windows_battery_fields(lines.drop_last());
        let l = spec_trim(lines.last());
        if starts_with(l, "EstimatedChargeRemaining"@) {
            (spec_parse_u8(after_key(l, "EstimatedChargeRemaining"@)), f.1, f.2)
        } else if starts_with(l, "BatteryStatus"@) {
            (f.0, windows_status(spec_trim(after_key(l, "BatteryStatus"@))), f.2)
        } else if starts_with(l, "EstimatedRunTime"@) {
            let v = spec_trim(after_key(l, "EstimatedRunTime"@));
            if v != "71582788"@ {
                (f.0, f.1, Some(v + " minutes"@))
            } else {
                f
            }
        } else {
            f
        }
    }
}

pub open spec fn opt_view(o: Option<String>) -> Option<Seq<char>> {
    match o {
        Some(s) => Some(s@),
        None => None,
    }
}

/// The battery that the `Win32_Battery` listing `out` describes (`None` when
/// PowerShell could not be run): no battery when the listing is empty or says
/// `NoBattery`, else the fields its lines give.
pub open spec fn windows_battery(out: Option<Seq<char>>, b: BatteryInfo) -> bool {
    match out {
        None => no_battery(b),
        Some(o) => {
            let t = spec_trim(o);
            if t.len() == 0 || contains_text(t, "NoBattery"@) {
                no_battery(b)
            } else {
                let f = windows_battery_fields(spec_lines(t));
                &&& b.percentage == f.0
                &&& b.status@ == f.1
                &&& opt_view(b.time_remaining) == f.2
            }
        },
    }
}

/// The end of the run of colons and whitespace that starts at `lo` in
/// `v[..hi]`.
fn skip_colon_ws(v: &Vec<char>, lo: usize, hi: usize) -> (r: usize)
    requires
        lo <= hi <= v.len(),
    ensures
        lo <= r <= hi,
        r == lo + prefix_len(v@.subrange(lo as int, hi as int), colon_or_ws()),
{
    let ghost s = v@.subrange(lo as int, hi as int);
    let mut j = lo;
    while j < hi && (v[j] == ':' || is_ws_char(v[j]))
        invariant
            lo <= j <= hi <= v.len(),
            s == v@.subrange(lo as int, hi as int),
            forall|k: int| 0 <= k < j - lo ==> #[trigger] colon_or_ws()(s[k]),
        decreases hi - j,
    {
        assert(s[j - lo] == v@[j as int]);
        j = j + 1;
    }
    proof {
        if j < hi {
            assert(s[j - lo] == v@[j as int]);
        }
        lemma_prefix_len(s, colon_or_ws(), (j - lo) as int);
    }
    j
}

/// Where the value after `key` starts on the line `v[p..q]`, which starts
/// with `key`.
fn value_start(v: &Vec<char>, p: usize, q: usize, key: &str) -> (r: usize)
    requires
        p <= q <= v.len(),
        starts_with(v@.subrange(p as int, q as int), key@),
    ensures
        p <= r <= q,
        v@.subrange(r as int, q as int) == after_key(v@.subrange(p as int, q as int), key@),
{
    let k = p + key.unicode_len();
    let r = skip_colon_ws(v, k, q);
    proof {
        let l = v@.subrange(p as int, q as int);
        assert(l.skip(key@.len() as int) =~= v@.subrange(k as int, q as int));
        assert(v@.subrange(k as int, q as int).skip(r - k) =~= v@.subrange(r as int, q as int));
    }
    r
}

/// The battery status of the code `v[a..b]`.
fn windows_status_of(v: &Vec<char>, a: usize, b: usize) -> (s: String)
    requires
        a <= b <= v.len(),
    ensures
        s@ == windows_status(v@.subrange(a as int, b as int)),
{
    if range_is(v, a, b, "1") {
        String::from_str("Discharging")
    } else if range_is(v, a, b, "2") {
        String::from_str("Charging")
    } else if range_is(v, a, b, "3") {
        String::from_str("Full")
    } else {
        let mut s = String::from_str("Status code: ");
        let code = string_of_range(v, a, b);
        s.append(code.as_str());
        s
    }
}

/// Get battery info on Windows from what PowerShell printed for
/// `Get-CimInstance Win32_Battery` (`None` when it could not be run).
pub fn get_battery_windows(output: Option<&str>) -> (b: BatteryInfo)
    ensures
        windows_battery(
            match output {
                Some(o) => Some(o@),
                None => None,
            },
            b,
        ),
{
    let none = BatteryInfo {
        percentage: None,
        status: String::from_str("No battery detected."),
        time_remaining: None,
    };
    let o = match output {
        None => return none,
        Some(o) => o,
    };
    let v = chars_of(o);
    let (a, e) = trim_range(&v, 0, v.len());
    assert(v@.subrange(0, v.len() as int) =~= o@);
    if a == e || contains_range(&v, a, e, "NoBattery") {
        return none;
    }
    let t = string_of_range(&v, a, e);
    let tv = chars_of(t.as_str());
    assert(tv@.skip(0) =~= tv@);
    let lines = lines_of(&tv, 0);
    let ghost ls = spec_lines(tv@);
    let mut percentage: Option<u8> = None;
    let mut status = String::from_str("Unknown");
    let mut time_remaining: Option<String> = None;
    let mut i: usize = 0;
    assert(ls.take(0) =~= Seq::<Seq<char>>::empty());
    while i < lines.len()
        invariant
            i <= lines@.len(),
            lines@.len() == ls.len(),
            forall|j: int| 0 <= j < lines@.len() ==> #[trigger] lines@[j]@ == ls[j],
            windows_battery_fields(ls.take(i as int)) == (percentage, status@, opt_view(time_remaining)),
        decreases lines.len() - i,
    {
        let lv = chars_of(lines[i].as_str());
        let (p, q) = trim_range(&lv, 0, lv.len());
        proof {
            assert(lv@.subrange(0, lv.len() as int) =~= ls[i as int]);
            assert(ls.take(i + 1).drop_last() =~= ls.take(i as int));
            assert(ls.take(i + 1).last() == ls[i as int]);
        }
        if range_starts_with(&lv, p, q, "EstimatedChargeRemaining") {
            let r = value_start(&lv, p, q, "EstimatedChargeRemaining");
            percentage = parse_u8_range(&lv, r, q);
        } else if range_starts_with(&lv, p, q, "BatteryStatus") {
            let r = value_start(&lv, p, q, "BatteryStatus");
            let (c, d) = trim_range(&lv, r, q);
            status = windows_status_of(&lv, c, d);
        } else if range_starts_with(&lv, p, q, "EstimatedRunTime") {
            let r = value_start(&lv, p, q, "EstimatedRunTime");
            let (c, d) = trim_range(&lv, r, q);
            if !range_is(&lv, c, d, "71582788") {
                let mut s = string_of_range(&lv, c, d);
                s.append(" minutes");
                time_remaining = Some(s);
            }
        }
        i = i + 1;
    }
    proof {
        assert(ls.take(lines@.len() as int) =~= ls);
        assert(tv@ == spec_trim(o@));
    }
    BatteryInfo { percentage, status, time_remaining }
}

/// A character other than `c`.
pub open spec fn not_char(c: char) -> spec_fn(char) -> bool {
    |x: char| x != c
}

/// The text of `s` up to its first `c` (all of it when there is none).
pub open spec fn before_char(s: Seq<char>, c: char) -> Seq<char> {
    s.take(prefix_len(s, not_char(c)) as int)
}

/// What follows the first `c` of `s`, when there is one.
pub open spec fn after_char(s: Seq<char>, c: char) -> Option<Seq<char>> {
    let k = prefix_len(s, not_char(c));
    if k < s.len() {
        Some(s.skip(k + 1 as int))
    } else {
        None
    }
}

/// `s.trim_end_matches('%')`.
pub open spec fn trim_end_percent(s: Seq<char>) -> Seq<char> {
    s.take(s.len() - crate::text::suffix_len(s, crate::text::char_pred('%')))
}

/// The charge, status and time left that the lines of `pmset -g batt` give.
/// A line with a `%` and a tab holds, in its second tab-separated field, the
/// `;`-separated charge, status and time: the charge is read (or cleared),
/// the status and time are set when present, a time that says "not
/// charging" is skipped; a later line wins.
pub open spec fn macos_battery_fields(lines: Seq<Seq<char>>) -> (Option<u8>, Seq<char>, Option<Seq<char>>)
    decreases lines.len(),
{
    if lines.len() == 0 {
        (None, "Unknown"@, None)
    } else {
        let f = macos_battery_fields(lines.drop_last());
        let l = lines.last();
        if contains_text(l, "%"@) && after_char(l, '\t') is Some {
            let field = before_char(after_char(l, '\t')->0, '\t');
            let pct = spec_parse_u8(trim_end_percent(spec_trim(before_char(field, ';'))));
            match after_char(field, ';') {
                None => (pct, f.1, f.2),
                Some(r1) => {
                    let st = spec_trim(before_char(r1, ';'));
                    match after_char(r1, ';') {
                        None => (pct, st, f.2),
                        Some(r2) => {
                            let t = spec_trim(before_char(r2, ';'));
                            if contains_text(t, "not charging"@) {
                                (pct, st, f.2)
                            } else {
                                (pct, st, Some(t))
                            }
                        },
                    }
                },
            }
        } else {
            f
        }
    }
}

/// The battery that `pmset -g batt` printed (`None` when it could not be
/// run).
pub open spec fn macos_battery(out: Option<Seq<char>>, b: BatteryInfo) -> bool {
    match out {
        None => no_battery(b),
        Some(o) => {
            let f = macos_battery_fields(spec_lines(o));
            &&& b.percentage == f.0
            &&& b.status@ == f.1
            &&& opt_view(b.time_remaining) == f.2
        },
    }
}

/// The end of the run of characters other than `c` that starts at `lo` in
/// `v[..hi]`.
fn run_end(v: &Vec<char>, lo: usize, hi: usize, c: char) -> (r: usize)
    requires
        lo <= hi <= v.len(),
    ensures
        lo <= r <= hi,
        r == lo + prefix_len(v@.subrange(lo as int, hi as int), not_char(c)),
{
    let ghost s = v@.subrange(lo as int, hi as int);
    let mut j = lo;
    while j < hi && v[j] != c
        invariant
            lo <= j <= hi <= v.len(),
            s == v@.subrange(lo as int, hi as int),
            forall|k: int| 0 <= k < j - lo ==> #[trigger] not_char(c)(s[k]),
        decreases hi - j,
    {
        assert(s[j - lo] == v@[j as int]);
        j = j + 1;
    }
    proof {
        if j < hi {
            assert(s[j - lo] == v@[j as int]);
        }
        lemma_prefix_len(s, not_char(c), (j - lo) as int);
    }
    j
}

/// The end of `v[lo..hi]` without its trailing `%` signs.
fn trim_end_percent_range(v: &Vec<char>, lo: usize, hi: usize) -> (r: usize)
    requires
        lo <= hi <= v.len(),
    ensures
        lo <= r <= hi,
        v@.subrange(lo as int, r as int) == trim_end_percent(v@.subrange(lo as int, hi as int)),
{
    let ghost s = v@.subrange(lo as int, hi as int);
    let mut k: usize = hi;
    while k > lo && v[k - 1] == '%'
        invariant
            lo <= k <= hi <= v.len(),
            s == v@.subrange(lo as int, hi as int),
            forall|j: int| k - lo <= j < s.len() ==> #[trigger] crate::text::char_pred('%')(s[j]),
        decreases k,
    {
        assert(s[k - 1 - lo] == v@[k - 1]);
        k = k - 1;
    }
    proof {
        if k > lo {
            assert(s[s.len() - (hi - k) - 1] == v@[k - 1]);
        }
        crate::text::lemma_suffix_len(s, crate::text::char_pred('%'), (hi - k) as int);
        assert(s.take(s.len() - (hi - k)) =~= v@.subrange(lo as int, k as int));
    }
    k
}

/// Get battery info on macOS from what `pmset -g batt` printed (`None` when
/// it could not be run).
#[verifier::spinoff_prover]
#[verifier::rlimit(40)]
pub fn get_battery_macos(output: Option<&str>) -> (b: BatteryInfo)
    ensures
        macos_battery(
            match output {
                Some(o) => Some(o@),
                None => None,
            },
            b,
        ),
{
    let o = match output {
        None => {
            return BatteryInfo {
                percentage: None,
                status: String::from_str("No battery detected."),
                time_remaining: None,
            };
        },
        Some(o) => o,
    };
    let tv = chars_of(o);
    assert(tv@.skip(0) =~= tv@);
    let lines = lines_of(&tv, 0);
    let ghost ls = spec_lines(tv@);
    let mut percentage: Option<u8> = None;
    let mut status = String::from_str("Unknown");
    let mut time_remaining: Option<String> = None;
    let mut i: usize = 0;
    assert(ls.take(0) =~= Seq::<Seq<char>>::empty());
    while i < lines.len()
        invariant
            i <= lines@.len(),
            lines@.len() == ls.len(),
            forall|j: int| 0 <= j < lines@.len() ==> #[trigger] lines@[j]@ == ls[j],
            macos_battery_fields(ls.take(i as int)) == (percentage, status@, opt_view(time_remaining)),
        decreases lines.len() - i,
    {
        let lv = chars_of(lines[i].as_str());
        let n = lv.len();
        let ghost l = lv@;
        proof {
            assert(lv@ == ls[i as int]);
            assert(ls.take(i + 1).drop_last() =~= ls.take(i as int));
            assert(ls.take(i + 1).last() == ls[i as int]);
            assert(l.subrange(0, n as int) =~= l);
        }
        let tab = run_end(&lv, 0, n, '\t');
        if contains_range(&lv, 0, n, "%") && tab < n {
            // The second tab-separated field: v[f0..f1].
            let f0 = tab + 1;
            let f1 = run_end(&lv, f0, n, '\t');
            proof {
                assert(l.skip(tab + 1 as int) =~= lv@.subrange(f0 as int, n as int));
                assert(before_char(after_char(l, '\t')->0, '\t') =~= lv@.subrange(f0 as int, f1 as int));
            }
            let ghost field = lv@.subrange(f0 as int, f1 as int);
            let p0 = run_end(&lv, f0, f1, ';');
            let (a0, b0) = trim_range(&lv, f0, p0);
            let c0 = trim_end_percent_range(&lv, a0, b0);
            proof {
                assert(before_char(field, ';') =~= lv@.subrange(f0 as int, p0 as int));
            }
            percentage = parse_u8_range(&lv, a0, c0);
            if p0 < f1 {
                let s1 = p0 + 1;
                let p1 = run_end(&lv, s1, f1, ';');
                proof {
                    assert(field.skip(p0 - f0 + 1) =~= lv@.subrange(s1 as int, f1 as int));
                    assert(before_char(lv@.subrange(s1 as int, f1 as int), ';') =~= lv@.subrange(s1 as int, p1 as int));
                }
                let (a1, b1) = trim_range(&lv, s1, p1);
                status = string_of_range(&lv, a1, b1);
                if p1 < f1 {
                    let s2 = p1 + 1;
                    let p2 = run_end(&lv, s2, f1, ';');
                    proof {
                        assert(lv@.subrange(s1 as int, f1 as int).skip(p1 - s1 + 1) =~= lv@.subrange(s2 as int, f1 as int));
                        assert(before_char(lv@.subrange(s2 as int, f1 as int), ';') =~= lv@.subrange(s2 as int, p2 as int));
                    }
                    let (a2, b2) = trim_range(&lv, s2, p2);
                    if !contains_range(&lv, a2, b2, "not charging") {
                        time_remaining = Some(string_of_range(&lv, a2, b2));
                    }
                }
            }
        }
        i = i + 1;
    }
    proof {
        assert(ls.take(lines@.len() as int) =~= ls);
    }
    BatteryInfo { percentage, status, time_remaining }
}

/// The trimmed output of a PowerShell query that succeeded, or `fallback`
/// when it failed or printed nothing but whitespace.
pub open spec fn windows_query_text(out: Option<Seq<char>>, fallback: Seq<char>) -> Seq<char> {
    match out {
        Some(o) => if spec_trim(o).len() > 0 {
            spec_trim(o)
        } else {
            fallback
        },
        None => fallback,
    }
}

fn trimmed_or(out: Option<&str>, fallback: &str) -> (r: String)
    ensures
        r@ == windows_query_text(
            match out {
                Some(o) => Some(o@),
                None => None,
            },
            fallback@,
        ),
{
    if let Some(o) = out {
        let v = chars_of(o);
        let (a, e) = trim_range(&v, 0, v.len());
        assert(v@.subrange(0, v.len() as int) =~= o@);
        if a < e {
            return string_of_range(&v, a, e);
        }
    }
    String::from_str(fallback)
}

/// Get GPU info on Windows from what PowerShell printed for
/// `Win32_VideoController` (`None` when it failed).
pub fn get_gpu_info_windows(output: Option<&str>) -> (r: String)
    ensures
        r@ == windows_query_text(
            match output {
                Some(o) => Some(o@),
                None => None,
            },
            "GPU info not available"@,
        ),
{
    trimmed_or(output, "GPU info not available")
}

/// Get the install date on Windows from what PowerShell printed for the
/// operating system's `InstallDate` (`None` when it failed). A query that
/// succeeded is reported as printed, trimmed, even when empty.
pub fn get_install_date_windows(output: Option<&str>) -> (r: String)
    ensures
        r@ == match output {
            Some(o) => spec_trim(o@),
            None => "Unknown"@,
        },
{
    match output {
        Some(o) => {
            let v = chars_of(o);
            let (a, e) = trim_range(&v, 0, v.len());
            assert(v@.subrange(0, v.len() as int) =~= o@);
            string_of_range(&v, a, e)
        },
        None => String::from_str("Unknown"),
    }
}

/// A line of `system_profiler SPDisplaysDataType`, trimmed, that tells of
/// the graphics chip.
pub open spec fn is_macos_gpu_line(t: Seq<char>) -> bool {
    starts_with(t, "Chipset Model:"@) || starts_with(t, "VRAM"@) || starts_with(t, "Metal"@)
}

/// The trimmed lines that tell of the graphics chip.
pub open spec fn macos_gpu_lines(lines: Seq<Seq<char>>) -> Seq<Seq<char>>
    decreases lines.len(),
{
    if lines.len() == 0 {
        Seq::empty()
    } else if is_macos_gpu_line(spec_trim(lines.last())) {
        macos_gpu_lines(lines.drop_last()).push(spec_trim(lines.last()))
    } else {
        macos_gpu_lines(lines.drop_last())
    }
}

/// Get GPU info on macOS from what `system_profiler SPDisplaysDataType`
/// printed (`None` when it failed): the lines on the chip, one per line.
pub fn get_gpu_info_macos(output: Option<&str>) -> (r: String)
    ensures
        r@ == match output {
            Some(o) => if macos_gpu_lines(spec_lines(o@)).len() > 0 {
                join_lines(macos_gpu_lines(spec_lines(o@)))
            } else {
                "GPU info not available"@
            },
            None => "GPU info not available"@,
        },
{
    if let Some(o) = output {
        let v = chars_of(o);
        assert(v@.skip(0) =~= o@);
        let lines = lines_of(&v, 0);
        let ghost ls = spec_lines(o@);
        let mut joined = String::new();
        let mut any = false;
        let mut i: usize = 0;
        while i < lines.len()
            invariant
                i <= lines@.len(),
                lines@.len() == ls.len(),
                forall|j: int| 0 <= j < lines@.len() ==> #[trigger] lines@[j]@ == ls[j],
                any == (macos_gpu_lines(ls.take(i as int)).len() > 0),
                joined@ == join_lines(macos_gpu_lines(ls.take(i as int))),
            decreases lines.len() - i,
        {
            let ghost pre = ls.take(i as int);
            let ghost nxt = ls.take(i + 1);
            assert(nxt.drop_last() =~= pre);
            assert(nxt.last() == ls[i as int]);
            let l = chars_of(lines[i].as_str());
            assert(l@.subrange(0, l.len() as int) =~= ls[i as int]);
            let (a, e) = trim_range(&l, 0, l.len());
            if range_starts_with(&l, a, e, "Chipset Model:") || range_starts_with(&l, a, e, "VRAM")
                || range_starts_with(&l, a, e, "Metal") {
                if any {
                    crate::text::push_char(&mut joined, '\n');
                }
                let t = string_of_range(&l, a, e);
                joined.append(t.as_str());
                any = true;
                proof {
                    let g = macos_gpu_lines(nxt);
                    assert(g == macos_gpu_lines(pre).push(spec_trim(nxt.last())));
                    if macos_gpu_lines(pre).len() == 0 {
                        assert(joined@ =~= join_lines(g));
                    } else {
                        assert(g.drop_last() =~= macos_gpu_lines(pre));
                        assert(joined@ =~= join_lines(g));
                    }
                }
            }
            i = i + 1;
        }
        assert(ls.take(lines@.len() as int) =~= ls);
        if any {
            return joined;
        }
    }
    String::from_str("GPU info not available")
}

/// The line of `system_profiler SPSoftwareDataType` that gives a time of
/// installation: the first that mentions `Time` but neither
/// `Time since boot:` nor `System Integrity`, trimmed.
pub open spec fn macos_install_line(lines: Seq<Seq<char>>) -> Option<Seq<char>>
    decreases lines.len(),
{
    if lines.len() == 0 {
        None
    } else {
        let l = lines[0];
        if !contains_text(l, "Time since boot:"@) && !contains_text(l, "System Integrity"@)
            && contains_text(l, "Time"@) {
            Some(spec_trim(l))
        } else {
            macos_install_line(lines.drop_first())
        }
    }
}

/// Get the install date on macOS from what `system_profiler
/// SPSoftwareDataType` printed (`None` when it could not be run).
pub fn get_install_date_macos(output: Option<&str>) -> (r: String)
    ensures
        r@ == match output {
            Some(o) => match macos_install_line(spec_lines(o@)) {
                Some(t) => t,
                None => "Unknown"@,
            },
            None => "Unknown"@,
        },
{
    if let Some(o) = output {
        let v = chars_of(o);
        assert(v@.skip(0) =~= o@);
        let lines = lines_of(&v, 0);
        let ghost ls = spec_lines(o@);
        let mut i: usize = 0;
        assert(ls.skip(0) =~= ls);
        while i < lines.len()
            invariant
                i <= lines@.len(),
                lines@.len() == ls.len(),
                forall|j: int| 0 <= j < lines@.len() ==> #[trigger] lines@[j]@ == ls[j],
                macos_install_line(ls) == macos_install_line(ls.skip(i as int)),
                output == Some(o),
                ls == spec_lines(o@),
            decreases lines.len() - i,
        {
            let l = chars_of(lines[i].as_str());
            let n = l.len();
            proof {
                assert(l@.subrange(0, n as int) =~= ls[i as int]);
                assert(ls.skip(i as int)[0] == ls[i as int]);
                assert(ls.skip(i as int).drop_first() =~= ls.skip(i + 1));
            }
            if !contains_range(&l, 0, n, "Time since boot:") && !contains_range(&l, 0, n, "System Integrity")
                && contains_range(&l, 0, n, "Time") {
                let (a, e) = trim_range(&l, 0, n);
                proof {
                    assert(l@ == ls[i as int]);
                    assert(macos_install_line(ls.skip(i as int)) == Some(spec_trim(ls[i as int])));
                }
                return string_of_range(&l, a, e);
            }
            i = i + 1;
        }
        assert(ls.skip(lines@.len() as int).len() == 0);
    }
    String::from_str("Unknown")
}

/// Name, version, build and architecture that the lines of the
/// `Win32_OperatingSystem` listing give: each known line, trimmed, sets its
/// field, a later line winning; the name is `Windows` until a caption comes.
pub open spec fn windows_os_fields(lines: Seq<Seq<char>>) -> (Seq<char>, Seq<char>, Seq<char>, Seq<char>)
    decreases lines.len(),
{
    if lines.len() == 0 {
        ("Windows"@, Seq::empty(), Seq::empty(), Seq::empty())
    } else {
        let f = windows_os_fields(lines.drop_last());
        let l = spec_trim(lines.last());
        if starts_with(l, "Caption"@) {
            (after_key(l, "Caption"@), f.1, f.2, f.3)
        } else if starts_with(l, "Version"@) {
            (f.0, after_key(l, "Version"@), f.2, f.3)
        } else if starts_with(l, "BuildNumber"@) {
            (f.0, f.1, after_key(l, "BuildNumber"@), f.3)
        } else if starts_with(l, "OSArchitecture"@) {
            (f.0, f.1, f.2, after_key(l, "OSArchitecture"@))
        } else {
            f
        }
    }
}

pub open spec fn os_details_are(d: OsDetails, f: (Seq<char>, Seq<char>, Seq<char>, Seq<char>)) -> bool {
    &&& d.name@ == f.0
    &&& d.version@ == f.1
    &&& d.build@ == f.2
    &&& d.edition@ == f.3
}

/// Get OS details on Windows from what PowerShell printed for
/// `Win32_OperatingSystem` (`None` when it could not be run).
pub fn get_os_details_windows(output: Option<&str>) -> (d: OsDetails)
    ensures
        os_details_are(
            d,
            windows_os_fields(
                match output {
                    Some(o) => spec_lines(o@),
                    None => Seq::empty(),
                },
            ),
        ),
{
    let mut name = String::from_str("Windows");
    let mut version = String::new();
    let mut build = String::new();
    let mut edition = String::new();
    if let Some(o) = output {
        let tv = chars_of(o);
        assert(tv@.skip(0) =~= tv@);
        let lines = lines_of(&tv, 0);
        let ghost ls = spec_lines(o@);
        let mut i: usize = 0;
        assert(ls.take(0) =~= Seq::<Seq<char>>::empty());
        while i < lines.len()
            invariant
                i <= lines@.len(),
                lines@.len() == ls.len(),
                forall|j: int| 0 <= j < lines@.len() ==> #[trigger] lines@[j]@ == ls[j],
                windows_os_fields(ls.take(i as int)) == (name@, version@, build@, edition@),
            decreases lines.len() - i,
        {
            let lv = chars_of(lines[i].as_str());
            let (p, q) = trim_range(&lv, 0, lv.len());
            proof {
                assert(lv@.subrange(0, lv.len() as int) =~= ls[i as int]);
                assert(ls.take(i + 1).drop_last() =~= ls.take(i as int));
                assert(ls.take(i + 1).last() == ls[i as int]);
            }
            if range_starts_with(&lv, p, q, "Caption") {
                let r = value_start(&lv, p, q, "Caption");
                name = string_of_range(&lv, r, q);
            } else if range_starts_with(&lv, p, q, "Version") {
                let r = value_start(&lv, p, q, "Version");
                version = string_of_range(&lv, r, q);
            } else if range_starts_with(&lv, p, q, "BuildNumber") {
                let r = value_start(&lv, p, q, "BuildNumber");
                build = string_of_range(&lv, r, q);
            } else if range_starts_with(&lv, p, q, "OSArchitecture") {
                let r = value_start(&lv, p, q, "OSArchitecture");
                edition = string_of_range(&lv, r, q);
            }
            i = i + 1;
        }
        assert(ls.take(lines@.len() as int) =~= ls);
    }
    OsDetails { name, version, build, edition }
}

/// Name, version and build that the lines of `sw_vers` give: a line that
/// starts with `ProductName:`, `ProductVersion:` or `BuildVersion:` sets its
/// field to the rest, trimmed, a later line winning; the name is `macOS`
/// until one comes, and there is no edition.
pub open spec fn macos_os_fields(lines: Seq<Seq<char>>) -> (Seq<char>, Seq<char>, Seq<char>, Seq<char>)
    decreases lines.len(),
{
    if lines.len() == 0 {
        ("macOS"@, Seq::empty(), Seq::empty(), Seq::empty())
    } else {
        let f = macos_os_fields(lines.drop_last());
        let l = lines.last();
        if starts_with(l, "ProductName:"@) {
            (spec_trim(l.skip(12)), f.1, f.2, f.3)
        } else if starts_with(l, "ProductVersion:"@) {
            (f.0, spec_trim(l.skip(15)), f.2, f.3)
        } else if starts_with(l, "BuildVersion:"@) {
            (f.0, f.1, spec_trim(l.skip(13)), f.3)
        } else {
            f
        }
    }
}

/// Get OS details on macOS from what `sw_vers` printed (`None` when it
/// could not be run).
pub fn get_os_details_macos(output: Option<&str>) -> (d: OsDetails)
    ensures
        os_details_are(
            d,
            macos_os_fields(
                match output {
                    Some(o) => spec_lines(o@),
                    None => Seq::empty(),
                },
            ),
        ),
{
    let mut name = String::from_str("macOS");
    let mut version = String::new();
    let mut build = String::new();
    let edition = String::new();
    if let Some(o) = output {
        let tv = chars_of(o);
        assert(tv@.skip(0) =~= tv@);
        let lines = lines_of(&tv, 0);
        let ghost ls = spec_lines(o@);
        let mut i: usize = 0;
        assert(ls.take(0) =~= Seq::<Seq<char>>::empty());
        proof {
            reveal_strlit("ProductName:");
            reveal_strlit("ProductVersion:");
            reveal_strlit("BuildVersion:");
        }
        while i < lines.len()
            invariant
                i <= lines@.len(),
                lines@.len() == ls.len(),
                forall|j: int| 0 <= j < lines@.len() ==> #[trigger] lines@[j]@ == ls[j],
                macos_os_fields(ls.take(i as int)) == (name@, version@, build@, edition@),
                "ProductName:"@.len() == 12,
                "ProductVersion:"@.len() == 15,
                "BuildVersion:"@.len() == 13,
            decreases lines.len() - i,
        {
            let lv = chars_of(lines[i].as_str());
            let n = lv.len();
            proof {
                assert(lv@.subrange(0, n as int) =~= ls[i as int]);
                assert(ls.take(i + 1).drop_last() =~= ls.take(i as int));
                assert(ls.take(i + 1).last() == ls[i as int]);
            }
            if range_starts_with(&lv, 0, n, "ProductName:") {
                let (a, e) = trim_range(&lv, 12, n);
                assert(lv@.skip(12) =~= lv@.subrange(12, n as int));
                name = string_of_range(&lv, a, e);
            } else if range_starts_with(&lv, 0, n, "ProductVersion:") {
                let (a, e) = trim_range(&lv, 15, n);
                assert(lv@.skip(15) =~= lv@.subrange(15, n as int));
                version = string_of_range(&lv, a, e);
            } else if range_starts_with(&lv, 0, n, "BuildVersion:") {
                let (a, e) = trim_range(&lv, 13, n);
                assert(lv@.skip(13) =~= lv@.subrange(13, n as int));
                build = string_of_range(&lv, a, e);
            }
            i = i + 1;
        }
        assert(ls.take(lines@.len() as int) =~= ls);
    }
    OsDetails { name, version, build, edition }
}

/// When no account was found: the user `whoami` names (trimmed), as a
/// standard user in the current session, or nobody when it could not run.
pub open spec fn whoami_fallback<W: FnOnce() -> Option<String>>(whoami: W, users: Seq<UserInfo>) -> bool {
    ||| users.len() == 0 && call_ensures(whoami, (), None)
    ||| exists|out: String|
        call_ensures(whoami, (), Some(out)) && users.len() == 1 && users[0].username@ == spec_trim(
            out@,
        ) && users[0].role@ == "standard"@ && users[0].last_login@ == "Current session"@
}

fn add_whoami_user<W: FnOnce() -> Option<String>>(users: &mut Vec<UserInfo>, whoami: W)
    requires
        old(users)@.len() == 0,
        call_requires(whoami, ()),
    ensures
        whoami_fallback(whoami, final(users)@),
{
    match whoami() {
        Some(out) => {
            let v = chars_of(out.as_str());
            let (a, b) = trim_range(&v, 0, v.len());
            assert(v@.subrange(0, v.len() as int) =~= out@);
            users.push(
                UserInfo {
                    username: string_of_range(&v, a, b),
                    role: String::from_str("standard"),
                    last_login: String::from_str("Current session"),
                },
            );
        },
        None => {},
    }
}

/// The words joined with single spaces (`[..].join(" ")`).
pub open spec fn join_words(p: Seq<Seq<char>>) -> Seq<char>
    decreases p.len(),
{
    if p.len() == 0 {
        Seq::empty()
    } else if p.len() == 1 {
        p[0]
    } else {
        join_words(p.drop_last()) + " "@ + p.last()
    }
}

/// The whitespace-separated words of `v` (`split_whitespace`).
fn words_of(v: &Vec<char>) -> (r: Vec<String>)
    ensures
        r@.len() == words(v@).len(),
        forall|j: int| 0 <= j < r@.len() ==> #[trigger] r@[j]@ == words(v@)[j],
{
    let len = v.len();
    let mut out: Vec<String> = Vec::new();
    let mut pos: usize = 0;
    assert(v@.skip(0) =~= v@);
    assert(words(v@).skip(0) =~= words(v@));
    loop
        invariant
            pos <= len,
            len == v@.len(),
            out@.len() <= words(v@).len(),
            forall|j: int| 0 <= j < out@.len() ==> #[trigger] out@[j]@ == words(v@)[j],
            words(v@).skip(out@.len() as int) == words(v@.skip(pos as int)),
        decreases len - pos,
    {
        let ghost s = v@.skip(pos as int);
        let ghost k = out@.len();
        let mut a = pos;
        while a < len && is_ws_char(v[a])
            invariant
                pos <= a <= len,
                len == v@.len(),
                s == v@.skip(pos as int),
                forall|j: int| 0 <= j < a - pos ==> #[trigger] ws_pred()(s[j]),
            decreases len - a,
        {
            assert(s[a - pos] == v@[a as int]);
            a = a + 1;
        }
        proof {
            if a < len {
                assert(s[a - pos] == v@[a as int]);
            }
            lemma_prefix_len(s, ws_pred(), a - pos);
            assert(s.skip(a - pos) =~= v@.skip(a as int));
        }
        if a == len {
            proof {
                assert(words(s).len() == 0);
                assert(words(v@).skip(k as int).len() == 0);
            }
            return out;
        }
        let ghost t = v@.skip(a as int);
        let mut b = a;
        while b < len && !is_ws_char(v[b])
            invariant
                a <= b <= len,
                len == v@.len(),
                t == v@.skip(a as int),
                forall|j: int| 0 <= j < b - a ==> #[trigger] non_ws_pred()(t[j]),
            decreases len - b,
        {
            assert(t[b - a] == v@[b as int]);
            b = b + 1;
        }
        proof {
            if b < len {
                assert(t[b - a] == v@[b as int]);
            }
            lemma_prefix_len(t, non_ws_pred(), b - a);
            assert(t.skip(b - a) =~= v@.skip(b as int));
            assert(t.take(b - a) =~= v@.subrange(a as int, b as int));
            assert(words(s) == seq![t.take(b - a)] + words(t.skip(b - a)));
            assert(words(v@)[k as int] == words(v@).skip(k as int)[0]);
            assert(words(v@).skip(k + 1 as int) =~= words(v@).skip(k as int).drop_first());
        }
        out.push(string_of_range(v, a, b));
        pos = b;
    }
}

/// An enabled account of the `Get-LocalUser` table: the row's words are its
/// name, `True` (in any case), then the last logon (`Never` when empty).
pub open spec fn windows_account(line: Seq<char>) -> Option<(Seq<char>, Seq<char>)> {
    let p = words(line);
    if p.len() >= 2 && word_lowers_to(p[1], "true"@) {
        Some((p[0], if p.len() > 2 { join_words(p.skip(2)) } else { "Never"@ }))
    } else {
        None
    }
}

/// The enabled accounts of the table's rows.
pub open spec fn windows_accounts(rows: Seq<Seq<char>>) -> Seq<(Seq<char>, Seq<char>)>
    decreases rows.len(),
{
    if rows.len() == 0 {
        Seq::empty()
    } else {
        match windows_account(rows.last()) {
            Some(a) => windows_accounts(rows.drop_last()).push(a),
            None => windows_accounts(rows.drop_last()),
        }
    }
}

/// The table's rows: its lines after the three header lines.
pub open spec fn windows_rows(listing: Option<Seq<char>>) -> Seq<Seq<char>> {
    match listing {
        Some(t) => if spec_lines(t).len() > 3 {
            spec_lines(t).skip(3)
        } else {
            Seq::empty()
        },
        None => Seq::empty(),
    }
}

/// The role the Administrators group query gives: admin when it ran and
/// printed something besides whitespace.
pub open spec fn group_query_role(out: Option<String>) -> Seq<char> {
    match out {
        Some(t) => if spec_trim(t@).len() > 0 {
            "admin"@
        } else {
            "standard"@
        },
        None => "standard"@,
    }
}

/// `role` is what the Administrators group query said of `name`.
pub open spec fn admin_by<F: Fn(&str) -> Option<String>>(admin_query: F, name: Seq<char>, role: Seq<char>) -> bool {
    exists|n: &str, out: Option<String>|
        n@ == name && call_ensures(admin_query, (n,), out) && role == group_query_role(out)
}

/// Get the user accounts on Windows from the `Get-LocalUser` table
/// (`None` when PowerShell could not be run). `admin_query` asks the
/// Administrators group about a name and gives what it printed (`None` when
/// it could not run); `whoami` names the current user.
pub fn get_users_windows(
    listing: Option<&str>,
    admin_query: impl Fn(&str) -> Option<String>,
    whoami: impl FnOnce() -> Option<String>,
) -> (users: Vec<UserInfo>)
    requires
        forall|name: &str| call_requires(admin_query, (name,)),
        call_requires(whoami, ()),
    ensures
        ({
            let acc = windows_accounts(
                windows_rows(
                    match listing {
                        Some(t) => Some(t@),
                        None => None,
                    },
                ),
            );
            if acc.len() > 0 {
                &&& users@.len() == acc.len()
                &&& forall|i: int|
                    0 <= i < acc.len() ==> {
                        &&& (#[trigger] users@[i]).username@ == acc[i].0
                        &&& users@[i].last_login@ == acc[i].1
                        &&& admin_by(admin_query, acc[i].0, users@[i].role@)
                    }
            } else {
                whoami_fallback(whoami, users@)
            }
        }),
{
    let mut users: Vec<UserInfo> = Vec::new();
    let ghost rows = windows_rows(
        match listing {
            Some(t) => Some(t@),
            None => None,
        },
    );
    if let Some(t) = listing {
        let v = chars_of(t);
        assert(v@.skip(0) =~= t@);
        let lines = lines_of(&v, 0);
        let ghost ls = spec_lines(t@);
        let mut i: usize = 3;
        if lines.len() <= 3 {
            i = lines.len();
        }
        let ghost start = i as int;
        proof {
            if lines@.len() > 3 {
                assert(rows =~= ls.skip(3));
            } else {
                assert(rows.len() == 0);
            }
        }
        while i < lines.len()
            invariant
                start <= i <= lines@.len(),
                lines@.len() == ls.len(),
                ls == spec_lines(t@),
                start == if ls.len() > 3 { 3 } else { ls.len() as int },
                rows == if ls.len() > 3 { ls.skip(3) } else { Seq::<Seq<char>>::empty() },
                forall|j: int| 0 <= j < lines@.len() ==> #[trigger] lines@[j]@ == ls[j],
                forall|name: &str| call_requires(admin_query, (name,)),
                users@.len() == windows_accounts(ls.subrange(start, i as int)).len(),
                forall|j: int|
                    0 <= j < users@.len() ==> {
                        let a = windows_accounts(ls.subrange(start, i as int))[j];
                        &&& (#[trigger] users@[j]).username@ == a.0
                        &&& users@[j].last_login@ == a.1
                        &&& admin_by(admin_query, a.0, users@[j].role@)
                    },
            decreases lines.len() - i,
        {
            let ghost pre = ls.subrange(start, i as int);
            let ghost nxt = ls.subrange(start, i + 1);
            proof {
                assert(nxt.drop_last() =~= pre);
                assert(nxt.last() == ls[i as int]);
            }
            let l = chars_of(lines[i].as_str());
            assert(l@ == ls[i as int]);
            let parts = words_of(&l);
            if parts.len() >= 2 {
                let name_ref = parts[0].as_str();
                let answer = admin_query(name_ref);
                let ghost gname = name_ref;
                let ghost gb = answer;
                let admin = match &answer {
                    Some(t) => {
                        let tv = chars_of(t.as_str());
                        let (a, e) = trim_range(&tv, 0, tv.len());
                        assert(tv@.subrange(0, tv.len() as int) =~= t@);
                        a < e
                    },
                    None => false,
                };
                let pv = chars_of(parts[1].as_str());
                let enabled = crate::parser::word_is(&pv, 0, pv.len(), "true");
                proof {
                    assert(pv@.subrange(0, pv.len() as int) =~= parts@[1]@);
                }
                if enabled {
                    let username = parts[0].clone();
                    let role = if admin {
                        String::from_str("admin")
                    } else {
                        String::from_str("standard")
                    };
                    let last_login = if parts.len() > 2 {
                        let mut s = parts[2].clone();
                        let mut k: usize = 3;
                        proof {
                            assert(words(l@).skip(2).take(1) =~= seq![words(l@)[2]]);
                        }
                        while k < parts.len()
                            invariant
                                3 <= k <= parts@.len(),
                                parts@.len() == words(l@).len(),
                                forall|j: int| 0 <= j < parts@.len() ==> #[trigger] parts@[j]@ == words(l@)[j],
                                s@ == join_words(words(l@).skip(2).take(k - 2)),
                            decreases parts.len() - k,
                        {
                            s.append(" ");
                            s.append(parts[k].as_str());
                            proof {
                                let w = words(l@).skip(2);
                                assert(w.take(k - 1).drop_last() =~= w.take(k - 2));
                                assert(w.take(k - 1).last() == words(l@)[k as int]);
                            }
                            k = k + 1;
                        }
                        proof {
                            assert(words(l@).skip(2).take(k - 2) =~= words(l@).skip(2));
                        }
                        s
                    } else {
                        String::from_str("Never")
                    };
                    proof {
                        assert(windows_account(ls[i as int]) == Some((username@, last_login@)));
                        assert(windows_accounts(nxt) == windows_accounts(pre).push((username@, last_login@)));
                    }
                    let ghost old_users = users@;
                    users.push(UserInfo { username, role, last_login });
                    proof {
                        let acc = windows_accounts(nxt);
                        assert forall|j: int| 0 <= j < users@.len() implies {
                            let a = acc[j];
                            &&& (#[trigger] users@[j]).username@ == a.0
                            &&& users@[j].last_login@ == a.1
                            &&& admin_by(admin_query, a.0, users@[j].role@)
                        } by {
                            if j < old_users.len() {
                                assert(users@[j] == old_users[j]);
                                assert(acc[j] == windows_accounts(pre)[j]);
                            } else {
                                assert(call_ensures(admin_query, (gname,), gb));
                                assert(users@[j].role@ == group_query_role(gb));
                            }
                        }
                    }
                } else {
                    proof {
                        assert(windows_account(ls[i as int]) is None);
                        assert(windows_accounts(nxt) == windows_accounts(pre));
                    }
                }
            } else {
                proof {
                    assert(windows_account(ls[i as int]) is None);
                    assert(windows_accounts(nxt) == windows_accounts(pre));
                }
            }
            i = i + 1;
        }
        proof {
            assert(ls.subrange(start, lines@.len() as int) =~= rows);
        }
    }
    if users.len() == 0 {
        add_whoami_user(&mut users, whoami);
    }
    users
}

/// The account names `dscl . list /Users` listed: its lines trimmed,
/// leaving out empty ones and the system accounts, whose names start with
/// `_`.
pub open spec fn macos_user_names(lines: Seq<Seq<char>>) -> Seq<Seq<char>>
    decreases lines.len(),
{
    if lines.len() == 0 {
        Seq::empty()
    } else {
        let n = spec_trim(lines.last());
        if n.len() == 0 || n[0] == '_' {
            macos_user_names(lines.drop_last())
        } else {
            macos_user_names(lines.drop_last()).push(n)
        }
    }
}

/// The role of `name` given what `dscl . read /Groups/admin
/// GroupMembership` printed: admin when the listing mentions the name.
pub open spec fn membership_role(out: Option<String>, name: Seq<char>) -> Seq<char> {
    match out {
        Some(t) => if contains_text(t@, name) {
            "admin"@
        } else {
            "standard"@
        },
        None => "standard"@,
    }
}

/// `role` is what the admin group's membership said of `name`.
pub open spec fn member_by<M: Fn() -> Option<String>>(membership: M, name: Seq<char>, role: Seq<char>) -> bool {
    exists|out: Option<String>| call_ensures(membership, (), out) && role == membership_role(out, name)
}

/// Get the user accounts on macOS from what `dscl . list /Users` printed
/// (`None` when it could not be run). `membership` reads the admin group's
/// members, `last` runs `last -1` for a name, `whoami` names the current
/// user.
pub fn get_users_macos(
    listing: Option<&str>,
    membership: impl Fn() -> Option<String>,
    last: impl Fn(&str) -> Option<String>,
    whoami: impl FnOnce() -> Option<String>,
) -> (users: Vec<UserInfo>)
    requires
        call_requires(membership, ()),
        forall|name: &str| call_requires(last, (name,)),
        call_requires(whoami, ()),
    ensures
        ({
            let names = match listing {
                Some(t) => macos_user_names(spec_lines(t@)),
                None => Seq::empty(),
            };
            if names.len() > 0 {
                &&& users@.len() == names.len()
                &&& forall|i: int|
                    0 <= i < names.len() ==> {
                        &&& (#[trigger] users@[i]).username@ == names[i]
                        &&& member_by(membership, names[i], users@[i].role@)
                        &&& logged_by(last, names[i], users@[i].last_login@)
                    }
            } else {
                whoami_fallback(whoami, users@)
            }
        }),
{
    let mut users: Vec<UserInfo> = Vec::new();
    if let Some(t) = listing {
        let v = chars_of(t);
        assert(v@.skip(0) =~= t@);
        let lines = lines_of(&v, 0);
        let ghost ls = spec_lines(t@);
        let mut i: usize = 0;
        assert(ls.take(0) =~= Seq::<Seq<char>>::empty());
        while i < lines.len()
            invariant
                i <= lines@.len(),
                lines@.len() == ls.len(),
                ls == spec_lines(t@),
                forall|j: int| 0 <= j < lines@.len() ==> #[trigger] lines@[j]@ == ls[j],
                call_requires(membership, ()),
                forall|name: &str| call_requires(last, (name,)),
                users@.len() == macos_user_names(ls.take(i as int)).len(),
                forall|j: int|
                    0 <= j < users@.len() ==> {
                        let n = macos_user_names(ls.take(i as int))[j];
                        &&& (#[trigger] users@[j]).username@ == n
                        &&& member_by(membership, n, users@[j].role@)
                        &&& logged_by(last, n, users@[j].last_login@)
                    },
            decreases lines.len() - i,
        {
            let ghost pre = ls.take(i as int);
            let ghost nxt = ls.take(i + 1);
            proof {
                assert(nxt.drop_last() =~= pre);
                assert(nxt.last() == ls[i as int]);
            }
            let l = chars_of(lines[i].as_str());
            let (a, b) = trim_range(&l, 0, l.len());
            assert(l@.subrange(0, l.len() as int) =~= ls[i as int]);
            if a < b && l[a] != '_' {
                let username = string_of_range(&l, a, b);
                let members = membership();
                let ghost gm = members;
                let role = match &members {
                    Some(text) => {
                        let tv = chars_of(text.as_str());
                        let nm = username.as_str();
                        let hit = contains_range(&tv, 0, tv.len(), nm);
                        assert(tv@.subrange(0, tv.len() as int) =~= text@);
                        if hit {
                            String::from_str("admin")
                        } else {
                            String::from_str("standard")
                        }
                    },
                    None => String::from_str("standard"),
                };
                let name_ref = username.as_str();
                let out = last(name_ref);
                let ghost gname = name_ref;
                let ghost gout = out;
                let last_login = last_login_of(out);
                let ghost uname = username@;
                proof {
                    assert(macos_user_names(nxt) == macos_user_names(pre).push(username@));
                    assert(role@ == membership_role(gm, uname));
                    assert(last_login@ == crate::accounts::last_login_text(gout));
                }
                let ghost old_users = users@;
                users.push(UserInfo { username, role, last_login });
                proof {
                    let nn = macos_user_names(nxt);
                    assert forall|j: int| 0 <= j < users@.len() implies {
                        let n = nn[j];
                        &&& (#[trigger] users@[j]).username@ == n
                        &&& member_by(membership, n, users@[j].role@)
                        &&& logged_by(last, n, users@[j].last_login@)
                    } by {
                        if j < old_users.len() {
                            assert(users@[j] == old_users[j]);
                            assert(nn[j] == macos_user_names(pre)[j]);
                        } else {
                            assert(nn[j] == uname);
                            assert(users@[j].username@ == uname);
                            assert(call_ensures(membership, (), gm));
                            assert(call_ensures(last, (gname,), gout));
                            assert(gname@ == uname);
                        }
                    }
                }
            } else {
                proof {
                    assert(macos_user_names(nxt) == macos_user_names(pre));
                }
            }
            i = i + 1;
        }
        assert(ls.take(lines@.len() as int) =~= ls);
    }
    if users.len() == 0 {
        add_whoami_user(&mut users, whoami);
    }
    users
}

/// The reply to a run whose failure has a fixed text: `spawn` and the
/// error when it could not start, `ok` when it succeeded, else `failed`.
pub open spec fn fixed_reply(
    o: ProcessOutcome,
    ok: Seq<char>,
    failed: Result<Seq<char>, Seq<char>>,
    spawn: Seq<char>,
) -> Result<Seq<char>, Seq<char>> {
    match o {
        ProcessOutcome::SpawnFailed(e) => Err(spawn + e@),
        ProcessOutcome::Finished { success, .. } => if success {
            Ok(ok)
        } else {
            failed
        },
    }
}

fn fixed_reply_exec(o: &ProcessOutcome, ok: &str, failed: Result<&str, &str>, spawn: &str) -> (r: Result<String, String>)
    ensures
        reply_view(r) == fixed_reply(
            *o,
            ok@,
            match failed {
                Ok(t) => Ok(t@),
                Err(t) => Err(t@),
            },
            spawn@,
        ),
{
    match o {
        ProcessOutcome::SpawnFailed(e) => {
            let mut s = String::from_str(spawn);
            s.append(e.as_str());
            Err(s)
        },
        ProcessOutcome::Finished { success, .. } => {
            if *success {
                Ok(String::from_str(ok))
            } else {
                match failed {
                    Ok(t) => Ok(String::from_str(t)),
                    Err(t) => Err(String::from_str(t)),
                }
            }
        },
    }
}

fn is_failure(o: &ProcessOutcome) -> (r: bool)
    ensures
        r == (*o matches ProcessOutcome::Finished { success, .. } && !success),
{
    match o {
        ProcessOutcome::Finished { success, .. } => !*success,
        ProcessOutcome::SpawnFailed(_) => false,
    }
}

/// Handle lock on Windows: the outcome of `rundll32.exe
/// user32.dll,LockWorkStation`.
pub fn handle_lock_windows(o: ProcessOutcome) -> (r: Result<String, String>)
    ensures
        reply_view(r) == fixed_reply(
            o,
            "Screen locked successfully."@,
            Err("Failed to lock screen."@),
            "Failed to lock screen: "@,
        ),
{
    fixed_reply_exec(&o, "Screen locked successfully.", Err("Failed to lock screen."), "Failed to lock screen: ")
}

/// Handle lock on macOS: the outcome of `pmset displaysleepnow`; when it
/// fails, `fallback` sends the lock keystroke and the lock is reported as
/// initiated.
pub fn handle_lock_macos(o: ProcessOutcome, fallback: impl FnOnce()) -> (r: Result<String, String>)
    requires
        call_requires(fallback, ()),
    ensures
        reply_view(r) == fixed_reply(
            o,
            "Screen locked successfully."@,
            Ok("Screen lock initiated."@),
            "Failed to lock screen: "@,
        ),
{
    if is_failure(&o) {
        fallback();
    }
    fixed_reply_exec(&o, "Screen locked successfully.", Ok("Screen lock initiated."), "Failed to lock screen: ")
}

/// Handle notify on Windows: the outcome of the toast script; when it
/// fails, `fallback` shows a message box and the fallback is reported.
pub fn handle_notify_windows(message: &str, o: ProcessOutcome, fallback: impl FnOnce()) -> (r: Result<
    String,
    String,
>)
    requires
        call_requires(fallback, ()),
    ensures
        reply_view(r) == fixed_reply(
            o,
            "Notification sent: "@ + message@,
            Ok("Notification sent (fallback): "@ + message@),
            "Failed to show notification: "@,
        ),
{
    if is_failure(&o) {
        fallback();
    }
    let mut ok = String::from_str("Notification sent: ");
    ok.append(message);
    let mut fb = String::from_str("Notification sent (fallback): ");
    fb.append(message);
    fixed_reply_exec(&o, ok.as_str(), Ok(fb.as_str()), "Failed to show notification: ")
}

/// Handle notify on macOS: the outcome of `osascript -e 'display
/// notification ...'`.
pub fn handle_notify_macos(message: &str, o: ProcessOutcome) -> (r: Result<String, String>)
    ensures
        reply_view(r) == run_reply(
            o,
            "Notification sent: "@ + message@,
            "Notification failed: "@,
            "Failed to show notification: "@,
            ""@,
        ),
{
    let mut ok = String::from_str("Notification sent: ");
    ok.append(message);
    run_reply_exec(o, ok, "Notification failed: ", "Failed to show notification: ", "")
}

/// Handle alert on Windows: the outcome of the PowerShell beeps.
pub fn handle_alert_windows(o: ProcessOutcome) -> (r: Result<String, String>)
    ensures
        reply_view(r) == fixed_reply(
            o,
            "Alert sound played."@,
            Ok("Alert: terminal bell sent."@),
            "Failed to play alert: "@,
        ),
{
    fixed_reply_exec(&o, "Alert sound played.", Ok("Alert: terminal bell sent."), "Failed to play alert: ")
}

/// Handle alert on macOS: the outcome of `afplay Sosumi.aiff`; when it
/// fails, `fallback` plays `Glass.aiff`, and the alert counts as played.
pub fn handle_alert_macos(o: ProcessOutcome, fallback: impl FnOnce()) -> (r: Result<String, String>)
    requires
        call_requires(fallback, ()),
    ensures
        reply_view(r) == fixed_reply(
            o,
            "Alert sound played."@,
            Ok("Alert sound played."@),
            "Failed to play alert: "@,
        ),
{
    if is_failure(&o) {
        fallback();
    }
    fixed_reply_exec(&o, "Alert sound played.", Ok("Alert sound played."), "Failed to play alert: ")
}

/// Handle screenshot on Windows and macOS: the outcome of the capture into
/// `path`.
pub fn handle_screenshot_to(path: &str, o: ProcessOutcome) -> (r: Result<String, String>)
    ensures
        reply_view(r) == run_reply(
            o,
            "Screenshot saved to "@ + path@,
            "Screenshot failed: "@,
            "Screenshot failed: "@,
            ""@,
        ),
{
    let mut ok = String::from_str("Screenshot saved to ");
    ok.append(path);
    run_reply_exec(o, ok, "Screenshot failed: ", "Screenshot failed: ", "")
}

/// The reply to a clipboard read: what it printed (trimmed when `trim`),
/// a fixed error when it failed, the spawn error when it could not start.
pub open spec fn clipboard_reply(o: ProcessOutcome, trim: bool) -> Result<Seq<char>, Seq<char>> {
    match o {
        ProcessOutcome::SpawnFailed(e) => Err("Failed to read clipboard: "@ + e@),
        ProcessOutcome::Finished { success, stdout, .. } => if success {
            Ok(if trim { spec_trim(stdout@) } else { stdout@ })
        } else {
            Err("Failed to read clipboard."@)
        },
    }
}

/// Handle clipboard on Windows (`Get-Clipboard`, trimmed) and macOS
/// (`pbpaste`, as printed): `trim` says which.
pub fn handle_clipboard_read(o: ProcessOutcome, trim: bool) -> (r: Result<String, String>)
    ensures
        reply_view(r) == clipboard_reply(o, trim),
{
    match o {
        ProcessOutcome::SpawnFailed(e) => {
            let mut s = String::from_str("Failed to read clipboard: ");
            s.append(e.as_str());
            Err(s)
        },
        ProcessOutcome::Finished { success, stdout, .. } => {
            if success {
                if trim {
                    Ok(trimmed(stdout.as_str()))
                } else {
                    Ok(stdout)
                }
            } else {
                Err(String::from_str("Failed to read clipboard."))
            }
        },
    }
}

} // verus!
