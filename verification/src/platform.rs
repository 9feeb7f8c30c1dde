//! What the client reads from the Linux system it runs on: the texts that
//! system files and tools print are interpreted here; reading them and
//! running the tools is left to the program.
use vstd::prelude::*;
use crate::parser::{parse_u8_range, spec_parse_u8, word_is, word_lowers_to};
use crate::repl::{range_starts_with, starts_with};
use crate::text::{
    chars_of, lines_of, spec_lines, spec_trim, spec_trim_char, string_of_range, trim_char_range,
    trim_range,
};

verus! {

/// OS details gathered from the platform
pub struct OsDetails {
    pub name: String,
    pub version: String,
    pub build: String,
    pub edition: String,
}

/// Battery information
pub struct BatteryInfo {
    pub percentage: Option<u8>,
    pub status: String,
    pub time_remaining: Option<String>,
}

/// User account information
pub struct UserInfo {
    pub username: String,
    pub role: String,
    pub last_login: String,
}

/// The battery as the kernel reports it in
/// `/sys/class/power_supply/BAT*/capacity` and `.../status`: both files
/// must be readable; the capacity is a percentage.
pub open spec fn battery_ok(capacity: Seq<char>, status: Seq<char>, b: BatteryInfo) -> bool {
    &&& b.percentage == spec_parse_u8(spec_trim(capacity))
    &&& b.status@ == spec_trim(status)
    &&& b.time_remaining is None
}

pub open spec fn no_battery(b: BatteryInfo) -> bool {
    &&& b.percentage is None
    &&& b.status@ == "No battery detected."@
    &&& b.time_remaining is None
}

/// Get battery info on Linux from the contents of the `capacity` and
/// `status` files of the first battery (`None` when unreadable).
pub fn get_battery(capacity: Option<&str>, status: Option<&str>) -> (b: BatteryInfo)
    ensures
        match (capacity, status) {
            (Some(c), Some(s)) => battery_ok(c@, s@, b),
            _ => no_battery(b),
        },
{
    match (capacity, status) {
        (Some(cap), Some(stat)) => {
            let c = chars_of(cap);
            let (a, e) = trim_range(&c, 0, c.len());
            assert(c@.subrange(0, c.len() as int) =~= cap@);
            let s = chars_of(stat);
            let (p, q) = trim_range(&s, 0, s.len());
            assert(s@.subrange(0, s.len() as int) =~= stat@);
            BatteryInfo {
                percentage: parse_u8_range(&c, a, e),
                status: string_of_range(&s, p, q),
                time_remaining: None,
            }
        },
        _ => BatteryInfo {
            percentage: None,
            status: String::from_str("No battery detected."),
            time_remaining: None,
        },
    }
}

/// The value of the last line of `lines` that starts with `key`, with
/// double quotes stripped from both ends.
pub open spec fn last_field(lines: Seq<Seq<char>>, key: Seq<char>) -> Option<Seq<char>>
    decreases lines.len(),
{
    if lines.len() == 0 {
        None
    } else if starts_with(lines.last(), key) {
        Some(spec_trim_char(lines.last().skip(key.len() as int), '"'))
    } else {
        last_field(lines.drop_last(), key)
    }
}

pub open spec fn field_or(f: Option<Seq<char>>, default: Seq<char>) -> Seq<char> {
    match f {
        Some(v) => v,
        None => default,
    }
}

/// The build line: the `VERSION_ID` with the kernel release appended.
pub open spec fn build_text(build: Seq<char>, kernel: Option<Seq<char>>) -> Seq<char> {
    match kernel {
        Some(k) => if build.len() == 0 {
            k
        } else {
            build + " (kernel: "@ + k + ")"@
        },
        None => build,
    }
}

/// The last value of `key` among the lines, as a string.
fn last_field_exec(lines: &Vec<String>, key: &str) -> (r: Option<String>)
    ensures
        match last_field(lines@.map_values(|l: String| l@), key@) {
            Some(v) => r matches Some(s) && s@ == v,
            None => r is None,
        },
{
    let ghost views = lines@.map_values(|l: String| l@);
    let mut i = lines.len();
    assert(views.take(i as int) =~= views);
    while i > 0
        invariant
            i <= lines@.len(),
            views == lines@.map_values(|l: String| l@),
            last_field(views, key@) == last_field(views.take(i as int), key@),
        decreases i,
    {
        let ghost pre = views.take(i as int);
        assert(pre.last() == lines@[i - 1]@);
        assert(pre.drop_last() =~= views.take(i - 1));
        let v = chars_of(lines[i - 1].as_str());
        if range_starts_with(&v, 0, v.len(), key) {
            assert(v@.subrange(0, v.len() as int) =~= v@);
            let k = key.unicode_len();
            let (p, q) = trim_char_range(&v, k, v.len(), '"');
            assert(v@.skip(k as int) =~= v@.subrange(k as int, v.len() as int));
            return Some(string_of_range(&v, p, q));
        }
        assert(v@.subrange(0, v.len() as int) =~= v@);
        i = i - 1;
    }
    assert(views.take(0) =~= Seq::<Seq<char>>::empty());
    None
}

/// The OS details on Linux, from the contents of `/etc/os-release` (if
/// readable) and the output of `uname -r` (if it succeeded): the last
/// `PRETTY_NAME`, `VERSION` and `VERSION_ID` entries, the kernel release
/// appended to the build.
pub fn get_os_details(os_release: Option<&str>, uname: Option<&str>) -> (d: OsDetails)
    ensures
        ({
            let lines = match os_release {
                Some(c) => spec_lines(c@),
                None => Seq::empty(),
            };
            let kernel = match uname {
                Some(u) => Some(spec_trim(u@)),
                None => None,
            };
            &&& d.name@ == field_or(last_field(lines, "PRETTY_NAME="@), "Linux"@)
            &&& d.version@ == field_or(last_field(lines, "VERSION="@), Seq::empty())
            &&& d.build@ == build_text(
                field_or(last_field(lines, "VERSION_ID="@), Seq::empty()),
                kernel,
            )
            &&& d.edition@.len() == 0
        }),
{
    let lines: Vec<String> = match os_release {
        Some(content) => {
            let v = chars_of(content);
            assert(v@.skip(0) =~= content@);
            lines_of(&v, 0)
        },
        None => Vec::new(),
    };
    let ghost views = lines@.map_values(|l: String| l@);
    proof {
        let expected = match os_release {
            Some(c) => spec_lines(c@),
            None => Seq::empty(),
        };
        assert(views =~= expected);
    }
    let name = match last_field_exec(&lines, "PRETTY_NAME=") {
        Some(v) => v,
        None => String::from_str("Linux"),
    };
    let version = match last_field_exec(&lines, "VERSION=") {
        Some(v) => v,
        None => String::new(),
    };
    let mut build = match last_field_exec(&lines, "VERSION_ID=") {
        Some(v) => v,
        None => String::new(),
    };
    if let Some(out) = uname {
        let u = chars_of(out);
        let (p, q) = trim_range(&u, 0, u.len());
        assert(u@.subrange(0, u.len() as int) =~= out@);
        let kernel = string_of_range(&u, p, q);
        if build.as_str().is_empty() {
            build = kernel;
        } else {
            build.append(" (kernel: ");
            build.append(kernel.as_str());
            build.append(")");
        }
    }
    OsDetails { name, version, build, edition: String::new() }
}

/// Whether some window of `line` lowercases to `pat`
/// (`line.to_lowercase().contains(pat)` for a lowercase ASCII `pat`).
pub open spec fn contains_ci(line: Seq<char>, pat: Seq<char>) -> bool {
    exists|i: int|
        0 <= i && i + pat.len() <= line.len() && #[trigger] word_lowers_to(
            line.subrange(i, i + pat.len()),
            pat,
        )
}

/// A line of `lspci` that describes a graphics device.
pub open spec fn is_gpu_line(line: Seq<char>) -> bool {
    contains_ci(line, "vga"@) || contains_ci(line, "3d"@) || contains_ci(line, "display"@)
}

/// The lines that describe graphics devices.
pub open spec fn gpu_lines(lines: Seq<Seq<char>>) -> Seq<Seq<char>>
    decreases lines.len(),
{
    if lines.len() == 0 {
        Seq::empty()
    } else if is_gpu_line(lines.last()) {
        gpu_lines(lines.drop_last()).push(lines.last())
    } else {
        gpu_lines(lines.drop_last())
    }
}

/// `lines` joined with `\n`.
pub open spec fn join_lines(lines: Seq<Seq<char>>) -> Seq<char>
    decreases lines.len(),
{
    if lines.len() == 0 {
        Seq::empty()
    } else if lines.len() == 1 {
        lines[0]
    } else {
        join_lines(lines.drop_last()) + seq!['\n'] + lines.last()
    }
}

/// Whether some window of `v[lo..hi]` lowercases to `pat`.
pub fn contains_ci_exec(v: &Vec<char>, lo: usize, hi: usize, pat: &str) -> (r: bool)
    requires
        lo <= hi <= v.len(),
    ensures
        r == contains_ci(v@.subrange(lo as int, hi as int), pat@),
{
    let ghost line = v@.subrange(lo as int, hi as int);
    let m = pat.unicode_len();
    if m > hi - lo {
        return false;
    }
    let mut i: usize = lo;
    while i <= hi - m
        invariant
            lo <= i,
            m == pat@.len(),
            m <= hi - lo,
            hi <= v.len(),
            line == v@.subrange(lo as int, hi as int),
            forall|j: int|
                0 <= j < i - lo ==> !#[trigger] word_lowers_to(line.subrange(j, j + m), pat@),
        decreases hi - i,
    {
        let found = word_is(v, i, i + m, pat);
        assert(line.subrange(i - lo, i - lo + m) =~= v@.subrange(i as int, i + m));
        if found {
            return true;
        }
        i = i + 1;
    }
    proof {
        assert forall|j: int|
            0 <= j && j + pat@.len() <= line.len() implies !#[trigger] word_lowers_to(
            line.subrange(j, j + pat@.len()),
            pat@,
        ) by {}
    }
    false
}

/// The graphics devices `lspci` listed (`None` when it could not run),
/// one per line.
pub fn get_gpu_info(lspci: Option<&str>) -> (r: String)
    ensures
        r@ == match lspci {
            Some(out) => if gpu_lines(spec_lines(out@)).len() > 0 {
                join_lines(gpu_lines(spec_lines(out@)))
            } else {
                "GPU info not available"@
            },
            None => "GPU info not available"@,
        },
{
    if let Some(out) = lspci {
        let v = chars_of(out);
        assert(v@.skip(0) =~= out@);
        let lines = lines_of(&v, 0);
        let ghost views = lines@.map_values(|l: String| l@);
        assert(views =~= spec_lines(out@));
        let mut joined = String::new();
        let mut any = false;
        let mut i: usize = 0;
        while i < lines.len()
            invariant
                i <= lines@.len(),
                views == lines@.map_values(|l: String| l@),
                any == (gpu_lines(views.take(i as int)).len() > 0),
                joined@ == join_lines(gpu_lines(views.take(i as int))),
            decreases lines.len() - i,
        {
            let ghost pre = views.take(i as int);
            let ghost nxt = views.take(i + 1);
            assert(nxt.drop_last() =~= pre);
            assert(nxt.last() == lines@[i as int]@);
            let l = chars_of(lines[i].as_str());
            assert(l@.subrange(0, l.len() as int) =~= l@);
            let n = l.len();
            if contains_ci_exec(&l, 0, n, "vga") || contains_ci_exec(&l, 0, n, "3d")
                || contains_ci_exec(&l, 0, n, "display") {
                if any {
                    crate::text::push_char(&mut joined, '\n');
                }
                joined.append(lines[i].as_str());
                any = true;
                proof {
                    let g = gpu_lines(nxt);
                    assert(g == gpu_lines(pre).push(nxt.last()));
                    if gpu_lines(pre).len() == 0 {
                        assert(joined@ =~= join_lines(g));
                    } else {
                        assert(g.drop_last() =~= gpu_lines(pre));
                        assert(joined@ =~= join_lines(g));
                    }
                }
            }
            i = i + 1;
        }
        assert(views.take(lines.len() as int) =~= views);
        if any {
            return joined;
        }
    }
    String::from_str("GPU info not available")
}

/// `s` with every leading repetition of `p` removed (`str::trim_start_matches`).
pub open spec fn strip_all_prefix(s: Seq<char>, p: Seq<char>) -> Seq<char>
    decreases s.len(),
{
    if p.len() > 0 && starts_with(s, p) {
        strip_all_prefix(s.skip(p.len() as int), p)
    } else {
        s
    }
}

/// The first line that starts with `key`.
pub open spec fn first_with(lines: Seq<Seq<char>>, key: Seq<char>) -> Option<Seq<char>>
    decreases lines.len(),
{
    if lines.len() == 0 {
        None
    } else if starts_with(lines[0], key) {
        Some(lines[0])
    } else {
        first_with(lines.drop_first(), key)
    }
}

/// The OS version the client announces: the value of the first `VERSION=`
/// line of `/etc/os-release`, quotes stripped, or `Unknown`.
pub open spec fn os_version_text(os_release: Option<Seq<char>>) -> Seq<char> {
    match os_release {
        Some(c) => match first_with(spec_lines(c), "VERSION="@) {
            Some(l) => spec_trim_char(strip_all_prefix(l, "VERSION="@), '"'),
            None => "Unknown"@,
        },
        None => "Unknown"@,
    }
}

/// The OS version, from the contents of `/etc/os-release` (`None` when it
/// could not be read).
pub fn get_os_version(os_release: Option<&str>) -> (r: String)
    ensures
        r@ == os_version_text(match os_release {
            Some(c) => Some(c@),
            None => None,
        }),
{
    if os_release.is_none() {
        return String::from_str("Unknown");
    }
    let content = os_release.unwrap();
    let v = chars_of(content);
    assert(v@.skip(0) =~= content@);
    let lines = lines_of(&v, 0);
    let ghost views = lines@.map_values(|l: String| l@);
    assert(views =~= spec_lines(content@));
    let mut i: usize = 0;
    assert(views.skip(0) =~= views);
    while i < lines.len()
        invariant
            i <= lines@.len(),
            views == lines@.map_values(|l: String| l@),
            views == spec_lines(content@),
            os_release == Some(content),
            first_with(views, "VERSION="@) == first_with(views.skip(i as int), "VERSION="@),
        decreases lines.len() - i,
    {
        let l = chars_of(lines[i].as_str());
        let n = l.len();
        assert(l@.subrange(0, n as int) =~= l@);
        proof {
            let rest = views.skip(i as int);
            assert(rest[0] == lines@[i as int]@);
            assert(rest.drop_first() =~= views.skip(i + 1));
        }
        if range_starts_with(&l, 0, n, "VERSION=") {
            let mut k: usize = 0;
            proof {
                reveal_strlit("VERSION=");
                assert(l@.skip(0) =~= l@);
            }
            loop
                invariant
                    k <= n,
                    n == l@.len(),
                    strip_all_prefix(l@, "VERSION="@) == strip_all_prefix(l@.skip(k as int), "VERSION="@),
                    "VERSION="@.len() == 8,
                ensures
                    k <= n,
                    strip_all_prefix(l@, "VERSION="@) == l@.skip(k as int),
                decreases n - k,
            {
                let more = range_starts_with(&l, k, n, "VERSION=");
                proof {
                    assert(l@.subrange(k as int, n as int) =~= l@.skip(k as int));
                }
                if !more {
                    break;
                }
                proof {
                    assert(l@.skip(k as int).skip(8) =~= l@.skip(k + 8));
                }
                k = k + 8;
            }
            proof {
                assert(l@.subrange(k as int, n as int) =~= l@.skip(k as int));
                assert(first_with(views.skip(i as int), "VERSION="@) == Some(l@));
            }
            let (p, q) = trim_char_range(&l, k, n, '"');
            let r = string_of_range(&l, p, q);
            proof {
                assert(first_with(spec_lines(content@), "VERSION="@) == Some(l@));
                assert(strip_all_prefix(l@, "VERSION="@) == l@.subrange(k as int, n as int));
                assert(r@ == spec_trim_char(strip_all_prefix(l@, "VERSION="@), '"'));
            }
            return r;
        }
        i = i + 1;
    }
    proof {
        assert(views.skip(i as int).len() == 0);
    }
    String::from_str("Unknown")
}

} // verus!
