//! The user accounts of a Linux client, from `/etc/passwd`, and the date the
//! system was installed. Reading the files and running `last`, `whoami`,
//! `stat` and `ls` is left to the caller.
use vstd::prelude::*;
use crate::handlers::ProcessOutcome;
use crate::parser::{parse_u32_range, spec_parse_u32};
use crate::platform::UserInfo;
use crate::repl::range_is;
use crate::text::{
    chars_of, lines_of, prefix_len, spec_lines, spec_trim, string_of_range, trim_range,
};

verus! {

pub open spec fn not_colon() -> spec_fn(char) -> bool {
    |c: char| c != ':'
}

/// `str::split(':')`: the pieces between colons, empty ones included.
pub open spec fn split_colons(s: Seq<char>) -> Seq<Seq<char>>
    decreases s.len(),
{
    let k = prefix_len(s, not_colon());
    if k >= s.len() {
        seq![s]
    } else {
        proof {
            crate::order::lemma_prefix_len_facts(s, not_colon());
        }
        seq![s.take(k as int)] + split_colons(s.skip(k + 1 as int))
    }
}

/// `str::contains` of a text.
pub open spec fn contains_text(s: Seq<char>, pat: Seq<char>) -> bool {
    exists|i: int| 0 <= i && i + pat.len() <= s.len() && #[trigger] s.subrange(i, i + pat.len()) == pat
}

/// A line of `/etc/passwd` that names a person's account: at least seven
/// fields, a user id of 1000 or more (an unreadable id counts as 0), a login
/// shell, and not `nobody`.
pub open spec fn is_person(line: Seq<char>) -> bool {
    let f = split_colons(line);
    let uid = match spec_parse_u32(f[2]) {
        Some(u) => u,
        None => 0,
    };
    &&& f.len() >= 7
    &&& uid >= 1000
    &&& !contains_text(f[6], "nologin"@)
    &&& !contains_text(f[6], "false"@)
    &&& f[0] != "nobody"@
}

/// The role of a user id.
pub open spec fn role_of(line: Seq<char>) -> Seq<char> {
    if spec_parse_u32(split_colons(line)[2]) == Some(0u32) {
        "admin"@
    } else {
        "standard"@
    }
}

/// The person accounts among the lines, in order.
pub open spec fn person_lines(lines: Seq<Seq<char>>) -> Seq<Seq<char>>
    decreases lines.len(),
{
    if lines.len() == 0 {
        Seq::empty()
    } else if is_person(lines.last()) {
        person_lines(lines.drop_last()).push(lines.last())
    } else {
        person_lines(lines.drop_last())
    }
}

/// The last login as the first line of what `last -1 <user>` printed, or
/// `Unknown` when it printed nothing or could not run.
pub open spec fn last_login_text(out: Option<String>) -> Seq<char> {
    match out {
        Some(o) => if spec_lines(o@).len() > 0 {
            spec_lines(o@)[0]
        } else {
            "Unknown"@
        },
        None => "Unknown"@,
    }
}

/// `login` is what `last` told of the user `name`.
pub open spec fn logged_by<F: Fn(&str) -> Option<String>>(last: F, name: Seq<char>, login: Seq<char>) -> bool {
    exists|n: &str, out: Option<String>|
        n@ == name && call_ensures(last, (n,), out) && login == last_login_text(out)
}

/// Where `pat` occurs in `v[lo..hi]`.
pub(crate) fn contains_range(v: &Vec<char>, lo: usize, hi: usize, pat: &str) -> (r: bool)
    requires
        lo <= hi <= v.len(),
    ensures
        r == contains_text(v@.subrange(lo as int, hi as int), pat@),
{
    let ghost s = v@.subrange(lo as int, hi as int);
    let m = pat.unicode_len();
    if m > hi - lo {
        return false;
    }
    if m == 0 {
        assert(s.subrange(0, 0 + pat@.len() as int) =~= pat@);
        return true;
    }
    let mut i: usize = lo;
    while i <= hi - m
        invariant
            lo <= i,
            m == pat@.len(),
            0 < m <= hi - lo,
            hi <= v.len(),
            s == v@.subrange(lo as int, hi as int),
            forall|j: int| 0 <= j < i - lo ==> #[trigger] s.subrange(j, j + m) != pat@,
        decreases hi - i,
    {
        assert(s.subrange(i - lo, i - lo + m) =~= v@.subrange(i as int, i + m));
        if range_is(v, i, i + m, pat) {
            return true;
        }
        i = i + 1;
    }
    false
}

/// The bounds of the colon-separated fields of `v`.
fn field_bounds(v: &Vec<char>) -> (r: Vec<(usize, usize)>)
    ensures
        r@.len() == split_colons(v@).len(),
        forall|i: int|
            0 <= i < r@.len() ==> {
                &&& (#[trigger] r@[i]).0 <= r@[i].1 <= v@.len()
                &&& v@.subrange(r@[i].0 as int, r@[i].1 as int) == split_colons(v@)[i]
            },
{
    let mut r: Vec<(usize, usize)> = Vec::new();
    let mut start: usize = 0;
    let n = v.len();
    assert(v@.skip(0) =~= v@);
    loop
        invariant
            start <= n,
            n == v@.len(),
            r@.len() + split_colons(v@.skip(start as int)).len() == split_colons(v@).len(),
            forall|i: int|
                0 <= i < r@.len() ==> {
                    &&& (#[trigger] r@[i]).0 <= r@[i].1 <= v@.len()
                    &&& v@.subrange(r@[i].0 as int, r@[i].1 as int) == split_colons(v@)[i]
                },
            forall|j: int|
                0 <= j < split_colons(v@.skip(start as int)).len() ==> #[trigger] split_colons(
                    v@.skip(start as int),
                )[j] == split_colons(v@)[r@.len() + j],
        decreases n - start,
    {
        let ghost s = v@.skip(start as int);
        let mut k = start;
        while k < n && v[k] != ':'
            invariant
                start <= k <= n,
                n == v@.len(),
                s == v@.skip(start as int),
                forall|j: int| 0 <= j < k - start ==> #[trigger] not_colon()(s[j]),
            decreases n - k,
        {
            assert(s[k - start] == v@[k as int]);
            k = k + 1;
        }
        proof {
            if k < n {
                assert(s[k - start] == v@[k as int]);
            }
            crate::text::lemma_prefix_len(s, not_colon(), k - start);
            assert(s.take(k - start) =~= v@.subrange(start as int, k as int));
        }
        if k == n {
            proof {
                assert(split_colons(s) == seq![s]);
                assert(s =~= v@.subrange(start as int, n as int));
                assert(split_colons(s)[0] == split_colons(v@)[r@.len() as int]);
            }
            r.push((start, n));
            return r;
        }
        proof {
            assert(s.skip(k - start + 1) =~= v@.skip(k + 1));
            let rest = split_colons(v@.skip(k + 1));
            assert(split_colons(s) == seq![s.take(k - start)] + rest);
            assert(split_colons(s)[0] == split_colons(v@)[r@.len() as int]);
            assert forall|j: int| 0 <= j < rest.len() implies #[trigger] rest[j]
                == split_colons(v@)[r@.len() + 1 + j] by {
                assert(rest[j] == split_colons(s)[j + 1]);
            }
        }
        r.push((start, k));
        start = k + 1;
    }
}

/// The last-login text from what `last` printed.
pub(crate) fn last_login_of(out: Option<String>) -> (r: String)
    ensures
        r@ == last_login_text(out),
{
    match out {
        Some(o) => {
            let v = chars_of(o.as_str());
            assert(v@.skip(0) =~= o@);
            let lines = lines_of(&v, 0);
            if lines.len() > 0 {
                lines[0].clone()
            } else {
                String::from_str("Unknown")
            }
        },
        None => String::from_str("Unknown"),
    }
}

/// The accounts `/etc/passwd` lists.
pub open spec fn passwd_lines(passwd: Option<&str>) -> Seq<Seq<char>> {
    match passwd {
        Some(p) => person_lines(spec_lines(p@)),
        None => Seq::empty(),
    }
}

/// Get user accounts on Linux from the contents of `/etc/passwd` (`None`
/// when unreadable). `last` gives what `last -1 <user>` printed (`None` when
/// it could not run); `whoami` what `whoami` printed, asked only when no
/// account was found.
pub fn get_users(
    passwd: Option<&str>,
    last: impl Fn(&str) -> Option<String>,
    whoami: impl FnOnce() -> Option<String>,
) -> (users: Vec<UserInfo>)
    requires
        forall|name: &str| call_requires(last, (name,)),
        call_requires(whoami, ()),
    ensures
        ({
            let ps = passwd_lines(passwd);
            if ps.len() > 0 {
                &&& users@.len() == ps.len()
                &&& forall|i: int|
                    0 <= i < ps.len() ==> {
                        let f = split_colons(ps[i]);
                        &&& (#[trigger] users@[i]).username@ == f[0]
                        &&& users@[i].role@ == role_of(ps[i])
                        &&& logged_by(last, f[0], users@[i].last_login@)
                    }
            } else {
                ||| users@.len() == 0 && call_ensures(whoami, (), None)
                ||| exists|out: String|
                    call_ensures(whoami, (), Some(out)) && users@.len() == 1
                        && users@[0].username@ == spec_trim(out@) && users@[0].role@
                        == "standard"@ && users@[0].last_login@ == "Current session"@
            }
        }),
{
    let mut users: Vec<UserInfo> = Vec::new();
    let ghost ps = passwd_lines(passwd);
    if let Some(content) = passwd {
        let v = chars_of(content);
        assert(v@.skip(0) =~= content@);
        let lines = lines_of(&v, 0);
        let ghost ls = spec_lines(content@);
        let mut i: usize = 0;
        while i < lines.len()
            invariant
                i <= lines@.len(),
                lines@.len() == ls.len(),
                ls == spec_lines(content@),
                forall|j: int| 0 <= j < lines@.len() ==> #[trigger] lines@[j]@ == ls[j],
                forall|name: &str| call_requires(last, (name,)),
                users@.len() == person_lines(ls.take(i as int)).len(),
                forall|j: int|
                    0 <= j < users@.len() ==> {
                        let l = person_lines(ls.take(i as int))[j];
                        let f = split_colons(l);
                        &&& (#[trigger] users@[j]).username@ == f[0]
                        &&& users@[j].role@ == role_of(l)
                        &&& logged_by(last, f[0], users@[j].last_login@)
                    },
            decreases lines.len() - i,
        {
            let ghost pre = ls.take(i as int);
            let ghost nxt = ls.take(i + 1);
            proof {
                assert(nxt.drop_last() =~= pre);
                assert(nxt.last() == ls[i as int]);
            }
            let l = chars_of(lines[i].as_str());
            let fields = field_bounds(&l);
            if fields.len() >= 7 {
                let (u0, u1) = fields[2];
                let uid: u32 = match parse_u32_range(&l, u0, u1) {
                    Some(u) => u,
                    None => 0,
                };
                let (s0, s1) = fields[6];
                let (n0, n1) = fields[0];
                let person = uid >= 1000 && !contains_range(&l, s0, s1, "nologin")
                    && !contains_range(&l, s0, s1, "false") && !range_is(&l, n0, n1, "nobody");
                if person {
                    let username = string_of_range(&l, n0, n1);
                    let role = if uid == 0 {
                        String::from_str("admin")
                    } else {
                        String::from_str("standard")
                    };
                    let name_ref = username.as_str();
                    let out = last(name_ref);
                    let ghost gname = name_ref;
                    let ghost gout = out;
                    let last_login = last_login_of(out);
                    proof {
                        assert(is_person(ls[i as int]));
                        assert(person_lines(nxt) == person_lines(pre).push(ls[i as int])) by {
                            assert(person_lines(nxt) == person_lines(pre).push(nxt.last()));
                        }
                    }
                    let ghost old_users = users@;
                    users.push(UserInfo { username, role, last_login });
                    proof {
                        let pl = person_lines(nxt);
                        assert forall|j: int| 0 <= j < users@.len() implies {
                            let l = pl[j];
                            let f = split_colons(l);
                            &&& (#[trigger] users@[j]).username@ == f[0]
                            &&& users@[j].role@ == role_of(l)
                            &&& logged_by(last, f[0], users@[j].last_login@)
                        } by {
                            if j < old_users.len() {
                                assert(users@[j] == old_users[j]);
                                assert(pl[j] == person_lines(pre)[j]);
                            } else {
                                assert(pl[j] == ls[i as int]);
                                assert(gname@ == split_colons(pl[j])[0]);
                                assert(call_ensures(last, (gname,), gout));
                            }
                        }
                    }
                } else {
                    proof {
                        assert(!is_person(ls[i as int]));
                        assert(person_lines(nxt) == person_lines(pre));
                    }
                }
            } else {
                proof {
                    assert(!is_person(ls[i as int]));
                    assert(person_lines(nxt) == person_lines(pre));
                }
            }
            i = i + 1;
        }
        assert(ls.take(lines@.len() as int) =~= ls);
    }
    if users.len() == 0 {
        match whoami() {
            Some(out) => {
                let v = chars_of(out.as_str());
                let (a, b) = trim_range(&v, 0, v.len());
                assert(v@.subrange(0, v.len() as int) =~= out@);
                users.push(
                    UserInfo {
                        username: string_of_range(&v, a, b),
                        role: String::from_str("standard"),
                        last_login: String::from_str("Current session"),
                    },
                );
            },
            None => {},
        }
    }
    users
}

/// The install date: what `stat -c %w /` printed (trimmed) unless that is
/// empty or `-`, else the second line of a successful `ls -lt
/// /var/log/installer/`, else `Unknown`.
pub open spec fn install_date_text(stat: Option<Seq<char>>, ls: ProcessOutcome) -> Seq<char> {
    match stat {
        Some(s) if spec_trim(s).len() > 0 && spec_trim(s) != "-"@ => spec_trim(s),
        _ => match ls {
            ProcessOutcome::Finished { success, stdout, .. } if success && spec_lines(stdout@).len()
                > 1 => spec_lines(stdout@)[1],
            _ => "Unknown"@,
        },
    }
}

/// Get install date on Linux: `stat` is what `stat -c %w /` printed
/// (`None` when it could not run); `ls` runs `ls -lt /var/log/installer/`,
/// asked only when `stat` did not tell.
pub fn get_install_date(stat: Option<&str>, ls: impl FnOnce() -> ProcessOutcome) -> (r: String)
    requires
        call_requires(ls, ()),
    ensures
        match stat {
            Some(s) if spec_trim(s@).len() > 0 && spec_trim(s@) != "-"@ => r@ == spec_trim(s@),
            _ => exists|o: ProcessOutcome| call_ensures(ls, (), o) && r@ == install_date_text(
                match stat {
                    Some(s) => Some(s@),
                    None => None,
                },
                o,
            ),
        },
{
    if let Some(out) = stat {
        let v = chars_of(out);
        let (a, b) = trim_range(&v, 0, v.len());
        assert(v@.subrange(0, v.len() as int) =~= out@);
        if a < b && !range_is(&v, a, b, "-") {
            return string_of_range(&v, a, b);
        }
    }
    let o = ls();
    let ghost og = o;
    let r = match o {
        ProcessOutcome::Finished { success, stdout, .. } => {
            if success {
                let v = chars_of(stdout.as_str());
                assert(v@.skip(0) =~= stdout@);
                let lines = lines_of(&v, 0);
                if lines.len() > 1 {
                    lines[1].clone()
                } else {
                    String::from_str("Unknown")
                }
            } else {
                String::from_str("Unknown")
            }
        },
        _ => String::from_str("Unknown"),
    };
    proof {
        assert(call_ensures(ls, (), og));
    }
    r
}

} // verus!
