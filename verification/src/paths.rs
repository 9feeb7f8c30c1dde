//! Unix paths as text: what `Path::join`, `Path::parent` and
//! `Path::file_name` give, on the character view of a path.
use vstd::prelude::*;
use crate::text::{char_pred, chars_of, lemma_suffix_len, push_char, str_eq, string_of_range, suffix_len};

verus! {

/// `Path::is_absolute` on Unix: the path starts at the root.
pub open spec fn is_absolute(p: Seq<char>) -> bool {
    p.len() > 0 && p[0] == '/'
}

/// `base.join(p)`: `p` when it is absolute, else `p` appended to `base`
/// with a `/` between them unless `base` is empty or already ends in one.
pub open spec fn join_path(base: Seq<char>, p: Seq<char>) -> Seq<char> {
    if is_absolute(p) {
        p
    } else if base.len() == 0 || base.last() == '/' {
        base + p
    } else {
        base + "/"@ + p
    }
}

pub open spec fn slash() -> spec_fn(char) -> bool {
    char_pred('/')
}

pub open spec fn not_slash() -> spec_fn(char) -> bool {
    |c: char| c != '/'
}

/// `s` without its trailing slashes.
pub open spec fn strip_slashes(s: Seq<char>) -> Seq<char> {
    s.take(s.len() - suffix_len(s, slash()))
}

/// The length of `s` before its last segment (the text after its last `/`).
pub open spec fn dir_len(s: Seq<char>) -> int {
    s.len() - suffix_len(s, not_slash())
}

/// How many leading characters stand before the first segment: the root
/// `/`, or a leading `.` that names the current directory (`.` alone or
/// followed by `/`).
pub open spec fn body_start(s: Seq<char>) -> int {
    if s.len() > 0 && s[0] == '/' {
        1
    } else if s.len() > 0 && s[0] == '.' && (s.len() == 1 || s[1] == '/') {
        1
    } else {
        0
    }
}

/// The length of `s` without its last segment, and without the separator
/// before that segment when the separator lies past the first `lo`
/// characters.
pub open spec fn before_last(s: Seq<char>, lo: int) -> int {
    let d = dir_len(s);
    if d > lo {
        d - 1
    } else {
        d
    }
}

/// `s` without its trailing empty and `.` segments, which `Path` does not
/// count as components; the first `lo` characters always stay.
pub open spec fn trim_back(s: Seq<char>, lo: int) -> Seq<char>
    decreases s.len(),
{
    if s.len() <= lo || lo < 0 {
        s
    } else {
        let seg = s.skip(dir_len(s));
        if seg.len() == 0 || seg == "."@ {
            proof {
                lemma_suffix_len_bound(s, not_slash());
            }
            trim_back(s.take(before_last(s, lo)), lo)
        } else {
            s
        }
    }
}

/// `Path::parent` on Unix: the path without its last component and the
/// separators and `.` segments before it; `None` for the root and the empty
/// path, and the empty path for a path of one component (`.` included).
pub open spec fn parent_path(s: Seq<char>) -> Option<Seq<char>> {
    let lo = body_start(s);
    let t = trim_back(s, lo);
    if t.len() > lo {
        Some(trim_back(t.take(before_last(t, lo)), lo))
    } else if s.len() > 0 && s[0] == '.' {
        Some(Seq::empty())
    } else {
        None
    }
}

/// `Path::file_name`: the last segment, skipping `.` segments; `None` when
/// the path ends in `..`, is the root, or has no segment.
pub open spec fn file_name(s: Seq<char>) -> Option<Seq<char>>
    decreases s.len(),
{
    let t = strip_slashes(s);
    let k = dir_len(t);
    let seg = t.skip(k);
    if seg.len() == 0 {
        None
    } else if seg == "."@ {
        if k == 0 {
            None
        } else {
            proof {
                lemma_suffix_len_bound(s, slash());
                lemma_suffix_len_bound(t, not_slash());
            }
            file_name(t.take(k))
        }
    } else if seg == ".."@ {
        None
    } else {
        Some(seg)
    }
}

pub proof fn lemma_suffix_len_bound(s: Seq<char>, p: spec_fn(char) -> bool)
    ensures
        suffix_len(s, p) <= s.len(),
    decreases s.len(),
{
    if s.len() > 0 && p(s.last()) {
        lemma_suffix_len_bound(s.drop_last(), p);
    }
}

/// The number of trailing characters of `v[..hi]` that are (or are not,
/// when `want` is false) a slash.
fn trailing(v: &Vec<char>, hi: usize, want: bool) -> (k: usize)
    requires
        hi <= v.len(),
    ensures
        k <= hi,
        want ==> k == suffix_len(v@.take(hi as int), slash()),
        !want ==> k == suffix_len(v@.take(hi as int), not_slash()),
{
    let ghost s = v@.take(hi as int);
    let ghost p = if want { slash() } else { not_slash() };
    let mut k: usize = 0;
    while k < hi && ((v[hi - 1 - k] == '/') == want)
        invariant
            k <= hi,
            hi <= v.len(),
            s == v@.take(hi as int),
            p == if want { slash() } else { not_slash() },
            forall|j: int| s.len() - k <= j < s.len() ==> #[trigger] p(s[j]),
        decreases hi - k,
    {
        assert(s[hi - 1 - k] == v@[hi - 1 - k]);
        k = k + 1;
    }
    proof {
        if k < hi {
            assert(s[s.len() - k - 1] == v@[hi - 1 - k]);
        }
        lemma_suffix_len(s, p, k as int);
    }
    k
}

/// `base.join(p)`, displayed.
pub fn join(base: &str, p: &str) -> (r: String)
    ensures
        r@ == join_path(base@, p@),
{
    let n = base.unicode_len();
    let absolute = p.unicode_len() > 0 && p.get_char(0) == '/';
    if absolute {
        return String::from_str(p);
    }
    proof {
        reveal_strlit("/");
    }
    let mut s = String::from_str(base);
    if n > 0 && base.get_char(n - 1) != '/' {
        push_char(&mut s, '/');
    }
    s.append(p);
    assert(s@ =~= join_path(base@, p@));
    s
}

/// The length of `trim_back(v[..hi], lo)`.
fn trim_end(v: &Vec<char>, hi: usize, lo: usize) -> (r: usize)
    requires
        hi <= v.len(),
        lo <= 1,
    ensures
        r <= hi,
        v@.take(r as int) == trim_back(v@.take(hi as int), lo as int),
{
    let mut h = hi;
    loop
        invariant
            h <= hi <= v.len(),
            lo <= 1,
            trim_back(v@.take(hi as int), lo as int) == trim_back(v@.take(h as int), lo as int),
        decreases h,
    {
        let ghost cur = v@.take(h as int);
        if h <= lo {
            return h;
        }
        let b = trailing(v, h, false);
        let d = h - b;
        proof {
            reveal_strlit(".");
            assert(dir_len(cur) == d);
            assert(cur.skip(d as int) =~= v@.subrange(d as int, h as int));
            if b == 1 {
                assert(cur.skip(d as int)[0] == v@[d as int]);
            }
        }
        if b == 0 || (b == 1 && v[d] == '.') {
            let nh = if d > lo {
                d - 1
            } else {
                d
            };
            proof {
                if b == 1 {
                    assert(cur.skip(d as int) =~= "."@);
                }
                assert(cur.take(before_last(cur, lo as int)) =~= v@.take(nh as int));
            }
            h = nh;
        } else {
            proof {
                if cur.skip(d as int) == "."@ {
                    assert(cur.skip(d as int).len() == 1);
                    assert(cur.skip(d as int)[0] == '.');
                }
            }
            return h;
        }
    }
}

/// `Path::parent`, displayed.
pub fn parent(s: &str) -> (r: Option<String>)
    ensures
        match parent_path(s@) {
            Some(p) => r matches Some(x) && x@ == p,
            None => r is None,
        },
{
    let v = chars_of(s);
    let n = v.len();
    let lo: usize = if n > 0 && v[0] == '/' {
        1
    } else if n > 0 && v[0] == '.' && (n == 1 || v[1] == '/') {
        1
    } else {
        0
    };
    assert(v@.take(n as int) =~= s@);
    let t = trim_end(&v, n, lo);
    if t > lo {
        let b = trailing(&v, t, false);
        let d = t - b;
        let r0 = if d > lo {
            d - 1
        } else {
            d
        };
        let r = trim_end(&v, r0, lo);
        proof {
            let tt = v@.take(t as int);
            assert(dir_len(tt) == d);
            assert(tt.take(before_last(tt, lo as int)) =~= v@.take(r0 as int));
            assert(v@.subrange(0, r as int) =~= v@.take(r as int));
        }
        Some(string_of_range(&v, 0, r))
    } else if n > 0 && v[0] == '.' {
        Some(String::new())
    } else {
        None
    }
}

/// `Path::file_name`, displayed.
pub fn file_name_of(s: &str) -> (r: Option<String>)
    ensures
        match file_name(s@) {
            Some(p) => r matches Some(x) && x@ == p,
            None => r is None,
        },
{
    let v = chars_of(s);
    let mut hi: usize = v.len();
    assert(v@.take(hi as int) =~= s@);
    loop
        invariant
            hi <= v.len(),
            v@ == s@,
            file_name(s@) == file_name(v@.take(hi as int)),
        decreases hi,
    {
        let ghost cur = v@.take(hi as int);
        let a = trailing(&v, hi, true);
        let tl = hi - a;
        let b = trailing(&v, tl, false);
        let k = tl - b;
        proof {
            let t = strip_slashes(cur);
            assert(t =~= v@.take(tl as int));
            assert(dir_len(t) == k);
            assert(t.skip(k as int) =~= v@.subrange(k as int, tl as int));
            assert(t.take(k as int) =~= v@.take(k as int));
        }
        if b == 0 {
            return None;
        }
        let seg = string_of_range(&v, k, tl);
        if str_eq(seg.as_str(), ".") {
            if k == 0 {
                return None;
            }
            hi = k;
        } else if str_eq(seg.as_str(), "..") {
            return None;
        } else {
            return Some(seg);
        }
    }
}

/// Where `cd path` goes from `cwd`: `..` is the parent (or `cwd` itself at
/// the root), `~` the home directory (or `cwd` when there is none), anything
/// else is joined to `cwd`.
pub open spec fn cd_target(path: Seq<char>, cwd: Seq<char>, home: Option<Seq<char>>) -> Seq<char> {
    if path == ".."@ {
        match parent_path(cwd) {
            Some(p) => p,
            None => cwd,
        }
    } else if path == "~"@ {
        match home {
            Some(h) => h,
            None => cwd,
        }
    } else {
        join_path(cwd, path)
    }
}

/// The directory that `cd path` asks for, before it is resolved.
pub fn change_dir_target(path: &str, cwd: &str, home: Option<&str>) -> (r: String)
    ensures
        r@ == cd_target(path@, cwd@, match home {
            Some(h) => Some(h@),
            None => None,
        }),
{
    proof {
        reveal_strlit("..");
        reveal_strlit("~");
    }
    if str_eq(path, "..") {
        match parent(cwd) {
            Some(p) => p,
            None => String::from_str(cwd),
        }
    } else if str_eq(path, "~") {
        match home {
            Some(h) => String::from_str(h),
            None => String::from_str(cwd),
        }
    } else {
        join(cwd, path)
    }
}

} // verus!
