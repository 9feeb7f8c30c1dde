//! Character-level text utilities shared by the parsers and formatters.
//!
//! Text is modelled as `Seq<char>`, the view of `str` and `String`.
use vstd::prelude::*;

verus! {

/// `char::is_whitespace`: membership in the Unicode `White_Space` property.
pub open spec fn is_ws(c: char) -> bool {
    ||| ('\u{9}' <= c && c <= '\u{d}')
    ||| c == ' '
    ||| c == '\u{85}'
    ||| c == '\u{a0}'
    ||| c == '\u{1680}'
    ||| ('\u{2000}' <= c && c <= '\u{200a}')
    ||| c == '\u{2028}'
    ||| c == '\u{2029}'
    ||| c == '\u{202f}'
    ||| c == '\u{205f}'
    ||| c == '\u{3000}'
}

pub open spec fn ws_pred() -> spec_fn(char) -> bool {
    |c: char| is_ws(c)
}

pub open spec fn non_ws_pred() -> spec_fn(char) -> bool {
    |c: char| !is_ws(c)
}

pub open spec fn char_pred(x: char) -> spec_fn(char) -> bool {
    |c: char| c == x
}

/// Number of leading characters of `s` that satisfy `p`.
pub open spec fn prefix_len<A>(s: Seq<A>, p: spec_fn(A) -> bool) -> nat
    decreases s.len(),
{
    if s.len() > 0 && p(s[0]) {
        1 + prefix_len(s.drop_first(), p)
    } else {
        0
    }
}

/// Number of trailing characters of `s` that satisfy `p`.
pub open spec fn suffix_len(s: Seq<char>, p: spec_fn(char) -> bool) -> nat
    decreases s.len(),
{
    if s.len() > 0 && p(s.last()) {
        1 + suffix_len(s.drop_last(), p)
    } else {
        0
    }
}

/// `s` with every leading and trailing character satisfying `p` removed
/// (`str::trim_matches` with a predicate).
pub open spec fn trim_by(s: Seq<char>, p: spec_fn(char) -> bool) -> Seq<char> {
    let f = s.skip(prefix_len(s, p) as int);
    f.take(f.len() - suffix_len(f, p))
}

/// `str::trim`.
pub open spec fn spec_trim(s: Seq<char>) -> Seq<char> {
    trim_by(s, ws_pred())
}

/// `str::trim_matches` with a single character.
pub open spec fn spec_trim_char(s: Seq<char>, c: char) -> Seq<char> {
    trim_by(s, char_pred(c))
}

pub proof fn lemma_prefix_len<A>(s: Seq<A>, p: spec_fn(A) -> bool, k: int)
    requires
        0 <= k <= s.len(),
        forall|j: int| 0 <= j < k ==> #[trigger] p(s[j]),
        k < s.len() ==> !p(s[k]),
    ensures
        prefix_len(s, p) == k,
    decreases k,
{
    if k > 0 {
        let t = s.drop_first();
        assert forall|j: int| 0 <= j < k - 1 implies #[trigger] p(t[j]) by {
            assert(t[j] == s[j + 1]);
        }
        if k - 1 < t.len() {
            assert(t[k - 1] == s[k]);
        }
        lemma_prefix_len(t, p, k - 1);
    }
}

pub proof fn lemma_suffix_len(s: Seq<char>, p: spec_fn(char) -> bool, k: int)
    requires
        0 <= k <= s.len(),
        forall|j: int| s.len() - k <= j < s.len() ==> #[trigger] p(s[j]),
        k < s.len() ==> !p(s[s.len() - k - 1]),
    ensures
        suffix_len(s, p) == k,
    decreases k,
{
    if k > 0 {
        let t = s.drop_last();
        assert(p(s[s.len() - 1]));
        assert forall|j: int| t.len() - (k - 1) <= j < t.len() implies #[trigger] p(t[j]) by {
            assert(t[j] == s[j]);
        }
        if k - 1 < t.len() {
            assert(t[t.len() - (k - 1) - 1] == s[s.len() - k - 1]);
        }
        lemma_suffix_len(t, p, k - 1);
    }
}

/// `String::push`.
#[verifier::external_body]
pub(crate) fn push_char(s: &mut String, c: char)
    ensures
        final(s)@ == old(s)@.push(c),
{
    s.push(c);
}

/// The characters of `s`, in order.
pub fn chars_of(s: &str) -> (v: Vec<char>)
    ensures
        v@ == s@,
{
    let n = s.unicode_len();
    let mut v: Vec<char> = Vec::new();
    let mut i: usize = 0;
    while i < n
        invariant
            n == s@.len(),
            i <= n,
            v@ == s@.take(i as int),
        decreases n - i,
    {
        let c = s.get_char(i);
        v.push(c);
        i = i + 1;
        assert(v@ =~= s@.take(i as int));
    }
    assert(v@ =~= s@);
    v
}

/// A `String` holding `v[lo..hi]`.
pub fn string_of_range(v: &Vec<char>, lo: usize, hi: usize) -> (s: String)
    requires
        lo <= hi <= v.len(),
    ensures
        s@ == v@.subrange(lo as int, hi as int),
{
    let mut s = String::new();
    let mut i = lo;
    while i < hi
        invariant
            lo <= i <= hi <= v.len(),
            s@ == v@.subrange(lo as int, i as int),
        decreases hi - i,
    {
        push_char(&mut s, v[i]);
        i = i + 1;
        assert(s@ =~= v@.subrange(lo as int, i as int));
    }
    s
}

pub fn is_ws_char(c: char) -> (r: bool)
    ensures
        r == is_ws(c),
{
    ('\u{9}' <= c && c <= '\u{d}') || c == ' ' || c == '\u{85}' || c == '\u{a0}' || c
        == '\u{1680}' || ('\u{2000}' <= c && c <= '\u{200a}') || c == '\u{2028}' || c
        == '\u{2029}' || c == '\u{202f}' || c == '\u{205f}' || c == '\u{3000}'
}

/// Bounds `(a, b)` such that `v[a..b]` is `v[lo..hi]` trimmed of whitespace.
pub fn trim_range(v: &Vec<char>, lo: usize, hi: usize) -> (r: (usize, usize))
    requires
        lo <= hi <= v.len(),
    ensures
        lo <= r.0 <= r.1 <= hi,
        v@.subrange(r.0 as int, r.1 as int) == spec_trim(v@.subrange(lo as int, hi as int)),
{
    trim_range_by(v, lo, hi, None)
}

/// Bounds `(a, b)` such that `v[a..b]` is `v[lo..hi]` trimmed of the character `c`.
pub fn trim_char_range(v: &Vec<char>, lo: usize, hi: usize, c: char) -> (r: (usize, usize))
    requires
        lo <= hi <= v.len(),
    ensures
        lo <= r.0 <= r.1 <= hi,
        v@.subrange(r.0 as int, r.1 as int) == spec_trim_char(v@.subrange(lo as int, hi as int), c),
{
    trim_range_by(v, lo, hi, Some(c))
}

spec fn pred_of(c: Option<char>) -> spec_fn(char) -> bool {
    match c {
        Some(x) => char_pred(x),
        None => ws_pred(),
    }
}

fn pred_holds(c: Option<char>, x: char) -> (r: bool)
    ensures
        r == pred_of(c)(x),
{
    match c {
        Some(y) => x == y,
        None => is_ws_char(x),
    }
}

fn trim_range_by(v: &Vec<char>, lo: usize, hi: usize, c: Option<char>) -> (r: (usize, usize))
    requires
        lo <= hi <= v.len(),
    ensures
        lo <= r.0 <= r.1 <= hi,
        v@.subrange(r.0 as int, r.1 as int) == trim_by(v@.subrange(lo as int, hi as int), pred_of(c)),
{
    let ghost p = pred_of(c);
    let ghost s = v@.subrange(lo as int, hi as int);
    let mut a = lo;
    while a < hi && pred_holds(c, v[a])
        invariant
            lo <= a <= hi <= v.len(),
            p == pred_of(c),
            forall|j: int| lo <= j < a ==> #[trigger] p(v@[j]),
        decreases hi - a,
    {
        a = a + 1;
    }
    proof {
        assert forall|j: int| 0 <= j < a - lo implies #[trigger] p(s[j]) by {
            assert(s[j] == v@[lo + j]);
        }
        if a < hi {
            assert(s[a - lo] == v@[a as int]);
        }
        lemma_prefix_len(s, p, a - lo);
        assert(s.skip(a - lo) =~= v@.subrange(a as int, hi as int));
    }
    let ghost f = v@.subrange(a as int, hi as int);
    let mut b = hi;
    while b > a && pred_holds(c, v[b - 1])
        invariant
            lo <= a <= b <= hi <= v.len(),
            p == pred_of(c),
            forall|j: int| b <= j < hi ==> #[trigger] p(v@[j]),
        decreases b - a,
    {
        b = b - 1;
    }
    proof {
        assert forall|j: int| f.len() - (hi - b) <= j < f.len() implies #[trigger] p(f[j]) by {
            assert(f[j] == v@[a + j]);
        }
        if hi - b < f.len() {
            assert(f[f.len() - (hi - b) - 1] == v@[b - 1]);
        }
        lemma_suffix_len(f, p, hi - b);
        assert(f.take(f.len() - (hi - b)) =~= v@.subrange(a as int, b as int));
    }
    (a, b)
}

/// The decimal digit character for `d < 10`.
pub open spec fn digit_char(d: nat) -> char {
    ((d + '0' as nat) as u32) as char
}

/// The decimal representation of `n`, without leading zeros.
pub open spec fn decimal(n: nat) -> Seq<char>
    decreases n,
{
    if n < 10 {
        seq![digit_char(n)]
    } else {
        decimal(n / 10).push(digit_char(n % 10))
    }
}

fn digit_char_exec(d: u64) -> (c: char)
    requires
        d < 10,
    ensures
        c == digit_char(d as nat),
{
    if d == 0 {
        '0'
    } else if d == 1 {
        '1'
    } else if d == 2 {
        '2'
    } else if d == 3 {
        '3'
    } else if d == 4 {
        '4'
    } else if d == 5 {
        '5'
    } else if d == 6 {
        '6'
    } else if d == 7 {
        '7'
    } else if d == 8 {
        '8'
    } else {
        '9'
    }
}

/// Appends the decimal representation of `n` to `s` (as `{}` formats it).
pub fn push_decimal(s: &mut String, n: u64)
    ensures
        final(s)@ == old(s)@ + decimal(n as nat),
    decreases n,
{
    if n < 10 {
        push_char(s, digit_char_exec(n));
    } else {
        push_decimal(s, n / 10);
        push_char(s, digit_char_exec(n % 10));
    }
}

/// Whether two strings are equal.
pub fn str_eq(a: &str, b: &str) -> (r: bool)
    ensures
        r == (a@ == b@),
{
    let n = a.unicode_len();
    let m = b.unicode_len();
    if n != m {
        return false;
    }
    let mut i: usize = 0;
    while i < n
        invariant
            n == a@.len(),
            m == b@.len(),
            n == m,
            i <= n,
            forall|j: int| 0 <= j < i ==> a@[j] == b@[j],
        decreases n - i,
    {
        if a.get_char(i) != b.get_char(i) {
            return false;
        }
        i = i + 1;
    }
    assert(a@ =~= b@);
    true
}

pub open spec fn not_newline_pred() -> spec_fn(char) -> bool {
    |c: char| c != '\n'
}

/// A line without its `\r` terminator, if it has one.
pub open spec fn strip_cr(x: Seq<char>) -> Seq<char> {
    if x.len() > 0 && x.last() == '\r' {
        x.drop_last()
    } else {
        x
    }
}

/// `str::lines`: the text split at `\n`, each line without a `\r` that
/// precedes its `\n`; a final line ending adds no empty line.
pub open spec fn spec_lines(s: Seq<char>) -> Seq<Seq<char>>
    decreases s.len(),
{
    if s.len() == 0 {
        Seq::empty()
    } else {
        let k = prefix_len(s, not_newline_pred());
        if k >= s.len() {
            seq![s]
        } else {
            seq![strip_cr(s.take(k as int))] + spec_lines(s.skip(k + 1 as int))
        }
    }
}

pub proof fn lemma_prefix_len_bound<A>(s: Seq<A>, p: spec_fn(A) -> bool)
    ensures
        prefix_len(s, p) <= s.len(),
    decreases s.len(),
{
    if s.len() > 0 && p(s[0]) {
        lemma_prefix_len_bound(s.drop_first(), p);
    }
}

/// The lines of `v[lo..]`, as separate strings.
pub fn lines_of(v: &Vec<char>, lo: usize) -> (r: Vec<String>)
    requires
        lo <= v.len(),
    ensures
        r@.len() == spec_lines(v@.skip(lo as int)).len(),
        forall|i: int| 0 <= i < r@.len() ==> #[trigger] r@[i]@ == spec_lines(v@.skip(lo as int))[i],
    decreases v.len() - lo,
{
    let ghost s = v@.skip(lo as int);
    if lo == v.len() {
        return Vec::new();
    }
    let mut k = lo;
    while k < v.len() && v[k] != '\n'
        invariant
            lo <= k <= v.len(),
            forall|j: int| lo <= j < k ==> v@[j] != '\n',
        decreases v.len() - k,
    {
        k = k + 1;
    }
    proof {
        assert forall|j: int| 0 <= j < k - lo implies #[trigger] not_newline_pred()(s[j]) by {
            assert(s[j] == v@[lo + j]);
        }
        if k < v.len() {
            assert(s[k - lo] == v@[k as int]);
        }
        lemma_prefix_len(s, not_newline_pred(), k - lo);
    }
    if k == v.len() {
        let mut r = Vec::new();
        r.push(string_of_range(v, lo, k));
        assert(v@.subrange(lo as int, k as int) =~= s);
        return r;
    }
    let end = if k > lo && v[k - 1] == '\r' {
        k - 1
    } else {
        k
    };
    assert(s.take(k - lo) =~= v@.subrange(lo as int, k as int));
    assert(strip_cr(s.take(k - lo)) =~= v@.subrange(lo as int, end as int));
    let first = string_of_range(v, lo, end);
    let rest = lines_of(v, k + 1);
    assert(s.skip(k - lo + 1) =~= v@.skip(k + 1));
    let mut r = Vec::new();
    r.push(first);
    let mut i: usize = 0;
    let ghost rl = spec_lines(v@.skip(k + 1));
    while i < rest.len()
        invariant
            i <= rest@.len(),
            rest@.len() == rl.len(),
            forall|j: int| 0 <= j < rest@.len() ==> #[trigger] rest@[j]@ == rl[j],
            r@.len() == i + 1,
            r@[0]@ == v@.subrange(lo as int, end as int),
            forall|j: int| 0 <= j < i ==> #[trigger] r@[j + 1]@ == rl[j],
        decreases rest.len() - i,
    {
        r.push(rest[i].clone());
        i = i + 1;
    }
    proof {
        let full = spec_lines(s);
        assert(full =~= seq![strip_cr(s.take(k - lo))] + rl);
        assert forall|j: int| 0 <= j < r@.len() implies #[trigger] r@[j]@ == full[j] by {
            if j > 0 {
                assert(r@[(j - 1) + 1]@ == rl[j - 1]);
            }
        }
    }
    r
}

/// `n` spaces.
pub open spec fn spaces(n: nat) -> Seq<char> {
    Seq::new(n, |i: int| ' ')
}

/// `format!("{:<w$}", s)`: `s` padded on the right with spaces to `w` characters.
pub open spec fn pad_right(s: Seq<char>, w: nat) -> Seq<char> {
    if s.len() >= w {
        s
    } else {
        s + spaces((w - s.len()) as nat)
    }
}

/// `format!("{:>w$}", s)`: `s` padded on the left with spaces to `w` characters.
pub open spec fn pad_left(s: Seq<char>, w: nat) -> Seq<char> {
    if s.len() >= w {
        s
    } else {
        spaces((w - s.len()) as nat) + s
    }
}

/// Appends `n` spaces.
pub fn push_spaces(out: &mut String, n: usize)
    ensures
        final(out)@ == old(out)@ + spaces(n as nat),
{
    let mut i: usize = 0;
    while i < n
        invariant
            i <= n,
            out@ == old(out)@ + spaces(i as nat),
        decreases n - i,
    {
        push_char(out, ' ');
        i = i + 1;
        assert(out@ =~= old(out)@ + spaces(i as nat));
    }
}

/// Appends `s` padded on the right to `w` characters.
pub fn push_padded_right(out: &mut String, s: &str, w: usize)
    ensures
        final(out)@ == old(out)@ + pad_right(s@, w as nat),
{
    let n = s.unicode_len();
    out.append(s);
    if n < w {
        push_spaces(out, w - n);
    }
    assert(final(out)@ =~= old(out)@ + pad_right(s@, w as nat)) by {
        if n < w {
            assert(old(out)@ + s@ + spaces((w - n) as nat) =~= old(out)@ + (s@ + spaces((w - n) as nat)));
        }
    }
}

/// Appends `s` padded on the left to `w` characters.
pub fn push_padded_left(out: &mut String, s: &str, w: usize)
    ensures
        final(out)@ == old(out)@ + pad_left(s@, w as nat),
{
    let n = s.unicode_len();
    if n < w {
        push_spaces(out, w - n);
    }
    out.append(s);
    assert(final(out)@ =~= old(out)@ + pad_left(s@, w as nat)) by {
        if n < w {
            assert(old(out)@ + spaces((w - n) as nat) + s@ =~= old(out)@ + (spaces((w - n) as nat) + s@));
        }
    }
}

/// The decimal representation of a signed number (`{}` of an integer).
pub open spec fn signed_decimal(x: int) -> Seq<char> {
    if x < 0 {
        seq!['-'] + decimal((-x) as nat)
    } else {
        decimal(x as nat)
    }
}

/// Appends the decimal representation of `x`.
pub fn push_signed_decimal(s: &mut String, x: i64)
    ensures
        final(s)@ == old(s)@ + signed_decimal(x as int),
{
    if x < 0 {
        push_char(s, '-');
        let m: u64 = if x == i64::MIN {
            0x8000_0000_0000_0000u64
        } else {
            (-x) as u64
        };
        push_decimal(s, m);
        assert(final(s)@ =~= old(s)@ + signed_decimal(x as int));
    } else {
        push_decimal(s, x as u64);
    }
}

/// `char::len_utf8`: the number of bytes of the UTF-8 encoding of `c`.
pub open spec fn char_len(c: char) -> nat {
    let v = c as u32;
    if v <= 0x7F {
        1
    } else if v <= 0x7FF {
        2
    } else if v <= 0xFFFF {
        3
    } else {
        4
    }
}

/// The number of UTF-8 bytes of `s`.
pub open spec fn utf8_len(s: Seq<char>) -> nat
    decreases s.len(),
{
    if s.len() == 0 {
        0
    } else {
        char_len(s[0]) + utf8_len(s.drop_first())
    }
}

/// The byte length of a text (`str::len`) is the sum of its characters' lengths.
pub proof fn lemma_utf8_len(s: Seq<char>)
    ensures
        vstd::utf8::encode_utf8(s).len() == utf8_len(s),
    decreases s.len(),
{
    if s.len() > 0 {
        lemma_utf8_len(s.drop_first());
        vstd::utf8::char_is_scalar(s[0]);
    }
}

/// The number of leading characters of `s` that fit in `keep` bytes.
pub open spec fn fit_chars(s: Seq<char>, keep: int) -> nat
    decreases s.len(),
{
    if s.len() == 0 || char_len(s[0]) > keep {
        0
    } else {
        1 + fit_chars(s.drop_first(), keep - char_len(s[0]))
    }
}

pub fn char_len_exec(c: char) -> (n: usize)
    ensures
        n == char_len(c),
{
    let v = c as u32;
    if v <= 0x7F {
        1
    } else if v <= 0x7FF {
        2
    } else if v <= 0xFFFF {
        3
    } else {
        4
    }
}

/// Whether the text takes more than `limit` bytes (`s.len() > limit`).
pub fn longer_than_bytes(s: &str, limit: usize) -> (r: bool)
    ensures
        r == (utf8_len(s@) > limit),
{
    let v = chars_of(s);
    let n = v.len();
    let mut i: usize = 0;
    let mut acc: usize = 0;
    assert(s@.skip(0) =~= s@);
    while i < n
        invariant
            i <= n,
            n == s@.len(),
            v@ == s@,
            acc <= limit,
            utf8_len(s@) == acc + utf8_len(s@.skip(i as int)),
        decreases n - i,
    {
        let c = char_len_exec(v[i]);
        proof {
            let t = s@.skip(i as int);
            assert(t[0] == v@[i as int]);
            assert(t.drop_first() =~= s@.skip(i + 1));
        }
        if c > limit - acc {
            return true;
        }
        acc = acc + c;
        i = i + 1;
    }
    assert(s@.skip(n as int).len() == 0);
    false
}

/// The longest prefix of `s` that fits in `keep` bytes (`&s[..keep]` when
/// `keep` lies on a character boundary).
pub fn prefix_within_bytes(s: &str, keep: usize) -> (r: String)
    ensures
        r@ == s@.take(fit_chars(s@, keep as int) as int),
{
    let v = chars_of(s);
    let n = v.len();
    let mut i: usize = 0;
    let mut acc: usize = 0;
    assert(s@.skip(0) =~= s@);
    while i < n && char_len_exec(v[i]) <= keep - acc
        invariant
            i <= n,
            n == s@.len(),
            v@ == s@,
            acc <= keep,
            fit_chars(s@, keep as int) == i + fit_chars(s@.skip(i as int), keep - acc),
        decreases n - i,
    {
        let ghost rest = s@.skip(i as int);
        assert(rest[0] == s@[i as int]);
        assert(rest.drop_first() =~= s@.skip(i + 1));
        acc = acc + char_len_exec(v[i]);
        i = i + 1;
    }
    proof {
        let rest = s@.skip(i as int);
        if i < n {
            assert(rest[0] == s@[i as int]);
        }
        assert(fit_chars(rest, keep - acc) == 0);
    }
    string_of_range(&v, 0, i)
}

} // verus!
