//! Base64 encoding of file contents for transfers (RFC 4648 alphabet, `=` padding).
use vstd::prelude::*;
use crate::text::push_char;

verus! {

/// The base64 alphabet: `A-Z`, `a-z`, `0-9`, `+`, `/`.
pub open spec fn b64_char(i: u32) -> char {
    if i < 26 {
        (('A' as u32) + i) as char
    } else if i < 52 {
        (('a' as u32) + i - 26) as char
    } else if i < 62 {
        (('0' as u32) + i - 52) as char
    } else if i == 62 {
        '+'
    } else {
        '/'
    }
}

/// The 24-bit group of the bytes at `i`, `i+1`, `i+2` (missing bytes are 0).
pub open spec fn triple_at(data: Seq<u8>, i: int) -> u32 {
    let b0 = data[i] as u32;
    let b1 = if i + 1 < data.len() { data[i + 1] as u32 } else { 0u32 };
    let b2 = if i + 2 < data.len() { data[i + 2] as u32 } else { 0u32 };
    (b0 << 16) | (b1 << 8) | b2
}

/// The four characters encoding the group that starts at byte `i`.
pub open spec fn b64_group(data: Seq<u8>, i: int) -> Seq<char> {
    let t = triple_at(data, i);
    seq![
        b64_char((t >> 18) & 0x3F),
        b64_char((t >> 12) & 0x3F),
        if i + 1 < data.len() { b64_char((t >> 6) & 0x3F) } else { '=' },
        if i + 2 < data.len() { b64_char(t & 0x3F) } else { '=' },
    ]
}

/// The encoding of `data` from byte `i` on, in groups of three bytes.
pub open spec fn b64_from(data: Seq<u8>, i: int) -> Seq<char>
    decreases data.len() + 3 - i,
{
    if i >= data.len() || i < 0 {
        Seq::empty()
    } else {
        b64_group(data, i) + b64_from(data, i + 3)
    }
}

/// The base64 encoding of `data`.
pub open spec fn spec_base64(data: Seq<u8>) -> Seq<char> {
    b64_from(data, 0)
}

fn b64_char_exec(i: u32) -> (c: char)
    requires
        i < 64,
    ensures
        c == b64_char(i),
{
    if i < 26 {
        (('A' as u8) + (i as u8)) as char
    } else if i < 52 {
        (('a' as u8) + (i as u8) - 26) as char
    } else if i < 62 {
        (('0' as u8) + (i as u8) - 52) as char
    } else if i == 62 {
        '+'
    } else {
        '/'
    }
}

/// Simple base64 encoding without external dependency.
pub fn base64_encode(data: &[u8]) -> (r: String)
    ensures
        r@ == spec_base64(data@),
{
    let mut result = String::new();
    let mut i: usize = 0;
    let n = data.len();
    while i < n
        invariant
            n == data@.len(),
            i <= n + 2,
            i % 3 == 0,
            result@ + b64_from(data@, i as int) == spec_base64(data@),
        decreases n + 3 - i,
    {
        let b0 = data[i] as u32;
        let b1 = if i + 1 < n {
            data[i + 1] as u32
        } else {
            0
        };
        let b2 = if i + 2 < n {
            data[i + 2] as u32
        } else {
            0
        };
        let triple = (b0 << 16) | (b1 << 8) | b2;
        assert(triple == triple_at(data@, i as int));
        assert((triple >> 18) & 0x3F < 64) by (bit_vector);
        assert((triple >> 12) & 0x3F < 64) by (bit_vector);
        assert((triple >> 6) & 0x3F < 64) by (bit_vector);
        assert(triple & 0x3F < 64) by (bit_vector);
        let ghost before = result@;
        push_char(&mut result, b64_char_exec((triple >> 18) & 0x3F));
        push_char(&mut result, b64_char_exec((triple >> 12) & 0x3F));
        if i + 1 < n {
            push_char(&mut result, b64_char_exec((triple >> 6) & 0x3F));
        } else {
            push_char(&mut result, '=');
        }
        if i + 2 < n {
            push_char(&mut result, b64_char_exec(triple & 0x3F));
        } else {
            push_char(&mut result, '=');
        }
        assert(result@ =~= before + b64_group(data@, i as int));
        i = i + 3;
    }
    result
}

/// Every group of up to three bytes becomes four characters.
pub proof fn lemma_base64_len(data: Seq<u8>)
    ensures
        spec_base64(data).len() == 4 * ((data.len() + 2) / 3),
{
    lemma_b64_from_len(data, 0);
}

proof fn lemma_b64_from_len(data: Seq<u8>, i: int)
    requires
        0 <= i,
        i % 3 == 0,
    ensures
        b64_from(data, i).len() == if i >= data.len() {
            0
        } else {
            4 * ((data.len() - i + 2) / 3)
        },
    decreases data.len() + 3 - i,
{
    if i < data.len() {
        lemma_b64_from_len(data, i + 3);
    }
}


/// A character of the base64 alphabet.
pub open spec fn is_b64_char(c: char) -> bool {
    ('A' <= c && c <= 'Z') || ('a' <= c && c <= 'z') || ('0' <= c && c <= '9') || c == '+' || c == '/'
}

/// The value of a base64 character (RFC 4648).
pub open spec fn b64_value(c: char) -> u32 {
    if 'A' <= c && c <= 'Z' {
        (c as u32 - 'A' as u32) as u32
    } else if 'a' <= c && c <= 'z' {
        (c as u32 - 'a' as u32 + 26) as u32
    } else if '0' <= c && c <= '9' {
        (c as u32 - '0' as u32 + 52) as u32
    } else if c == '+' {
        62
    } else {
        63
    }
}

/// The bytes a group of four characters stands for: one byte when the
/// third is `=`, two when only the fourth is, else three.
pub open spec fn b64_decode_group(g: Seq<char>) -> Seq<u8> {
    let s0 = b64_value(g[0]);
    let s1 = b64_value(g[1]);
    let s2 = b64_value(g[2]);
    let s3 = b64_value(g[3]);
    let b0 = (((s0 << 2) | (s1 >> 4)) & 0xFF) as u8;
    let b1 = ((((s1 & 15) << 4) | (s2 >> 2)) & 0xFF) as u8;
    let b2 = ((((s2 & 3) << 6) | s3) & 0xFF) as u8;
    if g[2] == '=' {
        seq![b0]
    } else if g[3] == '=' {
        seq![b0, b1]
    } else {
        seq![b0, b1, b2]
    }
}

/// RFC 4648 base64 decoding of a text made of whole groups of four.
pub open spec fn b64_decode(s: Seq<char>) -> Seq<u8>
    decreases s.len(),
{
    if s.len() < 4 {
        Seq::empty()
    } else {
        b64_decode_group(s.take(4)) + b64_decode(s.skip(4))
    }
}

proof fn lemma_b64_char(i: u32)
    requires
        i < 64,
    ensures
        is_b64_char(b64_char(i)),
        b64_char(i) != '=',
        b64_value(b64_char(i)) == i,
{
}

proof fn lemma_b64_group(data: Seq<u8>, i: int)
    requires
        0 <= i < data.len(),
    ensures
        b64_decode_group(b64_group(data, i)) == data.subrange(i, if i + 3 <= data.len() { i + 3 } else { data.len() as int }),
        forall|k: int| 0 <= k < 4 ==> is_b64_char(#[trigger] b64_group(data, i)[k]) || b64_group(data, i)[k] == '=',
        b64_group(data, i)[0] != '=',
        b64_group(data, i)[1] != '=',
        i + 1 < data.len() ==> b64_group(data, i)[2] != '=',
        i + 2 < data.len() ==> b64_group(data, i)[3] != '=',
{
    let b0 = data[i] as u32;
    let b1 = if i + 1 < data.len() { data[i + 1] as u32 } else { 0u32 };
    let b2 = if i + 2 < data.len() { data[i + 2] as u32 } else { 0u32 };
    let t = triple_at(data, i);
    assert(t == (b0 << 16) | (b1 << 8) | b2);
    assert(((t >> 18) & 0x3F) < 64 && ((t >> 12) & 0x3F) < 64 && ((t >> 6) & 0x3F) < 64 && (t & 0x3F) < 64) by (bit_vector);
    lemma_b64_char((t >> 18) & 0x3F);
    lemma_b64_char((t >> 12) & 0x3F);
    lemma_b64_char((t >> 6) & 0x3F);
    lemma_b64_char(t & 0x3F);
    let s0 = (t >> 18) & 0x3F;
    let s1 = (t >> 12) & 0x3F;
    let s2 = (t >> 6) & 0x3F;
    let s3 = t & 0x3F;
    assert((((s0 << 2) | (s1 >> 4)) & 0xFF) == b0 && ((((s1 & 15) << 4) | (s2 >> 2)) & 0xFF) == b1
        && ((((s2 & 3) << 6) | s3) & 0xFF) == b2) by (bit_vector)
        requires
            b0 < 256,
            b1 < 256,
            b2 < 256,
            t == (b0 << 16) | (b1 << 8) | b2,
            s0 == (t >> 18) & 0x3F,
            s1 == (t >> 12) & 0x3F,
            s2 == (t >> 6) & 0x3F,
            s3 == t & 0x3F,
    ;
    let g = b64_group(data, i);
    let r = b64_decode_group(g);
    let hi = if i + 3 <= data.len() { i + 3 } else { data.len() as int };
    assert(r =~= data.subrange(i, hi));
}

/// Base64 as RFC 4648 reads it: the encoding is made of alphabet
/// characters and `=`, and decoding it gives the bytes back.
pub proof fn law_base64_decodes(data: Seq<u8>)
    ensures
        forall|k: int| 0 <= k < spec_base64(data).len() ==> is_b64_char(#[trigger] spec_base64(data)[k]) || spec_base64(data)[k] == '=',
        b64_decode(spec_base64(data)) == data,
{
    lemma_b64_from_decodes(data, 0);
    assert(data.skip(0) =~= data);
}

proof fn lemma_b64_from_decodes(data: Seq<u8>, i: int)
    requires
        0 <= i,
    ensures
        forall|k: int| 0 <= k < b64_from(data, i).len() ==> is_b64_char(#[trigger] b64_from(data, i)[k]) || b64_from(data, i)[k] == '=',
        b64_decode(b64_from(data, i)) == if i < data.len() { data.skip(i) } else { Seq::<u8>::empty() },
    decreases data.len() + 3 - i,
{
    if i < data.len() {
        lemma_b64_from_decodes(data, i + 3);
        lemma_b64_group(data, i);
        let g = b64_group(data, i);
        let r = b64_from(data, i + 3);
        let e = g + r;
        assert(e.take(4) =~= g);
        assert(e.skip(4) =~= r);
        assert forall|k: int| 0 <= k < e.len() implies is_b64_char(#[trigger] e[k]) || e[k] == '=' by {
            if k < 4 {
                assert(e[k] == g[k]);
            } else {
                assert(e[k] == r[k - 4]);
            }
        }
        let hi = if i + 3 <= data.len() { i + 3 } else { data.len() as int };
        if i + 3 < data.len() {
            assert(data.subrange(i, hi) + data.skip(i + 3) =~= data.skip(i));
        } else {
            assert(data.subrange(i, hi) + Seq::<u8>::empty() =~= data.skip(i));
        }
    }
}

/// Padding comes last: a `=` stands only in the last two places of the
/// encoding.
pub proof fn law_base64_padding_at_end(data: Seq<u8>)
    ensures
        forall|k: int|
            0 <= k < spec_base64(data).len() && #[trigger] spec_base64(data)[k] == '=' ==> k
                >= spec_base64(data).len() - 2,
{
    lemma_b64_from_padding(data, 0);
}

proof fn lemma_b64_from_padding(data: Seq<u8>, i: int)
    requires
        0 <= i,
    ensures
        forall|k: int|
            0 <= k < b64_from(data, i).len() && #[trigger] b64_from(data, i)[k] == '=' ==> k
                >= b64_from(data, i).len() - 2,
    decreases data.len() + 3 - i,
{
    if i < data.len() {
        lemma_b64_from_padding(data, i + 3);
        lemma_b64_group(data, i);
        let g = b64_group(data, i);
        let r = b64_from(data, i + 3);
        let e = g + r;
        assert(b64_from(data, i) == e);
        assert forall|k: int| 0 <= k < e.len() && #[trigger] e[k] == '=' implies k >= e.len() - 2 by {
            if k < 4 {
                assert(e[k] == g[k]);
                if i + 3 < data.len() {
                    assert(false);
                } else {
                    assert(r.len() == 0);
                }
            } else {
                assert(e[k] == r[k - 4]);
            }
        }
    }
}

} // verus!
