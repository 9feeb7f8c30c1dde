use fluffy::encoding::base64_encode;

#[test]
fn base64_known_values() {
    assert_eq!(base64_encode(b""), "");
    assert_eq!(base64_encode(b"M"), "TQ==");
    assert_eq!(base64_encode(b"Ma"), "TWE=");
    assert_eq!(base64_encode(b"Man"), "TWFu");
    assert_eq!(base64_encode(b"hello world"), "aGVsbG8gd29ybGQ=");
    assert_eq!(base64_encode(&[0xff, 0xfe, 0xfd]), "//79");
}

#[test]
fn base64_length_is_four_per_three() {
    for n in 0..20usize {
        let data: Vec<u8> = (0..n as u8).collect();
        assert_eq!(base64_encode(&data).len(), 4 * ((n + 2) / 3));
    }
}

fn decode(s: &str) -> Vec<u8> {
    let val = |c: u8| -> u32 {
        match c {
            b'A'..=b'Z' => (c - b'A') as u32,
            b'a'..=b'z' => (c - b'a') as u32 + 26,
            b'0'..=b'9' => (c - b'0') as u32 + 52,
            b'+' => 62,
            _ => 63,
        }
    };
    let mut out = Vec::new();
    for g in s.as_bytes().chunks(4) {
        let n = (val(g[0]) << 18) | (val(g[1]) << 12) | (if g[2] == b'=' { 0 } else { val(g[2]) << 6 }) | (if g[3] == b'=' { 0 } else { val(g[3]) });
        out.push((n >> 16) as u8);
        if g[2] != b'=' {
            out.push((n >> 8) as u8);
        }
        if g[3] != b'=' {
            out.push(n as u8);
        }
    }
    out
}

#[test]
fn base64_decodes_back_and_uses_the_alphabet() {
    for len in 0..40usize {
        let data: Vec<u8> = (0..len).map(|i| (i * 37 + 11) as u8).collect();
        let e = base64_encode(&data);
        assert!(e.chars().all(|c| c.is_ascii_alphanumeric() || c == '+' || c == '/' || c == '='));
        assert_eq!(decode(&e), data);
    }
    assert_eq!(base64_encode(b"Man"), "TWFu");
    assert_eq!(base64_encode(b"Ma"), "TWE=");
    assert_eq!(base64_encode(b"M"), "TQ==");
}

#[test]
fn base64_padding_only_at_the_end() {
    for len in 0..20usize {
        let data: Vec<u8> = (0..len).map(|i| (i * 91 + 3) as u8).collect();
        let e = base64_encode(&data);
        for (k, c) in e.chars().enumerate() {
            if c == '=' {
                assert!(k + 2 >= e.len(), "{} at {}", e, k);
            }
        }
    }
}
