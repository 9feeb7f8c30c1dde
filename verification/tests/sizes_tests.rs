use fluffy::sizes::{format_bytes, format_size};

fn float_size(bytes: u64) -> String {
    const KB: u64 = 1024;
    const MB: u64 = 1024 * KB;
    const GB: u64 = 1024 * MB;
    if bytes >= GB {
        format!("{:.1} GB", bytes as f64 / GB as f64)
    } else if bytes >= MB {
        format!("{:.1} MB", bytes as f64 / MB as f64)
    } else if bytes >= KB {
        format!("{:.1} KB", bytes as f64 / KB as f64)
    } else {
        format!("{} B", bytes)
    }
}

fn float_bytes(bytes: u64) -> String {
    const TB: u64 = 1024 * 1024 * 1024 * 1024;
    if bytes >= TB {
        format!("{:.1} TB", bytes as f64 / TB as f64)
    } else {
        float_size(bytes)
    }
}

#[test]
fn size_exact_values() {
    assert_eq!(format_size(0), "0 B");
    assert_eq!(format_size(1023), "1023 B");
    assert_eq!(format_size(1024), "1.0 KB");
    assert_eq!(format_size(1536), "1.5 KB");
    assert_eq!(format_size(1048576), "1.0 MB");
    assert_eq!(format_size(1073741824), "1.0 GB");
    assert_eq!(format_bytes(1099511627776), "1.0 TB");
    assert_eq!(format_bytes(1073741824), "1.0 GB");
}

#[test]
fn size_ties_round_to_even() {
    // 1.25 KB and 1.75 KB are exact ties in tenths.
    assert_eq!(format_size(1280), float_size(1280));
    assert_eq!(format_size(1792), float_size(1792));
    assert_eq!(format_size(1280), "1.2 KB");
    assert_eq!(format_size(1792), "1.8 KB");
}

#[test]
fn size_matches_float_formatting_small() {
    for b in 0u64..300_000 {
        assert_eq!(format_size(b), float_size(b), "bytes {}", b);
    }
}

#[test]
fn size_matches_float_formatting_wide() {
    let mut x: u64 = 0x9E37_79B9_7F4A_7C15;
    for _ in 0..200_000 {
        x = x.wrapping_mul(6364136223846793005).wrapping_add(1442695040888963407);
        let shift = (x >> 58) as u32;
        let b = x >> shift;
        assert_eq!(format_size(b), float_size(b), "bytes {}", b);
        assert_eq!(format_bytes(b), float_bytes(b), "bytes {}", b);
    }
    for b in [u64::MAX, u64::MAX - 1, 1u64 << 63, (1u64 << 53) + 1, (1u64 << 54) + 3] {
        assert_eq!(format_size(b), float_size(b), "bytes {}", b);
        assert_eq!(format_bytes(b), float_bytes(b), "bytes {}", b);
    }
}
