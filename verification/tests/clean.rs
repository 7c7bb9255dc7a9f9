use ghr::clean::human_size;

#[test]
fn formats_bytes_without_decimals() {
    assert_eq!(human_size(0), "0 B");
    assert_eq!(human_size(512), "512 B");
    assert_eq!(human_size(1023), "1023 B");
}

#[test]
fn formats_larger_units_with_one_decimal() {
    assert_eq!(human_size(1024), "1.0 KiB");
    assert_eq!(human_size(1536), "1.5 KiB");
    assert_eq!(human_size(1024 * 1024), "1.0 MiB");
    assert_eq!(human_size(5 * 1024 * 1024 + 512 * 1024), "5.5 MiB");
    assert_eq!(human_size(1024u64.pow(3)), "1.0 GiB");
}

/// The size as floating point numbers give it.
fn by_float(bytes: u64) -> String {
    let units = ["B", "KiB", "MiB", "GiB", "TiB"];
    let mut size = bytes as f64;
    let mut unit = 0;
    while size >= 1024.0 && unit < units.len() - 1 {
        size /= 1024.0;
        unit += 1;
    }
    if unit == 0 {
        format!("{bytes} B")
    } else {
        format!("{size:.1} {}", units[unit])
    }
}

#[test]
fn sizes_agree_with_floating_point() {
    let mut sizes: Vec<u64> = vec![
        1024 + 51, 1280, 1331, 1382, 1433, 1484, 1792, 10_000, 1_048_575, 1_048_576, 1_073_741_823,
        1_099_511_627_775, 1_099_511_627_776, u64::MAX, u64::MAX - 1, 1 << 53, (1 << 53) + 1,
        (1 << 53) + 3, (1 << 63) + 1024, (1 << 63) + 1025, (1 << 63) - 512, (1 << 63) - 513,
    ];
    let mut x: u64 = 88_172_645_463_325_252;
    for _ in 0..2000 {
        x ^= x << 13;
        x ^= x >> 7;
        x ^= x << 17;
        sizes.push(x);
        sizes.push(x >> (x % 60));
        sizes.push((x % 1024) * 1024 + 1024 / 20 * (x % 20));
    }
    for s in sizes {
        assert_eq!(human_size(s), by_float(s));
    }
}

#[test]
fn whole_units_have_no_fraction() {
    assert_eq!(human_size(7 * 1024), "7.0 KiB");
    assert_eq!(human_size(1023 * 1024 * 1024), "1023.0 MiB");
    assert_eq!(human_size(3 * 1024u64.pow(4)), "3.0 TiB");
}

#[test]
fn halves_go_to_the_even_tenth() {
    assert_eq!(human_size(1280), "1.2 KiB");
    assert_eq!(human_size(1792), "1.8 KiB");
    assert_eq!(human_size(1_048_575), "1024.0 KiB");
}
