use yunxi_webdisk::size::format_size;

/// The same label computed in double-precision floating point.
fn float_label(size: u64) -> String {
    let units = ["B", "KB", "MB", "GB", "TB", "PB"];
    let mut value = size as f64;
    let mut index = 0;
    while value >= 1024.0 && index < units.len() - 1 {
        value /= 1024.0;
        index += 1;
    }
    if index == 0 {
        format!("{} {}", value as u64, units[index])
    } else {
        format!("{:.2} {}", value, units[index])
    }
}

#[test]
fn bytes_are_whole_numbers() {
    assert_eq!(format_size(0), "0 B");
    assert_eq!(format_size(10), "10 B");
    assert_eq!(format_size(1023), "1023 B");
    for size in 0..1024u64 {
        assert!(!format_size(size).contains('.'));
    }
}

#[test]
fn larger_units_have_two_decimals() {
    assert_eq!(format_size(1024), "1.00 KB");
    assert_eq!(format_size(1536), "1.50 KB");
    assert_eq!(format_size(1024 * 1024), "1.00 MB");
    assert_eq!(format_size(5 * 1024 * 1024 * 1024), "5.00 GB");
    assert_eq!(format_size(1u64 << 40), "1.00 TB");
    assert_eq!(format_size(1u64 << 50), "1.00 PB");
    assert_eq!(format_size(u64::MAX), "16384.00 PB");
}

#[test]
fn ties_go_to_the_even_hundredth() {
    // 1152 / 1024 = 1.125 and 1408 / 1024 = 1.375
    assert_eq!(format_size(1152), "1.12 KB");
    assert_eq!(format_size(1408), "1.38 KB");
}

#[test]
fn rounding_may_carry_into_the_whole_part() {
    assert_eq!(format_size(1024 * 1024 - 1), "1024.00 KB");
}

#[test]
fn unit_never_shrinks_as_size_grows() {
    let sizes = [0u64, 1, 1023, 1024, 1025, 1 << 20, (1 << 30) - 1, 1 << 30, 1 << 40, 1 << 50, 1 << 60, u64::MAX];
    let order = ["B", "KB", "MB", "GB", "TB", "PB"];
    let mut last = 0;
    for size in sizes {
        let label = format_size(size);
        let unit = label.rsplit(' ').next().unwrap().to_string();
        let index = order.iter().position(|u| *u == unit).unwrap();
        assert!(index >= last);
        last = index;
    }
}

#[test]
fn labels_agree_with_floating_point() {
    let mut sizes: Vec<u64> = Vec::new();
    for shift in 0..64u32 {
        let base = 1u64 << shift;
        for delta in 0..40u64 {
            sizes.push(base.wrapping_add(delta));
            sizes.push(base.wrapping_sub(delta));
            sizes.push(base.wrapping_add(delta * 128));
            sizes.push(base.wrapping_add(base / 1024 * delta));
            sizes.push(base.wrapping_add(base / 200 * delta));
        }
    }
    let mut x: u64 = 0x9E37_79B9_7F4A_7C15;
    for _ in 0..20000 {
        x ^= x << 13;
        x ^= x >> 7;
        x ^= x << 17;
        sizes.push(x);
        sizes.push(x >> (x % 64));
    }
    for size in sizes {
        assert_eq!(format_size(size), float_label(size), "size {}", size);
    }
}
