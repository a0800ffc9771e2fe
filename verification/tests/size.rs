use gtlite_installer::size::format_bytes;

fn with_doubles(bytes: u64) -> String {
    let units = ["B", "KB", "MB", "GB"];
    let mut value = bytes as f64;
    let mut index = 0;
    while value >= 1024.0 && index < units.len() - 1 {
        value /= 1024.0;
        index += 1;
    }
    if index == 0 {
        format!("{bytes} {}", units[index])
    } else {
        format!("{value:.1} {}", units[index])
    }
}

#[test]
fn sizes_have_known_texts() {
    assert_eq!(format_bytes(0), "0 B");
    assert_eq!(format_bytes(1023), "1023 B");
    assert_eq!(format_bytes(1024), "1.0 KB");
    assert_eq!(format_bytes(1536), "1.5 KB");
    assert_eq!(format_bytes(1048575), "1024.0 KB");
    assert_eq!(format_bytes(1048576), "1.0 MB");
    assert_eq!(format_bytes(1073741824), "1.0 GB");
    assert_eq!(format_bytes(u64::MAX), "17179869184.0 GB");
}

#[test]
fn ties_go_to_the_even_digit() {
    assert_eq!(format_bytes(1280), "1.2 KB");
    assert_eq!(format_bytes(1792), "1.8 KB");
    assert_eq!(format_bytes(1310720), "1.2 MB");
    assert_eq!(format_bytes(2952790016), "2.8 GB");
}

#[test]
fn small_sizes_agree_with_doubles() {
    for bytes in 0..3_000_000_u64 {
        assert_eq!(format_bytes(bytes), with_doubles(bytes));
    }
}

#[test]
fn large_sizes_agree_with_doubles() {
    let mut state: u64 = 0x9e37_79b9_7f4a_7c15;
    for _ in 0..200_000 {
        state = state.wrapping_mul(6364136223846793005).wrapping_add(1442695040888963407);
        let bytes = state >> (state % 40);
        assert_eq!(format_bytes(bytes), with_doubles(bytes), "{bytes}");
    }
    for power in 0..64_u32 {
        for offset in 0..2000_u64 {
            let bytes = (1_u64 << power).wrapping_add(offset).wrapping_sub(1000);
            assert_eq!(format_bytes(bytes), with_doubles(bytes), "{bytes}");
        }
    }
}

#[test]
fn counts_beyond_doubles_round_twice() {
    for multiple in (1..2000_u64).step_by(2) {
        for offset in 0..8_u64 {
            let bytes = (1_u64 << 60) + multiple * (1 << 28) + offset * 60;
            assert_eq!(format_bytes(bytes), with_doubles(bytes), "{bytes}");
        }
    }
}

#[test]
fn shown_size_is_the_nearest() {
    for bytes in [1025_u64, 5000, 123456, 987654321, 123456789012, 1 << 53] {
        let shown = format_bytes(bytes);
        let (number, unit) = shown.split_once(' ').unwrap();
        let unit = match unit {
            "KB" => 1024.0,
            "MB" => 1048576.0,
            _ => 1073741824.0,
        };
        let value = number.parse::<f64>().unwrap() * unit;
        assert!((value - bytes as f64).abs() <= unit / 20.0 + 1e-3);
    }
}
