use w2m::report::{human_size, images_label};

fn float_size(bytes: u64) -> String {
    const K: f64 = 1024.0;
    const M: f64 = K * 1024.0;
    let b = bytes as f64;
    if b >= M {
        format!("{:.1} MB", b / M)
    } else if b >= K {
        format!("{:.1} KB", b / K)
    } else {
        format!("{bytes} B")
    }
}

#[test]
fn human_size_exact_values() {
    assert_eq!(human_size(0), "0 B");
    assert_eq!(human_size(1023), "1023 B");
    assert_eq!(human_size(1024), "1.0 KB");
    assert_eq!(human_size(1536), "1.5 KB");
    assert_eq!(human_size(1048576), "1.0 MB");
    assert_eq!(human_size(5 * 1048576 + 104858), "5.1 MB");
}

#[test]
fn human_size_matches_float_formatting() {
    let mut samples: Vec<u64> = vec![
        0, 1, 999, 1023, 1024, 1025, 1075, 1076, 1126, 1127, 1177, 1178, 10240, 10291, 10292,
        1048575, 1048576, 1101004, 1101005, 1153433, 5242880, 5295309, 123456789,
        (1u64 << 53) - 1, 1u64 << 53, (1u64 << 53) + 1, (1u64 << 53) + 3, u64::MAX - 1, u64::MAX,
    ];
    // ties at a twentieth of a unit: x.05 and x.15 kilo- and megabytes
    for k in 1..300u64 {
        samples.push(k * 1024 / 20);
        samples.push(k * 1024 * 1024 / 20);
        samples.push(k * 1024 * 1024 / 20 + 1);
        samples.push(k * 1024 * 1024 / 20 - 1);
        samples.push(k * 1234567);
        samples.push(k.wrapping_mul(0x9E37_79B9_7F4A_7C15));
    }
    for b in samples {
        assert_eq!(human_size(b), float_size(b), "bytes = {b}");
    }
}

#[test]
fn images_label_cases() {
    assert_eq!(images_label(0, 0), "none");
    assert_eq!(images_label(3, 3), "3 downloaded");
    assert_eq!(images_label(3, 1), "1 downloaded, 2 skipped");
}
