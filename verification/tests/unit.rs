use tollgate::tools::unit::{unit, GB, KB, MB, TB};

fn by_float(n: u64) -> String {
    let names = ["KB", "MB", "GB", "TB"];
    let mut x = n as f64;
    for name in names {
        x /= 1024.0;
        if 1024.0 > x {
            return format!("{x:.1}{name}");
        }
    }
    format!("{x:.1}{}", names[3])
}

#[test]
fn unit_t() {
    assert_eq!("1.0KB", unit(KB));
    assert_eq!("1.0MB", unit(MB));
    assert_eq!("1.0GB", unit(GB));
    assert_eq!("1.0TB", unit(TB));
    assert_eq!("1025.0TB", unit(1025 * TB));
    assert_eq!("1.1MB", unit(MB + 100 * KB));
}

#[test]
fn unit_of_nothing_is_zero_kb() {
    assert_eq!("0.0KB", unit(0));
}

#[test]
fn unit_rounds_a_tie_to_the_even_tenth() {
    // 256 bytes are a quarter of a KB, halfway between two tenths.
    assert_eq!("0.2KB", unit(256));
    // 768 bytes are three quarters of a KB.
    assert_eq!("0.8KB", unit(768));
    assert_eq!(by_float(256), unit(256));
    assert_eq!(by_float(768), unit(768));
}

#[test]
fn unit_carries_into_the_next_whole() {
    assert_eq!("1024.0KB", unit(MB - 1));
    assert_eq!("1024.0MB", unit(GB - 1));
    assert_eq!("1024.0GB", unit(TB - 1));
}

#[test]
fn unit_of_the_largest_count() {
    assert_eq!("16777216.0TB", unit(u64::MAX));
    assert_eq!(by_float(u64::MAX), unit(u64::MAX));
}

#[test]
fn unit_agrees_with_floating_point_formatting() {
    let mut n: u64 = 1;
    let mut seed: u64 = 0x9E37_79B9_7F4A_7C15;
    for _ in 0..20_000 {
        seed = seed.wrapping_mul(6364136223846793005).wrapping_add(1442695040888963407);
        let shift = (seed >> 58) as u32;
        n = (seed >> shift) ^ n.rotate_left(7);
        assert_eq!(by_float(n), unit(n), "count {n}");
        let small = n >> 40;
        assert_eq!(by_float(small), unit(small), "count {small}");
    }
    for k in 0..64u32 {
        for d in [0u64, 1, 2, 3, 511, 512, 513, 1023, 1024, 1025] {
            let base = 1u64 << k;
            for n in [base.wrapping_add(d), base.wrapping_sub(d)] {
                assert_eq!(by_float(n), unit(n), "count {n}");
            }
        }
    }
}
