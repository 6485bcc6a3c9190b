use fe::utils::human_readable_size;

fn by_floats(bytes: u64) -> String {
    let kilobyte = 1024u64;
    let megabyte = kilobyte * 1024;
    let gigabyte = megabyte * 1024;
    let terabyte = gigabyte * 1024;
    match bytes {
        b if b >= terabyte => format!("{:.2} TB", b as f64 / terabyte as f64),
        b if b >= gigabyte => format!("{:.2} GB", b as f64 / gigabyte as f64),
        b if b >= megabyte => format!("{:.2} MB", b as f64 / megabyte as f64),
        b if b >= kilobyte => format!("{:.0} kB", b as f64 / kilobyte as f64),
        _ => format!("{} b", bytes),
    }
}

#[test]
fn test_bytes() {
    assert_eq!(human_readable_size(500), "500 b");
}

#[test]
fn test_kilobytes() {
    assert_eq!(human_readable_size(2048), "2 kB");
}

#[test]
fn test_megabytes() {
    assert_eq!(human_readable_size(1048576), "1.00 MB");
}

#[test]
fn test_gigabytes() {
    assert_eq!(human_readable_size(1073741824), "1.00 GB");
}

#[test]
fn test_terabytes() {
    assert_eq!(human_readable_size(1099511627776), "1.00 TB");
}

#[test]
fn test_edge_case() {
    assert_eq!(human_readable_size(1023), "1023 b");
    assert_eq!(human_readable_size(1024), "1 kB");
}

#[test]
fn size_of_nothing() {
    assert_eq!(human_readable_size(0), "0 b");
}

#[test]
fn kilobytes_round_to_the_even_neighbour() {
    assert_eq!(human_readable_size(1536), "2 kB");
    assert_eq!(human_readable_size(2560), "2 kB");
    assert_eq!(human_readable_size(2561), "3 kB");
    assert_eq!(human_readable_size(3584), "4 kB");
    assert_eq!(human_readable_size(1048575), "1024 kB");
}

#[test]
fn megabytes_have_two_places() {
    assert_eq!(human_readable_size(1572864), "1.50 MB");
    assert_eq!(human_readable_size(1048576 + 10486), "1.01 MB");
    assert_eq!(human_readable_size(5 * 1048576 + 52429), "5.05 MB");
    assert_eq!(human_readable_size(1073741823), "1024.00 MB");
}

#[test]
fn largest_size() {
    assert_eq!(human_readable_size(u64::MAX), "16777216.00 TB");
    assert_eq!(human_readable_size(u64::MAX), by_floats(u64::MAX));
}

#[test]
fn sizes_agree_with_float_formatting_at_unit_borders() {
    let borders = [1024u64, 1 << 20, 1 << 30, 1 << 40, 1 << 50, 1 << 53, 1 << 54, 1 << 60, 1 << 63];
    for border in borders {
        for offset in 0..2000u64 {
            let below = border - 1 - offset;
            let above = border.saturating_add(offset);
            assert_eq!(human_readable_size(below), by_floats(below), "{}", below);
            assert_eq!(human_readable_size(above), by_floats(above), "{}", above);
        }
    }
}

#[test]
fn sizes_agree_with_float_formatting_at_ties() {
    // Hundredths of a unit that lie exactly between two neighbours.
    for unit_shift in [20u32, 30, 40] {
        let unit = 1u64 << unit_shift;
        for k in 0..4000u64 {
            // (2k + 1) / 200 of a unit is a tie where it is a whole number of bytes.
            let numerator = (2 * k + 1) as u128 * unit as u128;
            if numerator % 200 == 0 {
                let tie = unit as u128 + numerator / 200;
                if tie <= u64::MAX as u128 {
                    let tie = tie as u64;
                    for bytes in [tie - 1, tie, tie + 1] {
                        assert_eq!(human_readable_size(bytes), by_floats(bytes), "{}", bytes);
                    }
                }
            }
        }
    }
}

#[test]
fn sizes_agree_with_float_formatting_on_a_sweep() {
    let mut bytes: u64 = 1;
    let mut step: u64 = 1;
    while bytes < u64::MAX - step {
        assert_eq!(human_readable_size(bytes), by_floats(bytes), "{}", bytes);
        bytes += step;
        step = step + step / 7 + 1;
    }
}

#[test]
fn sizes_beyond_exact_floats_round_as_floats_do() {
    // Above 2^53 a float holds only every second, fourth, ... number.
    let base = (1u64 << 53) + (1u64 << 40) * 5 / 1000;
    for offset in 0..5000u64 {
        let bytes = base + offset * 1099511627;
        assert_eq!(human_readable_size(bytes), by_floats(bytes), "{}", bytes);
    }
    for shift in 53..64u32 {
        let start = 1u64 << shift;
        for k in 0..3000u64 {
            let bytes = start + k * 5497558139 + k;
            assert_eq!(human_readable_size(bytes), by_floats(bytes), "{}", bytes);
        }
    }
}
