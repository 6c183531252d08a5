use crunchyma::utils::format_number;

fn in_single_precision(n: u32) -> String {
    if n < 1_000 {
        return format!("{}", n);
    }
    let (value, suffix) = if n >= 1_000_000_000 {
        (n as f32 / 1_000_000_000.0, "B")
    } else if n >= 1_000_000 {
        (n as f32 / 1_000_000.0, "M")
    } else {
        (n as f32 / 1_000.0, "K")
    };
    let mut shown = format!("{:.1}", value);
    if shown.ends_with(".0") {
        let keep = shown.len() - 2;
        shown.truncate(keep);
    }
    format!("{}{}", shown, suffix)
}

#[test]
fn small_counts_are_written_in_full() {
    assert_eq!(format_number(0), "0");
    assert_eq!(format_number(7), "7");
    assert_eq!(format_number(42), "42");
    assert_eq!(format_number(999), "999");
}

#[test]
fn thousands_millions_billions() {
    assert_eq!(format_number(1_000), "1K");
    assert_eq!(format_number(1_500), "1.5K");
    assert_eq!(format_number(12_345), "12.3K");
    assert_eq!(format_number(1_000_000), "1M");
    assert_eq!(format_number(2_500_000), "2.5M");
    assert_eq!(format_number(1_000_000_000), "1B");
    assert_eq!(format_number(u32::MAX), "4.3B");
}

#[test]
fn ties_go_to_the_even_tenth() {
    assert_eq!(format_number(1_250), "1.2K");
    assert_eq!(format_number(1_750), "1.8K");
    assert_eq!(format_number(2_250), "2.2K");
    assert_eq!(format_number(2_750), "2.8K");
}

#[test]
fn single_precision_decides_near_ties() {
    assert_eq!(format_number(1_050), "1K");
    assert_eq!(format_number(1_150), "1.1K");
    assert_eq!(format_number(1_350), "1.4K");
}

#[test]
fn the_top_of_a_unit_rounds_to_a_thousand() {
    assert_eq!(format_number(999_949), "999.9K");
    assert_eq!(format_number(999_950), "1000K");
    assert_eq!(format_number(999_999), "1000K");
    assert_eq!(format_number(999_999_999), "1000M");
}

#[test]
fn every_count_up_to_two_million_agrees_with_single_precision() {
    let mut n: u32 = 0;
    while n <= 2_000_000 {
        assert_eq!(format_number(n), in_single_precision(n), "count {}", n);
        n += 1;
    }
}

#[test]
fn sampled_large_counts_agree_with_single_precision() {
    let mut n: u32 = 2_000_000;
    loop {
        assert_eq!(format_number(n), in_single_precision(n), "count {}", n);
        match n.checked_add(997) {
            Some(next) => n = next,
            None => break,
        }
    }
    let mut m: u32 = u32::MAX;
    while m > u32::MAX - 100_000 {
        assert_eq!(format_number(m), in_single_precision(m), "count {}", m);
        m -= 1;
    }
}

#[test]
fn counts_around_each_power_of_two_agree_with_single_precision() {
    let mut bit: u32 = 10;
    while bit < 32 {
        let centre: u32 = 1u32 << bit;
        let mut n: u32 = centre - 600;
        while n < centre + 600 {
            assert_eq!(format_number(n), in_single_precision(n), "count {}", n);
            n += 1;
        }
        bit += 1;
    }
}
