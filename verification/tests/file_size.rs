use media_classifier::file_size::{FileSize, SizeParseError};
use media_classifier::report::format_size_for_display_str;

#[test]
fn test_file_size_parse_bytes() {
    assert_eq!(FileSize::parse("100B").unwrap().bytes, 100);
    assert_eq!(FileSize::parse("100").unwrap().bytes, 100);
    assert_eq!(FileSize::parse("0B").unwrap().bytes, 0);
    assert_eq!(FileSize::parse("0").unwrap().bytes, 0);
}

#[test]
fn test_file_size_parse_kb_mb_gb() {
    assert_eq!(FileSize::parse("1KB").unwrap().bytes, 1024);
    assert_eq!(FileSize::parse("1MB").unwrap().bytes, 1024 * 1024);
    assert_eq!(FileSize::parse("1GB").unwrap().bytes, 1024 * 1024 * 1024);
    assert_eq!(
        FileSize::parse("1TB").unwrap().bytes,
        1024 * 1024 * 1024 * 1024
    );
}

#[test]
fn test_file_size_parse_bits() {
    assert_eq!(FileSize::parse("8b").unwrap().bytes, 1);
    assert_eq!(FileSize::parse("1Kb").unwrap().bytes, 128);
    assert_eq!(FileSize::parse("1Mb").unwrap().bytes, 128 * 1024);
}

#[test]
fn test_file_size_parse_decimal() {
    let size = FileSize::parse("1.5MB").unwrap().bytes;
    let expected = (1.5 * 1024.0 * 1024.0) as u64;
    assert_eq!(size, expected);
}

#[test]
fn test_file_size_is_in_range() {
    let size = FileSize { bytes: 1024 * 1024 }; // 1MB
    let min = FileSize { bytes: 512 * 1024 }; // 512KB
    let max = FileSize {
        bytes: 2 * 1024 * 1024,
    }; // 2MB

    assert!(size.is_in_range(min, max));

    let no_limit = FileSize { bytes: 0 };
    assert!(size.is_in_range(no_limit, no_limit));
}

#[test]
fn range_bounds_are_inclusive_and_zero_is_open() {
    let min = FileSize { bytes: 10 };
    let max = FileSize { bytes: 20 };
    let open = FileSize { bytes: 0 };
    assert!(FileSize { bytes: 10 }.is_in_range(min, max));
    assert!(FileSize { bytes: 20 }.is_in_range(min, max));
    assert!(!FileSize { bytes: 9 }.is_in_range(min, max));
    assert!(!FileSize { bytes: 21 }.is_in_range(min, max));
    assert!(FileSize { bytes: 0 }.is_in_range(open, max));
    assert!(!FileSize { bytes: 0 }.is_in_range(min, open));
    assert!(FileSize { bytes: u64::MAX }.is_in_range(min, open));
    assert!(FileSize { bytes: 0 }.is_in_range(open, open));
}

#[test]
fn parse_ignores_whitespace_around_and_before_the_unit() {
    assert_eq!(FileSize::parse("  5MB  ").unwrap().bytes, 5 * 1024 * 1024);
    assert_eq!(FileSize::parse("5 MB").unwrap().bytes, 5 * 1024 * 1024);
    assert_eq!(FileSize::parse("\t12 \u{a0}KB\n").unwrap().bytes, 12 * 1024);
}

#[test]
fn parse_knows_every_unit() {
    let k: u64 = 1024;
    assert_eq!(FileSize::parse("3").unwrap().bytes, 3);
    assert_eq!(FileSize::parse("3B").unwrap().bytes, 3);
    assert_eq!(FileSize::parse("3KB").unwrap().bytes, 3 * k);
    assert_eq!(FileSize::parse("3MB").unwrap().bytes, 3 * k * k);
    assert_eq!(FileSize::parse("3GB").unwrap().bytes, 3 * k * k * k);
    assert_eq!(FileSize::parse("3TB").unwrap().bytes, 3 * k * k * k * k);
    assert_eq!(FileSize::parse("24b").unwrap().bytes, 3);
    assert_eq!(FileSize::parse("3Kb").unwrap().bytes, 3 * 128);
    assert_eq!(FileSize::parse("3kb").unwrap().bytes, 3 * 128);
    assert_eq!(FileSize::parse("3Mb").unwrap().bytes, 3 * 128 * k);
    assert_eq!(FileSize::parse("3mb").unwrap().bytes, 3 * 128 * k);
    assert_eq!(FileSize::parse("3Gb").unwrap().bytes, 3 * 128 * k * k);
    assert_eq!(FileSize::parse("3gb").unwrap().bytes, 3 * 128 * k * k);
    assert_eq!(FileSize::parse("3Tb").unwrap().bytes, 3 * 128 * k * k * k);
    assert_eq!(FileSize::parse("3tb").unwrap().bytes, 3 * 128 * k * k * k);
}

#[test]
fn parse_rounds_down() {
    assert_eq!(FileSize::parse("0.1KB").unwrap().bytes, 102);
    assert_eq!(FileSize::parse("2.3GB").unwrap().bytes, 2469606195);
    assert_eq!(FileSize::parse("0.999B").unwrap().bytes, 0);
    assert_eq!(FileSize::parse("7b").unwrap().bytes, 0);
    assert_eq!(FileSize::parse("15.9b").unwrap().bytes, 1);
    assert_eq!(FileSize::parse("1.0009765625KB").unwrap().bytes, 1025);
}

#[test]
fn parse_agrees_with_floating_point_on_ordinary_numbers() {
    let numbers = ["0", "1", "7", "12.5", "0.25", "3.75", "999.999", "0.001", "1.1", "42.42"];
    let units: [(&str, f64); 9] = [
        ("", 1.0),
        ("B", 1.0),
        ("KB", 1024.0),
        ("MB", 1048576.0),
        ("GB", 1073741824.0),
        ("TB", 1099511627776.0),
        ("Kb", 128.0),
        ("Mb", 131072.0),
        ("Gb", 134217728.0),
    ];
    for number in numbers {
        for (unit, per_unit) in units {
            let text = format!("{}{}", number, unit);
            let value: f64 = number.parse().unwrap();
            let expected = (value * per_unit) as u64;
            assert_eq!(FileSize::parse(&text).unwrap().bytes, expected, "{}", text);
        }
        let bits = format!("{}b", number);
        let value: f64 = number.parse().unwrap();
        assert_eq!(FileSize::parse(&bits).unwrap().bytes, (value / 8.0) as u64, "{}", bits);
    }
}

#[test]
fn parse_saturates_on_huge_numbers() {
    assert_eq!(FileSize::parse("99999999999999999999TB").unwrap().bytes, u64::MAX);
    assert_eq!(FileSize::parse("18446744073709551615").unwrap().bytes, u64::MAX);
    assert_eq!(FileSize::parse("18446744073709551614").unwrap().bytes, 18446744073709551614);
    assert_eq!(
        FileSize::parse("999999999999999999999999999999999999999999999999b").unwrap().bytes,
        u64::MAX
    );
    assert_eq!(FileSize::parse("16777216TB").unwrap().bytes, u64::MAX);
    assert_eq!(FileSize::parse("16777215TB").unwrap().bytes, 16777215 * 1099511627776);
}

#[test]
fn parse_refuses_what_is_no_size() {
    for text in ["", "   ", "MB", ".5MB", "5.MB", "5.", "1.2.3", "-5MB", "5 M B", "5MB!", "5,5MB", "1e3", "٣MB"] {
        assert_eq!(FileSize::parse(text), Err(SizeParseError::InvalidFormat), "{:?}", text);
    }
}

#[test]
fn parse_refuses_unknown_units() {
    for text in ["5XB", "5kB", "5mB", "5bytes", "5K", "5PB", "5BB", "5 kB"] {
        assert_eq!(FileSize::parse(text), Err(SizeParseError::UnknownUnit), "{:?}", text);
    }
}

#[test]
fn format_picks_the_largest_unit_reached() {
    assert_eq!(FileSize { bytes: 0 }.format(), "∞");
    assert_eq!(FileSize { bytes: 1 }.format(), "1B");
    assert_eq!(FileSize { bytes: 1023 }.format(), "1023B");
    assert_eq!(FileSize { bytes: 1024 }.format(), "1.00KB");
    assert_eq!(FileSize { bytes: 1536 }.format(), "1.50KB");
    assert_eq!(FileSize { bytes: 5 * 1024 * 1024 }.format(), "5.00MB");
    assert_eq!(FileSize { bytes: 1024 * 1024 * 1024 }.format(), "1.00GB");
    assert_eq!(FileSize { bytes: 1024 * 1024 * 1024 * 1024 }.format(), "1.00TB");
    assert_eq!(FileSize { bytes: 1024 * 1024 - 1 }.format(), "1024.00KB");
}

#[test]
fn format_agrees_with_floating_point() {
    let mut bytes: u64 = 1;
    let mut step: u64 = 1;
    while bytes < (1u64 << 50) {
        let expected = if bytes >= 1u64 << 40 {
            format!("{:.2}TB", bytes as f64 / (1u64 << 40) as f64)
        } else if bytes >= 1u64 << 30 {
            format!("{:.2}GB", bytes as f64 / (1u64 << 30) as f64)
        } else if bytes >= 1u64 << 20 {
            format!("{:.2}MB", bytes as f64 / (1u64 << 20) as f64)
        } else if bytes >= 1u64 << 10 {
            format!("{:.2}KB", bytes as f64 / (1u64 << 10) as f64)
        } else {
            format!("{}B", bytes)
        };
        assert_eq!(FileSize { bytes }.format(), expected, "{}", bytes);
        bytes += step;
        step = step + step / 3 + 1;
    }
}

#[test]
fn format_rounds_ties_to_even() {
    // 1152 / 1024 is 1.125 exactly, 1408 / 1024 is 1.375, and so on.
    for bytes in [1152u64, 1408, 1664, 1920, 2176, 2432] {
        let expected = format!("{:.2}KB", bytes as f64 / 1024.0);
        assert_eq!(FileSize { bytes }.format(), expected, "{}", bytes);
    }
    assert_eq!(FileSize { bytes: 1152 }.format(), "1.12KB");
    assert_eq!(FileSize { bytes: 1408 }.format(), "1.38KB");
    assert_eq!(FileSize { bytes: 1029 }.format(), "1.00KB");
    assert_eq!(FileSize { bytes: 1030 }.format(), "1.01KB");
}

#[test]
fn display_of_a_size_expression() {
    assert_eq!(format_size_for_display_str("0B"), "∞");
    assert_eq!(format_size_for_display_str("0"), "∞");
    assert_eq!(format_size_for_display_str("5MB"), "5.00MB");
    assert_eq!(format_size_for_display_str("1536"), "1.50KB");
    assert_eq!(format_size_for_display_str("512"), "512B");
    assert_eq!(format_size_for_display_str("nonsense"), "nonsense");
    assert_eq!(format_size_for_display_str("5XB"), "5XB");
}
