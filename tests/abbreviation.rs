use abbrev_num::decimal::rounded_string;
use abbrev_num::text::integer_text;
use abbrev_num::{abbrev_num, abbreviate, default_abbreviations, Options, RoundingStrategy};

fn with_precision(precision: u32) -> Option<Options<'static>> {
    Some(Options {
        precision: Some(precision),
        ..Default::default()
    })
}

fn with_strategy(precision: u32, strategy: RoundingStrategy) -> Option<Options<'static>> {
    Some(Options {
        precision: Some(precision),
        rounding_strategy: Some(strategy),
        ..Default::default()
    })
}

fn some(s: &str) -> Option<String> {
    Some(s.to_string())
}

#[test]
fn can_abbreviate_numbers() {
    let fixtures: Vec<(isize, &str)> = vec![
        (0, "0"),
        (-0, "0"),
        (1, "1"),
        (10, "10"),
        (150, "150"),
        (999, "999"),
        (1_000, "1k"),
        (1_200, "1.2k"),
        (10_000, "10k"),
        (150_000, "150k"),
        (1_000_000, "1M"),
        (4_500_000, "4.5M"),
        (-10, "-10"),
        (-1_500, "-1.5k"),
    ];

    fixtures.iter().for_each(|(case, expected)| {
        let result = abbrev_num(*case, None);
        assert_eq!(result, Some(expected.to_string()));
    });
}

#[test]
fn can_abbreviate_upto_a_certain_precision() {
    let result = abbrev_num(
        1_566_450,
        Some(Options {
            precision: Some(3),
            ..Default::default()
        }),
    );
    assert_eq!(result, Some("1.566M".to_string()));

    // Zero precision
    let result = abbrev_num(
        1_566_450,
        Some(Options {
            precision: Some(0),
            ..Default::default()
        }),
    );
    assert_eq!(result, Some("2M".to_string()));
}

#[test]
fn can_abbreviate_using_custom_units() {
    let units: [&str; 7] = ["_c0", "_c1", "_c2", "_c3", "_c4", "_c5", "_c6"];
    let fixtures: Vec<(isize, &str)> = vec![
        (0, "0"),
        (10, "10_c0"),
        (1_000, "1_c1"),
        (1_000_000, "1_c2"),
        (1_000_000_000, "1_c3"),
        (1_000_000_000_000, "1_c4"),
        (1_000_000_000_000_000, "1_c5"),
        (1_000_000_000_000_000_000, "1_c6"),
    ];

    fixtures.iter().for_each(|(case, expected)| {
        let result = abbrev_num(
            *case,
            Some(Options {
                abbreviations: Some(units),
                ..Default::default()
            }),
        );
        assert_eq!(result, Some(expected.to_string()));
    });
}

#[test]
fn zero_is_zero_under_any_options() {
    let units: [&str; 7] = ["a", "b", "c", "d", "e", "f", "g"];
    let options = Options {
        precision: Some(5),
        abbreviations: Some(units),
        rounding_strategy: Some(RoundingStrategy::ToPositiveInfinity),
    };
    assert_eq!(abbrev_num(0, Some(options)), some("0"));
    assert_eq!(abbrev_num(-0, Some(options)), some("0"));
    assert_eq!(abbreviate(0, 1, &[], RoundingStrategy::ToZero), some("0"));
}

#[test]
fn below_a_thousand_is_written_in_full() {
    assert_eq!(abbrev_num(7, with_precision(0)), some("7"));
    assert_eq!(abbrev_num(-999, None), some("-999"));
    assert_eq!(abbrev_num(-1, None), some("-1"));
    assert_eq!(abbrev_num(505, with_strategy(0, RoundingStrategy::ToZero)), some("505"));
}

#[test]
fn tier_boundaries() {
    assert_eq!(abbrev_num(999, None), some("999"));
    assert_eq!(abbrev_num(1_000, None), some("1k"));
    assert_eq!(abbrev_num(999_999, None), some("1000k"));
    assert_eq!(abbrev_num(1_000_000, None), some("1M"));
    assert_eq!(abbrev_num(1_000_000_000, None), some("1B"));
    assert_eq!(abbrev_num(1_000_000_000_000, None), some("1T"));
    assert_eq!(abbrev_num(1_000_000_000_000_000, None), some("1P"));
    assert_eq!(abbrev_num(1_000_000_000_000_000_000, None), some("1E"));
}

#[test]
fn sign_is_kept() {
    assert_eq!(abbrev_num(-1_500, None), some("-1.5k"));
    assert_eq!(abbrev_num(-4_500_000, None), some("-4.5M"));
}

#[test]
fn whole_values_drop_the_point() {
    assert_eq!(abbrev_num(2_000, with_precision(3)), some("2k"));
    assert_eq!(abbrev_num(1_999_999, None), some("2M"));
    assert_eq!(abbrev_num(1_040, None), some("1k"));
    assert_eq!(abbrev_num(1_050, with_precision(3)), some("1.05k"));
}

#[test]
fn repeated_calls_agree() {
    let options = with_precision(2);
    let first = abbrev_num(123_456_789, options);
    let second = abbrev_num(123_456_789, options);
    assert_eq!(first, second);
    assert_eq!(first, some("123.46M"));
}

#[test]
fn beyond_the_table_gives_nothing() {
    let even = RoundingStrategy::MidpointNearestEven;
    assert_eq!(abbreviate(999, 1, &[""], even), some("999"));
    assert_eq!(abbreviate(1_000, 1, &[""], even), None);
    assert_eq!(abbreviate(-1_000_000, 1, &["", "k"], even), None);
    assert_eq!(abbreviate(12, 1, &[], even), None);
    assert_eq!(abbreviate(1_500_000, 1, &["", "k", "m"], even), some("1.5m"));
}

#[test]
fn extreme_magnitudes() {
    assert_eq!(abbrev_num(isize::MAX, None), some("9.2E"));
    assert_eq!(abbrev_num(isize::MIN, None), some("-9.2E"));
    assert_eq!(abbrev_num(isize::MIN, with_precision(3)), some("-9.223E"));
}

#[test]
fn default_table_labels() {
    assert_eq!(default_abbreviations(), ["", "k", "M", "B", "T", "P", "E"]);
}

#[test]
fn each_rounding_strategy() {
    assert_eq!(abbrev_num(2_500, with_strategy(0, RoundingStrategy::MidpointNearestEven)), some("2k"));
    assert_eq!(abbrev_num(3_500, with_strategy(0, RoundingStrategy::MidpointNearestEven)), some("4k"));
    assert_eq!(abbrev_num(2_500, with_strategy(0, RoundingStrategy::MidpointAwayFromZero)), some("3k"));
    assert_eq!(abbrev_num(2_500, with_strategy(0, RoundingStrategy::MidpointTowardZero)), some("2k"));
    assert_eq!(abbrev_num(2_501, with_strategy(0, RoundingStrategy::MidpointTowardZero)), some("3k"));
    assert_eq!(abbrev_num(2_999, with_strategy(0, RoundingStrategy::ToZero)), some("2k"));
    assert_eq!(abbrev_num(2_001, with_strategy(0, RoundingStrategy::AwayFromZero)), some("3k"));
    assert_eq!(abbrev_num(2_001, with_strategy(0, RoundingStrategy::ToPositiveInfinity)), some("3k"));
    assert_eq!(abbrev_num(2_999, with_strategy(0, RoundingStrategy::ToNegativeInfinity)), some("2k"));
    assert_eq!(abbrev_num(-2_500, with_strategy(0, RoundingStrategy::MidpointAwayFromZero)), some("-3k"));
    assert_eq!(abbrev_num(1_000_500, with_strategy(3, RoundingStrategy::MidpointNearestEven)), some("1M"));
    assert_eq!(abbrev_num(1_000_500, with_strategy(3, RoundingStrategy::MidpointAwayFromZero)), some("1.001M"));
}

#[test]
fn precision_beyond_the_scale_keeps_every_digit() {
    assert_eq!(abbrev_num(1_234_567, with_precision(10)), some("1.234567M"));
    assert_eq!(abbrev_num(1_234_567, with_precision(u32::MAX)), some("1.234567M"));
}

#[test]
fn rounded_string_rounds_strips_and_renders() {
    let even = RoundingStrategy::MidpointNearestEven;
    assert_eq!(rounded_string(1_566_450, 6, 3, even), "1.566");
    assert_eq!(rounded_string(1_500, 3, 1, even), "1.5");
    assert_eq!(rounded_string(120, 2, 5, even), "1.2");
    assert_eq!(rounded_string(5, 1, 1, even), "0.5");
    assert_eq!(rounded_string(7, 3, 3, even), "0.007");
    assert_eq!(rounded_string(4_000, 3, 1, even), "4");
    assert_eq!(rounded_string(25, 1, 0, RoundingStrategy::ToPositiveInfinity), "3");
}

#[test]
fn integer_text_writes_decimal_digits() {
    assert_eq!(integer_text(0), "0");
    assert_eq!(integer_text(9), "9");
    assert_eq!(integer_text(1_234_567_890), "1234567890");
    assert_eq!(integer_text(u64::MAX), "18446744073709551615");
}
