use humansize::file_size_opts::{FileSizeOpts, FixedAt, Kilo};
use psmem::format::{
    abbreviated, abbreviation_options, align_left, align_right, decimal, push_decimal,
    push_spaces, signed, COLUMN_WIDTH,
};

#[test]
fn decimal_digits() {
    assert_eq!(decimal(0), "0");
    assert_eq!(decimal(7), "7");
    assert_eq!(decimal(10), "10");
    assert_eq!(decimal(1_023_998_976), "1023998976");
    assert_eq!(decimal(u64::MAX), "18446744073709551615");
}

#[test]
fn signed_digits() {
    assert_eq!(signed(0), "0");
    assert_eq!(signed(42), "42");
    assert_eq!(signed(-42), "-42");
    assert_eq!(signed(i64::MAX), "9223372036854775807");
    assert_eq!(signed(i64::MIN), "-9223372036854775808");
}

#[test]
fn decimal_is_appended() {
    let mut out = String::from("n=");
    push_decimal(&mut out, 305);
    push_spaces(&mut out, 3);
    push_decimal(&mut out, 0);
    assert_eq!(out, "n=305   0");
}

#[test]
fn column_is_ten_wide() {
    assert_eq!(COLUMN_WIDTH, 10);
}

#[test]
fn text_moves_to_the_right_edge() {
    assert_eq!(align_right("Pid", 10), "       Pid");
    assert_eq!(align_right("", 4), "    ");
    assert_eq!(align_right("1234567890", 10), "1234567890");
    assert_eq!(align_right("12345678901", 10), "12345678901");
}

#[test]
fn text_stays_at_the_left_edge() {
    assert_eq!(align_left("User", 10), "User      ");
    assert_eq!(align_left("", 2), "  ");
    assert_eq!(align_left("a long command line", 10), "a long command line");
}

#[test]
fn width_counts_characters_not_bytes() {
    assert_eq!(align_left("h\u{e9}", 4), "h\u{e9}  ");
    assert_eq!(align_right("\u{1F600}", 3), "  \u{1F600}");
}

#[test]
fn sizes_are_abbreviated_with_conventional_units() {
    let opts = abbreviation_options();
    assert_eq!(abbreviated(0, &opts), "0B");
    assert_eq!(abbreviated(1023, &opts), "1023B");
    assert_eq!(abbreviated(1024, &opts), "1KB");
    assert_eq!(abbreviated(1536, &opts), "1.50KB");
    assert_eq!(abbreviated(102400, &opts), "100KB");
    assert_eq!(abbreviated(5 * 1024 * 1024, &opts), "5MB");
    assert_eq!(abbreviated(3 * 1024 * 1024 * 1024 + 1, &opts), "3.00GB");
}

#[test]
fn abbreviation_follows_the_options_given() {
    let binary = FileSizeOpts {
        divider: Kilo::Binary,
        units: Kilo::Binary,
        decimal_places: 1,
        decimal_zeroes: 0,
        fixed_at: FixedAt::No,
        long_units: false,
        space: true,
        suffix: "",
        allow_negative: false,
    };
    assert_eq!(abbreviated(1536, &binary), "1.5 KiB");
    let opts = abbreviation_options();
    assert!(!opts.space);
    assert_eq!(opts.decimal_places, 2);
}
