use sysadminlib::packages::{get_byte_size, simplify_byte_size};
use sysadminlib::size::{ByteSize, SizeError, MAX_AMOUNT};

fn bytes(n: u128) -> u128 {
    n * 1_000_000
}

#[test]
fn human_form_of_zero() {
    assert_eq!(simplify_byte_size("0"), Ok("0.00 B".to_string()));
}

#[test]
fn human_form_stays_in_bytes_up_to_1024() {
    assert_eq!(simplify_byte_size("1"), Ok("1.00 B".to_string()));
    assert_eq!(simplify_byte_size("1023"), Ok("1023.00 B".to_string()));
    assert_eq!(simplify_byte_size("1024"), Ok("1024.00 B".to_string()));
}

#[test]
fn human_form_changes_unit_above_1024() {
    assert_eq!(simplify_byte_size("1025"), Ok("1.00 KiB".to_string()));
    assert_eq!(simplify_byte_size("1536"), Ok("1.50 KiB".to_string()));
    assert_eq!(simplify_byte_size("1048576"), Ok("1024.00 KiB".to_string()));
    assert_eq!(simplify_byte_size("1048577"), Ok("1.00 MiB".to_string()));
    assert_eq!(simplify_byte_size("1073741824"), Ok("1024.00 MiB".to_string()));
    assert_eq!(simplify_byte_size("1073741825"), Ok("1.00 GiB".to_string()));
    assert_eq!(simplify_byte_size("1099511627776"), Ok("1024.00 GiB".to_string()));
    assert_eq!(simplify_byte_size("1099511627777"), Ok("1.00 TiB".to_string()));
}

#[test]
fn human_form_has_no_unit_above_tib() {
    assert_eq!(simplify_byte_size("1125899906842624"), Ok("1024.00 TiB".to_string()));
    assert_eq!(simplify_byte_size("2251799813685248"), Ok("2048.00 TiB".to_string()));
}

#[test]
fn human_form_of_a_fraction_of_bytes() {
    assert_eq!(simplify_byte_size("12897484.8"), Ok("12.30 MiB".to_string()));
    assert_eq!(simplify_byte_size("0.5"), Ok("0.50 B".to_string()));
}

#[test]
fn human_form_rounds_to_nearest() {
    assert_eq!(simplify_byte_size("0.994"), Ok("0.99 B".to_string()));
    assert_eq!(simplify_byte_size("0.996"), Ok("1.00 B".to_string()));
    assert_eq!(simplify_byte_size("1048575"), Ok("1024.00 KiB".to_string()));
}

#[test]
fn human_form_rounds_ties_to_even() {
    assert_eq!(simplify_byte_size("0.125"), Ok("0.12 B".to_string()));
    assert_eq!(simplify_byte_size("0.375"), Ok("0.38 B".to_string()));
    assert_eq!(simplify_byte_size("0.005"), Ok("0.00 B".to_string()));
    assert_eq!(simplify_byte_size("0.015"), Ok("0.02 B".to_string()));
    assert_eq!(simplify_byte_size("0.125"), Ok(format!("{:.2} B", 0.125f64)));
    assert_eq!(simplify_byte_size("0.375"), Ok(format!("{:.2} B", 0.375f64)));
}

#[test]
fn human_form_agrees_with_float_formatting_on_whole_bytes() {
    for n in [0u64, 1, 512, 1024, 1025, 4096, 1_000_000, 123_456_789, 5_368_709_120] {
        let mut size = n as f64;
        let mut unit = "B";
        for next in ["KiB", "MiB", "GiB", "TiB"] {
            if size > 1024.0 {
                size /= 1024.0;
                unit = next;
            }
        }
        assert_eq!(simplify_byte_size(&n.to_string()), Ok(format!("{size:.2} {unit}")));
    }
}

#[test]
fn human_form_rejects_what_is_no_figure() {
    assert_eq!(simplify_byte_size(""), Err(SizeError::NotANumber));
    assert_eq!(simplify_byte_size("."), Err(SizeError::NotANumber));
    assert_eq!(simplify_byte_size("abc"), Err(SizeError::NotANumber));
    assert_eq!(simplify_byte_size("1e3"), Err(SizeError::NotANumber));
    assert_eq!(simplify_byte_size("-1"), Err(SizeError::NotANumber));
    assert_eq!(simplify_byte_size("+1"), Err(SizeError::NotANumber));
    assert_eq!(simplify_byte_size("1.2.3"), Err(SizeError::NotANumber));
    assert_eq!(simplify_byte_size("1 "), Err(SizeError::NotANumber));
    assert_eq!(simplify_byte_size("1.1234567"), Err(SizeError::NotANumber));
}

#[test]
fn human_form_rejects_what_is_too_large() {
    assert_eq!(simplify_byte_size("100000000000000000000"), Ok("90949470.18 TiB".to_string()));
    assert_eq!(simplify_byte_size("100000000000000000000.000001"), Err(SizeError::TooLarge));
    assert_eq!(simplify_byte_size("100000000000000000001"), Err(SizeError::TooLarge));
    assert_eq!(
        simplify_byte_size("99999999999999999999999999999999999999999999999999"),
        Err(SizeError::TooLarge)
    );
}

#[test]
fn byte_size_multiplies_by_the_unit() {
    assert_eq!(get_byte_size("1", "B").unwrap().millionths(), bytes(1));
    assert_eq!(get_byte_size("1", "KiB").unwrap().millionths(), bytes(1024));
    assert_eq!(get_byte_size("1", "MiB").unwrap().millionths(), bytes(1_048_576));
    assert_eq!(get_byte_size("1", "GiB").unwrap().millionths(), bytes(1_073_741_824));
    assert_eq!(get_byte_size("1", "TiB").unwrap().millionths(), bytes(1_099_511_627_776));
    assert_eq!(get_byte_size("1.5", "KiB").unwrap().millionths(), bytes(1536));
    assert_eq!(get_byte_size("12.3", "MiB").unwrap().millionths(), 12_897_484_800_000);
    assert_eq!(get_byte_size("0.000001", "B").unwrap().millionths(), 1);
}

#[test]
fn byte_size_accepts_a_point_at_either_end() {
    assert_eq!(get_byte_size("5.", "B").unwrap().millionths(), bytes(5));
    assert_eq!(get_byte_size(".5", "B").unwrap().millionths(), 500_000);
    assert_eq!(get_byte_size("007", "B").unwrap().millionths(), bytes(7));
}

#[test]
fn byte_size_of_an_unknown_unit_is_zero() {
    assert_eq!(get_byte_size("12.3", "kB").unwrap().millionths(), 0);
    assert_eq!(get_byte_size("12.3", "").unwrap().millionths(), 0);
    assert_eq!(get_byte_size("12.3", "KIB").unwrap().millionths(), 0);
    assert_eq!(get_byte_size("12.3", "KiBs").unwrap().millionths(), 0);
    assert_eq!(get_byte_size("12.3", "PiB").unwrap().millionths(), 0);
}

#[test]
fn byte_size_reports_why_a_figure_is_not_read() {
    assert_eq!(get_byte_size("abc", "B"), Err(SizeError::NotANumber));
    assert_eq!(get_byte_size("", "MiB"), Err(SizeError::NotANumber));
    assert_eq!(get_byte_size("1.0000000", "B"), Err(SizeError::NotANumber));
    assert_eq!(get_byte_size("1x", "nothing"), Err(SizeError::NotANumber));
    assert_eq!(get_byte_size("100000000000000000001", "B"), Err(SizeError::TooLarge));
    assert_eq!(get_byte_size("100000000000000000001", "nothing"), Err(SizeError::TooLarge));
}

#[test]
fn byte_size_reaches_the_largest_amount() {
    let largest = get_byte_size("100000000000000000000", "TiB").unwrap();
    assert_eq!(largest.millionths(), MAX_AMOUNT);
    assert_eq!(largest.human(), "100000000000000000000.00 TiB");
}

#[test]
fn sizes_add_up_exactly() {
    let a = get_byte_size("0.1", "B").unwrap();
    let b = get_byte_size("0.2", "B").unwrap();
    let sum = a.plus(&b).unwrap();
    assert_eq!(sum.millionths(), 300_000);
    assert_eq!(sum, get_byte_size("0.3", "B").unwrap());
    assert_eq!(ByteSize::zero().plus(&a), Some(a));
}

#[test]
fn sizes_do_not_add_up_beyond_the_largest() {
    let largest = ByteSize::from_millionths(MAX_AMOUNT).unwrap();
    let one = ByteSize::from_millionths(1).unwrap();
    assert_eq!(largest.plus(&one), None);
    assert_eq!(largest.plus(&ByteSize::zero()), Some(largest));
    assert_eq!(ByteSize::from_millionths(MAX_AMOUNT + 1), None);
}

fn read_back(text: &str) -> u128 {
    let mut parts = text.split(' ');
    let figure = parts.next().unwrap();
    let unit = parts.next().unwrap();
    assert_eq!(parts.next(), None);
    get_byte_size(figure, unit).unwrap().millionths()
}

fn round_trip_within_tolerance(millionths: u128, unit_bytes: u128) {
    let size = ByteSize::from_millionths(millionths).unwrap();
    let back = read_back(&size.human());
    let distance = if back > millionths { back - millionths } else { millionths - back };
    assert!(200 * distance <= unit_bytes * 1_000_000, "{millionths} came back as {back}");
}

#[test]
fn human_form_reads_back_in_every_unit() {
    for figure in [1u128, 2, 3, 7, 10, 99, 100, 333, 512, 1000, 1023, 1024] {
        round_trip_within_tolerance(bytes(figure), 1);
        round_trip_within_tolerance(bytes(figure * 1024 + 1), 1024);
        round_trip_within_tolerance(bytes(figure * 1_048_576 + 1), 1_048_576);
        round_trip_within_tolerance(bytes(figure * 1_073_741_824 + 1), 1_073_741_824);
        round_trip_within_tolerance(bytes(figure * 1_099_511_627_776 + 1), 1_099_511_627_776);
    }
}

#[test]
fn human_form_reads_back_exactly_where_two_digits_suffice() {
    assert_eq!(read_back("12.30 MiB"), 12_897_484_800_000);
    let size = get_byte_size("12.3", "MiB").unwrap();
    assert_eq!(size.human(), "12.30 MiB");
    assert_eq!(read_back(&size.human()), size.millionths());
    let size = get_byte_size("1.25", "GiB").unwrap();
    assert_eq!(size.human(), "1.25 GiB");
    assert_eq!(read_back(&size.human()), size.millionths());
}

#[test]
fn human_form_reads_back_odd_amounts() {
    round_trip_within_tolerance(1, 1);
    round_trip_within_tolerance(999_999, 1);
    round_trip_within_tolerance(1_234_567_890_123, 1_048_576);
    round_trip_within_tolerance(1_234_567_890, 1024);
    round_trip_within_tolerance(987_654_321_987_654_321, 1_073_741_824);
    round_trip_within_tolerance(MAX_AMOUNT, 1_099_511_627_776);
    round_trip_within_tolerance(MAX_AMOUNT - 1, 1_099_511_627_776);
}

#[test]
fn human_form_reads_back_close_to_a_float_computation() {
    let size = get_byte_size("8.1", "MiB").unwrap();
    let expected = 8.1f64 * 1_048_576.0;
    let got = size.millionths() as f64 / 1_000_000.0;
    assert!((got - expected).abs() < 1e-6);
}

fn float_form(bytes: u64) -> String {
    let mut size = bytes as f64;
    let mut unit = "B";
    if size > 1024.0 {
        size /= 1024.0;
        unit = "KiB";
        if size > 1024.0 {
            size /= 1024.0;
            unit = "MiB";
            if size > 1024.0 {
                size /= 1024.0;
                unit = "GiB";
                if size > 1024.0 {
                    size /= 1024.0;
                    unit = "TiB";
                }
            }
        }
    }
    format!("{size:.2} {unit}")
}

#[test]
fn human_form_agrees_with_float_arithmetic_on_many_whole_bytes() {
    let mut state: u64 = 0x9e37_79b9_7f4a_7c15;
    for round in 0..4000u32 {
        state ^= state << 13;
        state ^= state >> 7;
        state ^= state << 17;
        let bytes = state >> (11 + round % 53);
        assert_eq!(simplify_byte_size(&bytes.to_string()), Ok(float_form(bytes)), "{bytes}");
    }
    for power in 0..53u32 {
        for delta in [0u64, 1, 2, 5, 512, 1023] {
            let bytes = (1u64 << power) + delta;
            assert_eq!(simplify_byte_size(&bytes.to_string()), Ok(float_form(bytes)), "{bytes}");
            let bytes = (1u64 << power).saturating_sub(delta);
            assert_eq!(simplify_byte_size(&bytes.to_string()), Ok(float_form(bytes)), "{bytes}");
        }
    }
}
