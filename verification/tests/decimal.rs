use agromate::attribute::RowError;
use agromate::decimal::{is_digit_char, parse_decimal, parse_i8, rescale, sum_decimals, Decimal};
use agromate::digits::{digit_to_char, i64_to_text, i8_to_text, push_nat_digits};

fn dec(units: i128, scale: u8) -> Decimal {
    Decimal { units, scale }
}

#[test]
fn numerals_are_read_exactly() {
    assert_eq!(parse_decimal("20.0"), Ok(dec(200, 1)));
    assert_eq!(parse_decimal("20"), Ok(dec(20, 0)));
    assert_eq!(parse_decimal("0"), Ok(dec(0, 0)));
    assert_eq!(parse_decimal("-5"), Ok(dec(-5, 0)));
    assert_eq!(parse_decimal("+5"), Ok(dec(5, 0)));
    assert_eq!(parse_decimal("-0.125"), Ok(dec(-125, 3)));
    assert_eq!(parse_decimal("007.50"), Ok(dec(750, 2)));
    assert_eq!(parse_decimal(".5"), Ok(dec(5, 1)));
    assert_eq!(parse_decimal("5."), Ok(dec(5, 0)));
    assert_eq!(parse_decimal("-.5"), Ok(dec(-5, 1)));
    assert_eq!(parse_decimal("0.000"), Ok(dec(0, 3)));
}

#[test]
fn what_is_no_numeral_is_malformed() {
    for text in [
        "", "-", "+", ".", "-.", "abc", "1e3", "1.2.3", "1,5", " 1", "1 ", "--1", "+-1", "inf",
        "NaN", "0x10", "1_000", "٣", "1.5f",
    ] {
        assert_eq!(parse_decimal(text), Err(RowError::MalformedNumber), "{:?}", text);
    }
}

#[test]
fn numerals_at_the_edge_of_the_range() {
    let max = "170141183460469231731687303715884105727";
    let min = "-170141183460469231731687303715884105728";
    assert_eq!(parse_decimal(max), Ok(dec(i128::MAX, 0)));
    assert_eq!(parse_decimal(min), Ok(dec(i128::MIN, 0)));
    assert_eq!(
        parse_decimal("170141183460469231731687303715884105728"),
        Err(RowError::NumberOutOfRange)
    );
    assert_eq!(
        parse_decimal("-170141183460469231731687303715884105729"),
        Err(RowError::NumberOutOfRange)
    );
    assert_eq!(
        parse_decimal("1000000000000000000000000000000000000000000000000"),
        Err(RowError::NumberOutOfRange)
    );
    assert_eq!(
        parse_decimal("1701411834604692317316873037158841057.27"),
        Ok(dec(i128::MAX, 2))
    );
    let long_fraction = format!("0.{}", "0".repeat(255));
    assert_eq!(parse_decimal(&long_fraction), Ok(dec(0, 255)));
    let longer_fraction = format!("0.{}", "0".repeat(256));
    assert_eq!(parse_decimal(&longer_fraction), Err(RowError::NumberOutOfRange));
    // a malformed tail wins over a value that is too large
    assert_eq!(
        parse_decimal("1000000000000000000000000000000000000000000000000x"),
        Err(RowError::MalformedNumber)
    );
}

#[test]
fn decimals_are_written_as_numerals() {
    assert_eq!(dec(4800, 1).to_text(), "480.0");
    assert_eq!(dec(480, 0).to_text(), "480");
    assert_eq!(dec(0, 0).to_text(), "0");
    assert_eq!(dec(0, 2).to_text(), "0.00");
    assert_eq!(dec(5, 3).to_text(), "0.005");
    assert_eq!(dec(-5, 3).to_text(), "-0.005");
    assert_eq!(dec(-5, 0).to_text(), "-5");
    assert_eq!(dec(125, 2).to_text(), "1.25");
    assert_eq!(dec(10, 1).to_text(), "1.0");
    assert_eq!(dec(99, 2).to_text(), "0.99");
    assert_eq!(dec(i128::MAX, 0).to_text(), "170141183460469231731687303715884105727");
    assert_eq!(dec(i128::MIN, 0).to_text(), "-170141183460469231731687303715884105728");
    assert_eq!(dec(i128::MIN, 38).to_text(), "-1.70141183460469231731687303715884105728");
    assert_eq!(dec(1, 255).to_text(), format!("0.{}1", "0".repeat(254)));
}

#[test]
fn written_numerals_read_back() {
    for d in [
        dec(0, 0),
        dec(0, 7),
        dec(1, 0),
        dec(-1, 0),
        dec(4800, 1),
        dec(-330, 2),
        dec(5, 3),
        dec(123456789, 4),
        dec(i128::MAX, 0),
        dec(i128::MIN, 0),
        dec(i128::MAX, 255),
        dec(i128::MIN, 39),
        dec(7, 255),
    ] {
        assert_eq!(parse_decimal(&d.to_text()), Ok(d), "{:?}", d);
    }
}

#[test]
fn sums_are_exact() {
    assert_eq!(dec(15, 1).add(&dec(225, 2)), Some(dec(375, 2)));
    assert_eq!(dec(225, 2).add(&dec(15, 1)), Some(dec(375, 2)));
    assert_eq!(dec(1, 0).add(&dec(-1, 0)), Some(dec(0, 0)));
    assert_eq!(dec(1, 1).add(&dec(2, 1)), Some(dec(3, 1)));
    assert_eq!(dec(0, 0).add(&dec(0, 3)), Some(dec(0, 3)));
    assert_eq!(Decimal::zero(), dec(0, 0));
    assert_eq!(dec(i128::MAX, 0).add(&dec(1, 0)), None);
    assert_eq!(dec(i128::MIN, 0).add(&dec(-1, 0)), None);
    assert_eq!(dec(i128::MAX, 0).add(&dec(i128::MIN, 0)), Some(dec(-1, 0)));
    // an operand that does not fit at the finer scale
    assert_eq!(dec(i128::MAX, 0).add(&dec(0, 1)), None);
    assert_eq!(dec(0, 0).add(&dec(1, 200)), Some(dec(1, 200)));
    assert_eq!(dec(1, 0).add(&dec(1, 200)), None);
}

#[test]
fn totals_add_from_the_left() {
    assert_eq!(sum_decimals(&vec![]), Some(dec(0, 0)));
    assert_eq!(sum_decimals(&vec![dec(200, 1); 24]), Some(dec(4800, 1)));
    assert_eq!(
        sum_decimals(&vec![dec(1, 0), dec(25, 1), dec(-125, 2)]),
        Some(dec(225, 2))
    );
    assert_eq!(sum_decimals(&vec![dec(i128::MAX, 0), dec(1, 0), dec(-1, 0)]), None);
    assert_eq!(
        sum_decimals(&vec![dec(i128::MAX, 0), dec(-1, 0), dec(1, 0)]),
        Some(dec(i128::MAX, 0))
    );
}

#[test]
fn rescale_multiplies_by_a_power_of_ten() {
    assert_eq!(rescale(7, 0), Some(7));
    assert_eq!(rescale(7, 3), Some(7000));
    assert_eq!(rescale(-7, 2), Some(-700));
    assert_eq!(rescale(0, 255), Some(0));
    assert_eq!(rescale(1, 38), Some(100000000000000000000000000000000000000));
    assert_eq!(rescale(1, 39), None);
    assert_eq!(rescale(-2, 38), None);
    assert_eq!(rescale(i128::MAX, 1), None);
}

#[test]
fn integers_are_written_in_decimal() {
    assert_eq!(i64_to_text(0), "0");
    assert_eq!(i64_to_text(7), "7");
    assert_eq!(i64_to_text(10), "10");
    assert_eq!(i64_to_text(-10), "-10");
    assert_eq!(i64_to_text(1700000000), "1700000000");
    assert_eq!(i64_to_text(i64::MAX), "9223372036854775807");
    assert_eq!(i64_to_text(i64::MIN), "-9223372036854775808");
    for n in i8::MIN..=i8::MAX {
        assert_eq!(i8_to_text(n), n.to_string());
    }
    let mut out = String::from("n=");
    push_nat_digits(&mut out, 1203);
    assert_eq!(out, "n=1203");
    push_nat_digits(&mut out, u128::MAX);
    assert_eq!(out, format!("n=1203{}", u128::MAX));
}

#[test]
fn digits_and_their_characters() {
    assert_eq!(digit_to_char(0), '0');
    assert_eq!(digit_to_char(9), '9');
    assert!(is_digit_char('0') && is_digit_char('5') && is_digit_char('9'));
    assert!(!is_digit_char('/') && !is_digit_char(':') && !is_digit_char('a') && !is_digit_char('٣'));
}

#[test]
fn small_integers_are_read() {
    for n in i8::MIN..=i8::MAX {
        assert_eq!(parse_i8(&n.to_string()), Ok(n));
    }
    assert_eq!(parse_i8("+7"), Ok(7));
    assert_eq!(parse_i8("007"), Ok(7));
    assert_eq!(parse_i8("-0"), Ok(0));
    for text in ["128", "-129", "300", "99999999999999999999999999999999999999999999"] {
        assert_eq!(parse_i8(text), Err(RowError::NumberOutOfRange), "{:?}", text);
    }
    for text in ["", "-", "+", "7.", "7.0", ".7", "21.5", "1e1", "seven", " 7", "7 "] {
        assert_eq!(parse_i8(text), Err(RowError::MalformedNumber), "{:?}", text);
        assert!(text.parse::<i8>().is_err());
    }
}
