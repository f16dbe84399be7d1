use portrelay::seconds::{push_micros, seconds_string};
use portrelay::text::{is_whitespace, parse_number, push_decimal, push_padded, NumberError};

#[test]
fn white_space_is_that_of_unicode() {
    for code in 0..=0x10_ffff_u32 {
        if let Some(c) = char::from_u32(code) {
            assert_eq!(is_whitespace(c), c.is_whitespace(), "{code:x}");
        }
    }
}

#[test]
fn numbers_read_as_integers_do() {
    for text in ["", "+", "-", "+5", "0", "00", "65535", "65536", "6553x6", "9999x", "99999x", "-0", " 1"] {
        let chars: Vec<char> = text.chars().collect();
        match text.parse::<u16>() {
            Ok(number) => assert_eq!(parse_number(&chars, 65_535), Ok(u64::from(number))),
            Err(error) => assert_eq!(
                parse_number(&chars, 65_535).unwrap_err().message(),
                error.to_string()
            ),
        }
    }
    assert_eq!(parse_number(&[], 9), Err(NumberError::Empty));
    assert_eq!(parse_number(&['x'], 9), Err(NumberError::InvalidDigit));
    assert_eq!(parse_number(&['1', '0'], 9), Err(NumberError::TooLarge));
}

#[test]
fn numbers_write_and_read_back() {
    for number in [0, 7, 10, 99, 100, 65_535, 1_000_000_007, u64::MAX] {
        let mut text = String::from(">");
        push_decimal(&mut text, u128::from(number));
        assert_eq!(text, format!(">{number}"));
        let chars: Vec<char> = text.chars().skip(1).collect();
        assert_eq!(parse_number(&chars, u64::MAX), Ok(number));
    }
    let mut text = String::new();
    push_padded(&mut text, 42, 6);
    push_padded(&mut text, 1_234_567, 3);
    assert_eq!(text, "000042567");
}

fn micros(number: u64) -> String {
    let mut text = String::new();
    push_micros(&mut text, number);
    text
}

#[test]
fn seconds_are_those_of_doubles() {
    let mut numbers = vec![
        0,
        1,
        499,
        999_999,
        1_000_000,
        1_000_001,
        (1 << 52) - 1,
        1 << 52,
        (1 << 53) - 1,
        1 << 53,
        (1 << 53) + 1,
        (1 << 54) + 3,
        8_589_934_592_000_001,
        u64::MAX - 1_024,
        u64::MAX - 1,
        u64::MAX,
    ];
    let mut state = 0x9e37_79b9_7f4a_7c15_u64;
    for shift in 0..64 {
        for _ in 0..64 {
            state = state
                .wrapping_mul(6_364_136_223_846_793_005)
                .wrapping_add(1_442_695_040_888_963_407);
            numbers.push(state >> shift);
        }
    }
    for number in numbers {
        assert_eq!(micros(number), format!("{:.6}", number as f64 / 1_000_000.0));
        let expected = if number % 1_000 == 0 {
            (number / 1_000).to_string()
        } else {
            format!("{:.3}", number as f64 / 1_000.0)
        };
        assert_eq!(seconds_string(number), expected);
    }
}

#[test]
fn small_counts_lose_no_digit() {
    assert_eq!(micros(1_500_000), "1.500000");
    assert_eq!(micros(4_503_599_627_370_495), "4503599627.370495");
    assert_eq!(seconds_string(1), "0.001");
    assert_eq!(seconds_string(250), "0.250");
    assert_eq!(seconds_string(300_000), "300");
}
