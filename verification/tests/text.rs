use rsrq::util::text::{
    bool_to_string, i32_to_string, pad2_string, parse_signed_text, parse_unsigned_text,
    split_piece, trim_matches, u128_to_string, usize_to_string,
};

#[test]
fn decimal_numerals_are_written_without_leading_zeros() {
    assert_eq!(u128_to_string(0), "0");
    assert_eq!(u128_to_string(7), "7");
    assert_eq!(u128_to_string(10), "10");
    assert_eq!(u128_to_string(3723), "3723");
    assert_eq!(u128_to_string(u128::MAX), u128::MAX.to_string());
    assert_eq!(usize_to_string(usize::MAX), usize::MAX.to_string());
}

#[test]
fn signed_numerals_carry_a_minus_sign() {
    assert_eq!(i32_to_string(0), "0");
    assert_eq!(i32_to_string(-1), "-1");
    assert_eq!(i32_to_string(i32::MIN), "-2147483648");
    assert_eq!(i32_to_string(i32::MAX), "2147483647");
}

#[test]
fn booleans_are_written_in_words() {
    assert_eq!(bool_to_string(true), "true");
    assert_eq!(bool_to_string(false), "false");
}

#[test]
fn two_digit_padding() {
    assert_eq!(pad2_string(0), "00");
    assert_eq!(pad2_string(9), "09");
    assert_eq!(pad2_string(10), "10");
    assert_eq!(pad2_string(123), "123");
}

#[test]
fn unsigned_numbers_are_read_as_std_reads_them() {
    for text in ["0", "1", "+5", "007", "", "+", "-1", "++1", "1 ", " 1", "1_0", "255", "256", "١"] {
        let expected: Option<u128> = text.parse::<u8>().ok().map(|v| v as u128);
        assert_eq!(parse_unsigned_text(text, 255), expected, "{:?}", text);
    }
    assert_eq!(
        parse_unsigned_text("340282366920938463463374607431768211455", u128::MAX),
        Some(u128::MAX)
    );
    assert_eq!(parse_unsigned_text("340282366920938463463374607431768211456", u128::MAX), None);
}

#[test]
fn signed_numbers_are_read_as_std_reads_them() {
    for text in ["0", "-0", "+0", "-", "+", "", "-128", "-129", "127", "128", "--1", "-+1", "+-1", "1-"] {
        let expected: Option<i8> = text.parse::<i8>().ok();
        let got = parse_signed_text(text, 128, 127).map(|(negative, n)| {
            if negative {
                (-(n as i128)) as i8
            } else {
                n as i8
            }
        });
        assert_eq!(got, expected, "{:?}", text);
    }
}

#[test]
fn trimming_strips_every_leading_and_trailing_occurrence() {
    for text in ["", "\"", "\"\"", "\"a\"", "\"\"a\"\"", "a\"b", "\"a", "a\"", "'a'", "abc"] {
        assert_eq!(trim_matches(text, '"'), text.trim_matches('"'), "{:?}", text);
        assert_eq!(trim_matches(text, '\''), text.trim_matches('\''), "{:?}", text);
    }
}

#[test]
fn pieces_are_those_of_split() {
    for text in ["", ":", "a", "a:b", "a:b:c", "a::c", ":a:", "rsrq:queued:T", "rsrq:queued:a:b"] {
        let pieces: Vec<&str> = text.split(':').collect();
        for k in 0..5 {
            let expected = pieces.get(k).map(|p| p.to_string());
            assert_eq!(split_piece(text, ':', k), expected, "{:?} {}", text, k);
        }
    }
}
