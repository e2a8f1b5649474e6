use befunge_93::decimal::{parse_i64, push_decimal};

fn text_of(v: i64) -> String {
    let mut s = String::from("x");
    push_decimal(&mut s, v);
    s
}

#[test]
fn decimal_text_of_some_values() {
    assert_eq!(text_of(0), "x0");
    assert_eq!(text_of(7), "x7");
    assert_eq!(text_of(10), "x10");
    assert_eq!(text_of(36), "x36");
    assert_eq!(text_of(-1), "x-1");
    assert_eq!(text_of(-120), "x-120");
    assert_eq!(text_of(i64::MAX), "x9223372036854775807");
    assert_eq!(text_of(i64::MIN), "x-9223372036854775808");
}

#[test]
fn decimal_text_agrees_with_the_standard_formatting() {
    let mut v: i64 = 1;
    for _ in 0..62 {
        for w in [v, -v, v - 1, v + 1, -v - 1] {
            assert_eq!(text_of(w), format!("x{}", w));
        }
        v *= 2;
    }
    for w in -1000i64..1000 {
        assert_eq!(text_of(w), format!("x{}", w));
    }
}

#[test]
fn parse_reads_signed_integers() {
    assert_eq!(parse_i64(b"0"), Some(0));
    assert_eq!(parse_i64(b"42"), Some(42));
    assert_eq!(parse_i64(b"+42"), Some(42));
    assert_eq!(parse_i64(b"-42"), Some(-42));
    assert_eq!(parse_i64(b"007"), Some(7));
    assert_eq!(parse_i64(b"-0"), Some(0));
    assert_eq!(parse_i64(b"9223372036854775807"), Some(i64::MAX));
    assert_eq!(parse_i64(b"-9223372036854775808"), Some(i64::MIN));
}

#[test]
fn parse_rejects_what_is_no_integer() {
    assert_eq!(parse_i64(b""), None);
    assert_eq!(parse_i64(b"+"), None);
    assert_eq!(parse_i64(b"-"), None);
    assert_eq!(parse_i64(b"--1"), None);
    assert_eq!(parse_i64(b"+-1"), None);
    assert_eq!(parse_i64(b"1a"), None);
    assert_eq!(parse_i64(b"a1"), None);
    assert_eq!(parse_i64(b"1 "), None);
    assert_eq!(parse_i64(b" 1"), None);
    assert_eq!(parse_i64(b"1\n"), None);
    assert_eq!(parse_i64(b"1.5"), None);
    assert_eq!(parse_i64(&[0x31, 0xb2]), None);
    assert_eq!(parse_i64(b"9223372036854775808"), None);
    assert_eq!(parse_i64(b"-9223372036854775809"), None);
    assert_eq!(parse_i64(b"99999999999999999999999999"), None);
}

#[test]
fn parse_agrees_with_the_standard_parser() {
    let samples: [&str; 24] = [
        "", "0", "-0", "+0", "1", "-1", "+1", "12345", "-12345", "00012", "+", "-", "++1", "1+",
        "9223372036854775807", "9223372036854775808", "-9223372036854775808",
        "-9223372036854775809", "18446744073709551615", "1e3", "0x10", " 7", "7 ", "1_000",
    ];
    for s in samples.iter() {
        assert_eq!(parse_i64(s.as_bytes()), s.parse::<i64>().ok(), "text {:?}", s);
    }
}

#[test]
fn parse_inverts_decimal_text() {
    for v in [0i64, 1, -1, 99, -99, 1234567890123, i64::MAX, i64::MIN] {
        let mut s = String::new();
        push_decimal(&mut s, v);
        assert_eq!(parse_i64(s.as_bytes()), Some(v));
    }
}
