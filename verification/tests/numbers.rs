use braidpipe::bytes::{copy_into, from_le, to_le};
use braidpipe::double::{at_most, ratio_nanos, times_floor, times_nearest};
use braidpipe::text::{
    contains, parse_signed, parse_unsigned, push_bool, push_decimal, push_seconds, push_signed,
    split_words, starts_with,
};

fn samples() -> Vec<f64> {
    let mut v = vec![
        0.0,
        -0.0,
        1.0,
        -1.0,
        0.5,
        1.5,
        2.5,
        0.1,
        0.3333333333333333,
        1e-320,
        5e-324,
        2.2250738585072014e-308,
        1e15,
        9007199254740993.0,
        1e19,
        1.8446744073709552e19,
        1e300,
        f64::MAX,
        f64::INFINITY,
        f64::NEG_INFINITY,
        f64::NAN,
    ];
    let mut x: u64 = 0x9e37_79b9_7f4a_7c15;
    for _ in 0..2000 {
        x ^= x << 13;
        x ^= x >> 7;
        x ^= x << 17;
        v.push(f64::from_bits(x));
        v.push((x % 1_000_000_007) as f64 / 1e6);
    }
    v
}

#[test]
fn products_match_double_arithmetic() {
    for x in samples() {
        for factor in [1u32, 2, 3, 24, 25, 30, 60, 1_000_000, u32::MAX] {
            let product = x * f64::from(factor);
            assert_eq!(times_floor(x.to_bits(), factor, u64::MAX), product as u64);
            assert_eq!(
                times_nearest(x.to_bits(), factor, u64::from(u32::MAX)),
                u64::from(product.round() as u32)
            );
        }
    }
}

#[test]
fn comparisons_match_double_arithmetic() {
    let bounds = [0.0f64, 0.0005, 0.001, 0.015, 0.5, 1.0, 1e-310, 1e300];
    for x in samples() {
        for bound in bounds {
            assert_eq!(at_most(x.to_bits(), bound.to_bits()), x <= bound);
        }
    }
}

#[test]
fn ratios_match_double_arithmetic() {
    for d in (1u64..2000).chain([0x7fff_ffff, 0xffff_ffff, 0x1_ffff_fffe]) {
        let one = std::time::Duration::from_secs_f64(1.0 / d as f64);
        assert_eq!(u128::from(ratio_nanos(1, d)), one.as_nanos());
        if d % 2 == 0 {
            let three = std::time::Duration::from_secs_f64(1.5 / (d / 2) as f64);
            assert_eq!(u128::from(ratio_nanos(3, d)), three.as_nanos());
        }
    }
}

#[test]
fn numerals() {
    let mut out = String::from("n=");
    push_decimal(&mut out, u64::MAX);
    assert_eq!(out, "n=18446744073709551615");
    let mut out = String::new();
    push_signed(&mut out, i64::MIN);
    push_bool(&mut out, true);
    push_decimal(&mut out, 0);
    assert_eq!(out, "-9223372036854775808true0");
    for text in ["0", "007", "+1", "-1", "", "+", "1x", " 1", "18446744073709551615",
        "18446744073709551616", "99999999999999999999999"]
    {
        assert_eq!(parse_unsigned(text, u64::MAX), text.parse::<u64>().ok());
        assert_eq!(parse_unsigned(text, 255), text.parse::<u8>().ok().map(u64::from));
        assert_eq!(parse_signed(text), text.parse::<i64>().ok());
    }
    for text in ["-9223372036854775808", "-9223372036854775809", "9223372036854775807", "-", "--1"] {
        assert_eq!(parse_signed(text), text.parse::<i64>().ok());
    }
}

#[test]
fn seconds_read_like_doubles() {
    let mut x: u64 = 0x2545_f491_4f6c_dd1d;
    let mut samples: Vec<u64> = vec![0, 1, 10, 999_999, 1_000_000, 1_000_001, 33_333, 9_012_700,
        100_000, 999_999_999_999_999];
    for _ in 0..5000 {
        x ^= x << 13;
        x ^= x >> 7;
        x ^= x << 17;
        samples.push(x % 1_000_000_000_000_000);
        samples.push(x % 100_000_000);
    }
    for us in samples {
        let mut out = String::new();
        push_seconds(&mut out, us);
        assert_eq!(out, format!("{}", us as f64 / 1e6));
    }
}

#[test]
fn searching_and_splitting() {
    for (hay, needle) in [("abcabd", "abd"), ("aaa", "b"), ("", ""), ("x", "xyz"), ("\u{e9}a", "a")] {
        assert_eq!(contains(hay, needle), hay.contains(needle));
        assert_eq!(starts_with(hay, needle), hay.starts_with(needle));
    }
    for text in ["", "  ", "a", " a  b\tc\n", "\u{a0}x\u{2003}y\u{3000}", "a\u{200b}b"] {
        let expected: Vec<String> = text.split_whitespace().map(|w| w.to_string()).collect();
        assert_eq!(split_words(text), expected);
    }
}

#[test]
fn little_endian_numbers() {
    assert_eq!(to_le(0x0102_0304, 4), vec![4, 3, 2, 1]);
    assert_eq!(from_le(&[9, 4, 3, 2, 1], 1, 4), 0x0102_0304);
    let mut buf = vec![0u8; 5];
    copy_into(&mut buf, 2, &[7, 8]);
    assert_eq!(buf, vec![0, 0, 7, 8, 0]);
}
