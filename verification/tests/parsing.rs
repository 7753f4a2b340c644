use mandelbrot::number::{read_i32, read_usize};
use mandelbrot::{parse_pair, split_pair, Token};
use num::Complex;
use std::str::FromStr;

/// A double, read as std reads one.
#[derive(Debug, PartialEq)]
struct Real(f64);

impl Token for Real {
    fn read(s: &str) -> Option<Self> {
        match f64::from_str(s) {
            Ok(value) => Some(Real(value)),
            Err(_) => None,
        }
    }
}

fn parse_complex(s: &str) -> Option<Complex<f64>> {
    match parse_pair::<Real>(s, ',') {
        Some((re, im)) => Some(Complex { re: re.0, im: im.0 }),
        None => None,
    }
}

#[test]
fn test_parse_pair() {
    assert_eq!(parse_pair::<i32>("", ','), None);
    assert_eq!(parse_pair::<i32>("1,", ','), None);
    assert_eq!(parse_pair::<Real>("0.1,0.2", ','), Some((Real(0.1), Real(0.2))));
    assert_eq!(parse_pair::<Real>("500x", 'x'), None);
    assert_eq!(parse_pair::<i32>("500x300", 'x'), Some((500, 300)));
}

#[test]
fn test_parse_complex() {
    assert_eq!(parse_complex("0.1,0.3"), Some(Complex { re: 0.1, im: 0.3 }));
    assert_eq!(parse_complex(",0.3"), None);
}

#[test]
fn parses_the_bounds_of_a_picture() {
    assert_eq!(parse_pair::<usize>("1000x750", 'x'), Some((1000, 750)));
    assert_eq!(parse_pair::<usize>("500x300", 'x'), Some((500, 300)));
    assert_eq!(parse_pair::<usize>("500x", 'x'), None);
    assert_eq!(parse_pair::<usize>("x300", 'x'), None);
    assert_eq!(parse_pair::<usize>("", 'x'), None);
    assert_eq!(parse_pair::<usize>("500", 'x'), None);
    assert_eq!(parse_pair::<usize>("500,300", 'x'), None);
}

#[test]
fn cuts_at_the_first_separator_only() {
    assert_eq!(split_pair("a,b,c", ','), Some(("a", "b,c")));
    assert_eq!(split_pair(",", ','), Some(("", "")));
    assert_eq!(split_pair(",x", ','), Some(("", "x")));
    assert_eq!(split_pair("x,", ','), Some(("x", "")));
    assert_eq!(split_pair("abc", ','), None);
    assert_eq!(split_pair("", ','), None);
    assert_eq!(parse_pair::<usize>("1x2x3", 'x'), None);
    assert_eq!(parse_pair::<i32>("-1,-2", ','), Some((-1, -2)));
}

#[test]
fn cuts_between_characters_not_bytes() {
    assert_eq!(split_pair("é,ü", ','), Some(("é", "ü")));
    assert_eq!(split_pair("12é34", 'é'), Some(("12", "34")));
    assert_eq!(parse_pair::<usize>("12é34", 'é'), Some((12, 34)));
    assert_eq!(split_pair("日本語", '本'), Some(("日", "語")));
}

#[test]
fn reads_unsigned_numbers_as_std_does() {
    let max = usize::MAX.to_string();
    let over = format!("{}0", max);
    let texts = [
        "0", "7", "42", "007", "+5", "+0", "+", "-", "", "-0", "-5", "++5", "+-5", "5+", " 5", "5 ",
        "1_000", "0x10", "1e3", "1.0", "٣", "５", "18446744073709551615", "18446744073709551616",
        "4294967295", "4294967296", "99999999999999999999999999", "00000000000000000000000001",
        max.as_str(), over.as_str(),
    ];
    for text in texts.iter() {
        assert_eq!(read_usize(text), usize::from_str(text).ok(), "for {:?}", text);
        assert_eq!(<usize as Token>::read(text), usize::from_str(text).ok(), "for {:?}", text);
    }
    assert_eq!(read_usize("42"), Some(42));
    assert_eq!(read_usize("+5"), Some(5));
    assert_eq!(read_usize("-0"), None);
    assert_eq!(read_usize(&max), Some(usize::MAX));
    assert_eq!(read_usize(&over), None);
}

#[test]
fn reads_signed_numbers_as_std_does() {
    let texts = [
        "0", "7", "-7", "+7", "-0", "+0", "007", "-007", "+", "-", "", "--5", "+-5", "-+5", "5-",
        " 5", "5 ", "- 5", "1_000", "1.0", "٣", "2147483647", "2147483648",
        "-2147483648",
        "-2147483649", "+2147483647", "+2147483648", "99999999999999999999",
        "-99999999999999999999",
        "000000000000000000002147483647", "-000000000000000000002147483648",
    ];
    for text in texts.iter() {
        assert_eq!(read_i32(text), i32::from_str(text).ok(), "for {:?}", text);
        assert_eq!(<i32 as Token>::read(text), i32::from_str(text).ok(), "for {:?}", text);
    }
    assert_eq!(read_i32("-2147483648"), Some(i32::MIN));
    assert_eq!(read_i32("2147483647"), Some(i32::MAX));
    assert_eq!(read_i32("2147483648"), None);
    assert_eq!(read_i32("-0"), Some(0));
}

#[test]
fn parsing_twice_gives_the_same_pair() {
    let first = parse_pair::<usize>("640x480", 'x');
    let second = parse_pair::<usize>("640x480", 'x');
    assert_eq!(first, second);
    assert_eq!(first, Some((640, 480)));
}
