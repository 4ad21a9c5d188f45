use tasks::{Json, Text, TextFormat};

const FORMATS: [TextFormat; 4] = [
    TextFormat::AsSingleLine,
    TextFormat::AsMultiLine,
    TextFormat::AsRow,
    TextFormat::AsHeader,
];

fn same_in_every_format<T: Text>(value: T, expected: &str) {
    for format in FORMATS {
        assert_eq!(value.text(&format), vec![expected.to_string()]);
    }
}

#[test]
fn booleans_and_characters() {
    same_in_every_format(true, "true");
    same_in_every_format(false, "false");
    same_in_every_format('x', "x");
    same_in_every_format('é', "é");
}

#[test]
fn unsigned_integers() {
    same_in_every_format(0u8, "0");
    same_in_every_format(255u8, "255");
    same_in_every_format(65535u16, "65535");
    same_in_every_format(4294967295u32, "4294967295");
    same_in_every_format(u64::MAX, "18446744073709551615");
    same_in_every_format(u128::MAX, "340282366920938463463374607431768211455");
    same_in_every_format(1000usize, "1000");
}

#[test]
fn signed_integers() {
    same_in_every_format(0i8, "0");
    same_in_every_format(-128i8, "-128");
    same_in_every_format(127i8, "127");
    same_in_every_format(-32768i16, "-32768");
    same_in_every_format(-1i32, "-1");
    same_in_every_format(i64::MIN, "-9223372036854775808");
    same_in_every_format(i64::MAX, "9223372036854775807");
    same_in_every_format(i128::MIN, "-170141183460469231731687303715884105728");
    same_in_every_format(i128::MAX, "170141183460469231731687303715884105727");
    same_in_every_format(-10isize, "-10");
}

#[test]
fn integers_render_as_std_prints_them() {
    for n in [0u32, 7, 10, 99, 100, 101, 1000, 123456789, u32::MAX] {
        assert_eq!(n.text(&TextFormat::AsRow), vec![format!("{}", n)]);
        let neg = -(n as i64);
        assert_eq!(neg.text(&TextFormat::AsRow), vec![format!("{}", neg)]);
    }
}

#[test]
fn strings_and_json() {
    same_in_every_format("plain text", "plain text");
    same_in_every_format(String::from("owned"), "owned");
    same_in_every_format("", "");
    same_in_every_format(
        Json::parse("{ \"a\" : [ 1, null ] }").unwrap(),
        "{\"a\":[1,null]}",
    );
}

#[test]
fn options() {
    for format in FORMATS {
        assert_eq!(None::<u8>.text(&format), Vec::<String>::new());
        assert_eq!(Some(5u8).text(&format), vec!["5".to_string()]);
        assert_eq!(Some(Some(true)).text(&format), vec!["true".to_string()]);
        assert_eq!(Some(None::<bool>).text(&format), Vec::<String>::new());
    }
}

#[test]
fn unit() {
    same_in_every_format((), "");
}

#[test]
fn one_tuples() {
    assert_eq!((5u8,).text(&TextFormat::AsSingleLine), vec!["5".to_string()]);
    assert_eq!((5u8,).text(&TextFormat::AsMultiLine), vec!["5".to_string()]);
    assert_eq!((5u8,).text(&TextFormat::AsRow), vec!["5".to_string()]);
    assert_eq!((5u8,).text(&TextFormat::AsHeader), vec![String::new()]);
    assert_eq!((None::<u8>,).text(&TextFormat::AsRow), Vec::<String>::new());
    assert_eq!((None::<u8>,).text(&TextFormat::AsHeader), vec![String::new()]);
}

struct Probe;

impl Text for Probe {
    fn text(&self, format: &TextFormat) -> Vec<String> {
        vec![format!("{:?}", format)]
    }
}

#[test]
fn one_tuples_pick_the_format_of_their_member() {
    assert_eq!(
        (Probe,).text(&TextFormat::AsSingleLine),
        vec!["AsSingleLine".to_string()]
    );
    assert_eq!(
        (Probe,).text(&TextFormat::AsMultiLine),
        vec!["AsMultiLine".to_string()]
    );
    assert_eq!(
        (Probe,).text(&TextFormat::AsRow),
        vec!["AsSingleLine".to_string()]
    );
    assert_eq!((Probe,).text(&TextFormat::AsHeader), vec![String::new()]);
    assert_eq!(
        Some(Probe).text(&TextFormat::AsHeader),
        vec!["AsHeader".to_string()]
    );
}
