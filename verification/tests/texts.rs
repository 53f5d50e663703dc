//! Texts, fenced blocks, JSON and dictionaries.
use scaffold::dict::Dict;
use scaffold::fence::{extract_inner, extract_whole};
use scaffold::json::{from_outside, json_to_value, parse_json, Json};
use scaffold::number::{float_of_natural, float_of_whole};
use scaffold::text::{decimal_text, find, find_last, hexadecimal_text, same_text, trim, white};
use scaffold::value::{Float, Value};

fn s(text: &str) -> String {
    text.to_string()
}

fn chars(text: &str) -> Vec<char> {
    text.chars().collect()
}

fn float(f: f64) -> Value {
    Value::Float(Float { bits: f.to_bits() })
}

#[test]
fn white_space_is_that_of_unicode() {
    for n in 0..=0x10ffffu32 {
        if let Some(c) = char::from_u32(n) {
            assert_eq!(white(c), c.is_whitespace(), "{:x}", n);
        }
    }
}

#[test]
fn texts_are_trimmed_at_both_ends() {
    for t in ["", " ", "a", " a ", "\t\n a b \u{a0}\u{3000}", "a\u{2028}", "\u{e9} \u{1F600}\r\n"] {
        assert_eq!(trim(t), t.trim());
    }
}

#[test]
fn texts_are_compared() {
    assert!(same_text("", ""));
    assert!(same_text("h\u{e9}", "h\u{e9}"));
    assert!(!same_text("a", "b"));
    assert!(!same_text("a", "ab"));
}

#[test]
fn places_in_a_text() {
    let hay = chars("abcabc");
    assert_eq!(find(&hay, &chars("bc"), 0), Some(1));
    assert_eq!(find(&hay, &chars("bc"), 2), Some(4));
    assert_eq!(find(&hay, &chars("bc"), 5), None);
    assert_eq!(find(&hay, &chars("x"), 0), None);
    assert_eq!(find(&hay, &chars(""), 6), Some(6));
    assert_eq!(find(&hay, &chars("a"), 100), None);
    assert_eq!(find_last(&hay, &chars("bc")), Some(4));
    assert_eq!(find_last(&hay, &chars("abcabc")), Some(0));
    assert_eq!(find_last(&hay, &chars("x")), None);
    assert_eq!(find_last(&chars(""), &chars("x")), None);
}

#[test]
fn numbers_as_text() {
    for n in [0, 1, 9, 10, 15, 16, 99, 100, 255, 256, 1234567890, u64::MAX] {
        assert_eq!(decimal_text(n), format!("{}", n));
        assert_eq!(hexadecimal_text(n), format!("{:x}", n));
    }
}

#[test]
fn blocks_that_are_a_whole_text() {
    assert_eq!(extract_whole(" {\"a\": 1} "), Some("{\"a\": 1}"));
    assert_eq!(extract_whole("```json\n{\"a\": 1}\n```"), Some("{\"a\": 1}"));
    assert_eq!(extract_whole(" ```\n [1]\n```\n"), Some("[1]"));
    assert_eq!(extract_whole("```json{}```"), Some("{}"));
    assert_eq!(extract_whole("```{}```"), Some("{}"));
    assert_eq!(extract_whole("```json\nno end"), None);
    assert_eq!(extract_whole("```json\n\n```"), Some(""));
    assert_eq!(extract_whole("```yaml\na: 1\n```"), Some("a: 1"));
    assert_eq!(extract_whole("text ```json\n1\n```"), Some("text ```json\n1\n```"));
    assert_eq!(extract_whole("```json\n1\n``` and ```2```"), Some("1\n``` and ```2"));
    assert_eq!(extract_whole("```json"), None);
    assert_eq!(extract_whole("```"), None);
}

#[test]
fn blocks_inside_a_text() {
    assert_eq!(extract_inner("  plain "), "plain");
    assert_eq!(extract_inner("```json\n{\"a\": 1}\n```"), "{\"a\": 1}");
    assert_eq!(extract_inner("Sure: ```json {\"a\": 1} ``` bye"), "{\"a\": 1}");
    assert_eq!(extract_inner("```\n[1]\n``` then ```json\n[2]\n```"), "[2]");
    assert_eq!(extract_inner("```python\nx\n```"), "x");
    assert_eq!(extract_inner("```x```"), "x");
    assert_eq!(extract_inner("```x\n"), "```x");
    assert_eq!(extract_inner("a ```json\n1"), "a ```json\n1");
    assert_eq!(extract_inner(""), "");
}

#[test]
fn a_fenced_body_is_given_back() {
    for body in ["{}", " [1, 2]\t", "", "\n\n", "a\nb", "\u{e9}", "`x`"] {
        let fenced = format!("```json\n{}\n```", body);
        assert_eq!(extract_whole(&fenced), Some(body.trim()));
        assert_eq!(extract_inner(&fenced), body.trim());
    }
    assert_eq!(extract_whole("```json\na ``` b\n```"), Some("a ``` b"));
}

fn value(text: &str) -> Value {
    json_to_value(parse_json(text).unwrap())
}

#[test]
fn json_is_read() {
    assert_eq!(value("null"), Value::Null);
    assert_eq!(value(" true "), Value::Bool(true));
    assert_eq!(value("-7"), Value::Int(-7));
    assert_eq!(value("9223372036854775807"), Value::Int(i64::MAX));
    assert_eq!(value("9223372036854775808"), float(9223372036854775808.0));
    assert_eq!(value("1.5"), float(1.5));
    assert_eq!(value("1.0"), float(1.0));
    assert_eq!(value("\"a\\n\\u00e9\""), Value::String(s("a\n\u{e9}")));
    assert_eq!(
        value("[1, [true], {}]"),
        Value::List(vec![
            Value::Int(1),
            Value::List(vec![Value::Bool(true)]),
            Value::Dict(Dict::new()),
        ])
    );
    let mut d = Dict::new();
    d.insert(s("b"), Value::Null);
    d.insert(s("a"), Value::Int(2));
    assert_eq!(value("{\"a\": 1, \"b\": null, \"a\": 2}"), Value::Dict(d));
}

#[test]
fn what_is_no_json_is_refused_with_a_message() {
    for text in ["", "{", "nul", "[1,]", "{a: 1}", "1 2"] {
        let message = parse_json(text).unwrap_err();
        let given = serde_json::from_str::<serde_json::Value>(text).unwrap_err().to_string();
        assert_eq!(message, given);
    }
}

#[test]
fn numbers_of_json_keep_both_forms() {
    match parse_json("3").unwrap() {
        Json::Number { whole, natural, float } => {
            assert_eq!(whole, Some(3));
            assert_eq!(natural, Some(3));
            assert_eq!(float.bits, 3.0f64.to_bits());
        }
        other => panic!("{:?}", other),
    }
    match from_outside(serde_json::Value::from(0.25)) {
        Json::Number { whole, natural, float } => {
            assert_eq!(whole, None);
            assert_eq!(natural, None);
            assert_eq!(float.bits, 0.25f64.to_bits());
        }
        other => panic!("{:?}", other),
    }
    match parse_json("18446744073709551615").unwrap() {
        Json::Number { whole, natural, float } => {
            assert_eq!(whole, None);
            assert_eq!(natural, Some(u64::MAX));
            assert_eq!(float.bits, (u64::MAX as f64).to_bits());
        }
        other => panic!("{:?}", other),
    }
}

#[test]
fn numbers_that_are_no_integers_that_fit_become_floating_point() {
    let float = |f: f64| Value::Float(Float { bits: f.to_bits() });
    let value = |text: &str| json_to_value(parse_json(text).unwrap());
    assert_eq!(value("9223372036854775807"), Value::Int(i64::MAX));
    assert_eq!(value("9223372036854775808"), float(9223372036854775808.0));
    assert_eq!(value("-9223372036854775808"), Value::Int(i64::MIN));
    assert_eq!(value("1.0"), float(1.0));
    assert_eq!(value("-0"), float(-0.0));
    assert_eq!(value("1e300"), float(1e300));
}

#[test]
fn integers_are_rounded_to_the_nearest_number() {
    let mut naturals: Vec<u64> = vec![0, 1, 2, 3, 10, 1000, 0x001f_ffff_ffff_ffff];
    for shift in 0..64 {
        let power = 1u64 << shift;
        for near in 0..9 {
            naturals.push(power.wrapping_add(near));
            naturals.push(power.wrapping_sub(near));
            naturals.push(power.wrapping_mul(2 * near + 1));
        }
    }
    for shift in 53..64 {
        let half = 1u64 << (shift - 53);
        for odd in [1u64, 3, 5, 7] {
            naturals.push((1u64 << shift) + half * odd);
            naturals.push((1u64 << shift) + half * odd + 1);
            naturals.push((1u64 << shift) + half * odd - 1);
        }
    }
    for n in naturals {
        assert_eq!(float_of_natural(n).bits, (n as f64).to_bits(), "{}", n);
        let i = n as i64;
        assert_eq!(float_of_whole(i).bits, (i as f64).to_bits(), "{}", i);
    }
    assert_eq!(float_of_natural(9007199254740993).bits, 0x4340_0000_0000_0000);
    assert_eq!(float_of_natural(9223372036854775808).bits, 0x43e0_0000_0000_0000);
    assert_eq!(float_of_whole(-1).bits, 0xbff0_0000_0000_0000);
}

#[test]
fn dictionaries() {
    let mut d: Dict<i64> = Dict::new();
    assert!(d.is_empty());
    assert!(d.get(&s("a")).is_none());
    d.insert(s("a"), 1);
    d.insert(s("b"), 2);
    d.insert(s("a"), 3);
    assert!(!d.is_empty());
    assert_eq!(d.get(&s("a")), Some(&3));
    assert_eq!(d.get(&s("b")), Some(&2));
    assert_eq!(d.list(), &vec![(s("a"), 3), (s("b"), 2)]);
}

#[test]
fn values_are_equal_to_themselves_without_nan() {
    let mut d = Dict::new();
    d.insert(s("f"), float(1.0));
    let v = Value::Struct { name: s("S"), fields: d };
    assert_eq!(v, v.clone());
    let nan = Value::List(vec![float(f64::NAN)]);
    assert_ne!(nan, nan.clone());
    assert_eq!(Value::List(vec![float(0.0)]), Value::List(vec![float(-0.0)]));
    assert_eq!(Value::List(vec![float(-0.0)]), Value::List(vec![float(0.0)]));
}
