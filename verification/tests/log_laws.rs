use dgi::log::escape::write_string;
use dgi::log::json::{JsonNumber, JsonValue};
use dgi::log::pretty::{Options, Pretty};
use dgi::log::level::Level;
use dgi::log::text::{push_decimal, push_signed_decimal, push_two_digits};
use dgi::log::writers::{Alert, Console, Json};

fn quoted(t: &str) -> String {
    let mut out = String::new();
    write_string(t, &mut out);
    out
}

#[test]
fn escaping_reads_back_through_a_json_parser() {
    let samples = [
        "",
        "plain",
        "quote \" and backslash \\",
        "tab\tnewline\ncarriage\rbell\u{7}nul\u{0}",
        "\u{8}\u{c}\u{1f}\u{7f}\u{80}\u{9f}",
        "unicode é 世界 \u{2028} \u{1F600}",
    ];
    for s in samples {
        let back: String = serde_json::from_str(&quoted(s)).unwrap();
        assert_eq!(back, s);
    }
}

#[test]
fn distinct_strings_give_distinct_literals() {
    assert_ne!(quoted("\n"), quoted("\\n"));
    assert_ne!(quoted("\\"), quoted("\\\\"));
    assert_ne!(quoted("\u{1}"), quoted("\\u0001"));
}

#[test]
fn decimal_text_reads_back() {
    for n in [0u64, 1, 9, 10, 99, 100, 65535, 1_000_000_007, u64::MAX] {
        let mut out = String::new();
        push_decimal(&mut out, n);
        assert_eq!(out.parse::<u64>().unwrap(), n);
        assert!(n == 0 || !out.starts_with('0'));
    }
    for i in [i64::MIN, -1, 0, 1, i64::MAX] {
        let mut out = String::new();
        push_signed_decimal(&mut out, i);
        assert_eq!(out.parse::<i64>().unwrap(), i);
    }
}

#[test]
fn zero_padding_reads_back() {
    for n in [0u64, 5, 10, 12345] {
        let mut out = String::new();
        push_two_digits(&mut out, n);
        assert!(out.len() >= 2);
        assert_eq!(out.parse::<u64>().unwrap(), n);
    }
}

#[test]
fn writers_take_every_more_severe_level() {
    for max in Level::all() {
        let console = Console::new().max_verbosity(*max);
        let alert = Alert::new().max_verbosity(*max);
        let json = Json::new(()).max_verbosity(*max);
        assert!(console.enabled_for(Level::Fatal));
        for v in Level::all() {
            for u in Level::all() {
                if console.enabled_for(*v) && u.rank() <= v.rank() {
                    assert!(console.enabled_for(*u));
                    assert!(alert.enabled_for(*u));
                    assert!(json.enabled_for(*u));
                }
            }
        }
    }
}

#[test]
fn member_names_are_single_tokens() {
    let v = JsonValue::Object(vec![(
        "a\u{3000}b\u{85}c\nd".to_string(),
        JsonValue::Number(JsonNumber::PosInt(1)),
    )]);
    let text = Pretty::new(0, &v, Options::default()).to_string();
    let name_line = text.lines().nth(1).unwrap();
    let name = name_line.trim_start().split(": ").next().unwrap();
    assert_eq!(name, "a-b-c-d");
    assert!(!name.chars().any(|c| c.is_whitespace() || c.is_control()));
}
