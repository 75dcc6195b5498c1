use dgi::log::json::{comes_before, has_ordered_keys, serialization_failure, JsonNumber, JsonValue};
use dgi::log::pretty::{Options, Pretty};
use dgi::log::writers::{fields_fit_check, writers_to_run, Json};
use dgi::log::event::Field;
use serde_json::{Number, Value};

fn s(t: &str) -> String {
    t.to_string()
}

fn to_serde(v: &JsonValue) -> Value {
    match v {
        JsonValue::Null => Value::Null,
        JsonValue::Bool(b) => Value::Bool(*b),
        JsonValue::Number(JsonNumber::PosInt(u)) => Value::Number(Number::from(*u)),
        JsonValue::Number(JsonNumber::NegInt(i)) => Value::Number(Number::from(*i)),
        JsonValue::Number(JsonNumber::Float(t)) => Value::Number(serde_json::from_str(t).unwrap()),
        JsonValue::String(t) => Value::String(t.clone()),
        JsonValue::Array(a) => Value::Array(a.iter().map(to_serde).collect()),
        JsonValue::Object(m) => Value::Object(
            m.iter().map(|(k, v)| (k.clone(), to_serde(v))).collect::<serde_json::Map<String, Value>>(),
        ),
    }
}

fn sample() -> JsonValue {
    JsonValue::Object(vec![
        (s("a\"b"), JsonValue::Array(vec![
            JsonValue::Null,
            JsonValue::Bool(true),
            JsonValue::Bool(false),
            JsonValue::Number(JsonNumber::PosInt(0)),
            JsonValue::Number(JsonNumber::NegInt(-42)),
            JsonValue::Number(JsonNumber::Float(s("1.5e-7"))),
            JsonValue::Array(vec![]),
            JsonValue::Object(vec![]),
        ])),
        (s("tab\tand\u{1}"), JsonValue::String(s("line\nbreak \\ \u{1f} \u{7f} é"))),
        (s("z"), JsonValue::Object(vec![(s("inner"), JsonValue::Number(JsonNumber::PosInt(18446744073709551615)))])),
    ])
}

#[test]
fn pretty_text_with_quoted_names_reads_back_through_a_json_parser() {
    let v = sample();
    for (indent, linebreak, level) in [("  ", "\n", 0), ("\t", "\r\n", 3), ("", "", 1), (" ", "\n", 7)] {
        let options = Options { indent, linebreak, member_name_replacement: '-', quoted_member_name: true };
        let text = Pretty::new(level, &v, options).to_string();
        let read: Value = serde_json::from_str(&text).unwrap();
        assert_eq!(read, to_serde(&v));
    }
}

#[test]
fn a_failed_serialization_reads_back() {
    let v = serialization_failure(s("key must be a string"));
    let options = Options { indent: "  ", linebreak: "\n", member_name_replacement: '-', quoted_member_name: true };
    let text = Pretty::new(0, &v, options).to_string();
    let read: Value = serde_json::from_str(&text).unwrap();
    assert_eq!(read["inner"], "key must be a string");
    assert_eq!(read["message"], "serialization failed");
    assert_eq!(read, to_serde(&v));
}

#[test]
fn text_order_is_that_of_str() {
    let words = ["", "a", "ab", "b", "B", "é", "z\u{10ffff}", "inner", "message", "mess"];
    for x in words {
        for y in words {
            assert_eq!(comes_before(x, y), x < y, "{:?} {:?}", x, y);
        }
    }
}

#[test]
fn ordered_keys_are_checked_at_every_depth() {
    assert!(has_ordered_keys(&sample()));
    assert!(has_ordered_keys(&JsonValue::Object(vec![])));
    let unordered = JsonValue::Object(vec![(s("b"), JsonValue::Null), (s("a"), JsonValue::Null)]);
    assert!(!has_ordered_keys(&unordered));
    let repeated = JsonValue::Object(vec![(s("a"), JsonValue::Null), (s("a"), JsonValue::Null)]);
    assert!(!has_ordered_keys(&repeated));
    let nested = JsonValue::Array(vec![JsonValue::Null, JsonValue::Object(vec![(s("x"), unordered)])]);
    assert!(!has_ordered_keys(&nested));
}

#[test]
fn fields_with_unordered_keys_are_not_printed() {
    let bad = JsonValue::Object(vec![(s("b"), JsonValue::Null), (s("a"), JsonValue::Null)]);
    assert!(fields_fit_check(&vec![Field { name: "ok", value: JsonValue::Null }]));
    assert!(!fields_fit_check(&vec![
        Field { name: "ok", value: JsonValue::Null },
        Field { name: "bad", value: bad },
    ]));
}

#[test]
fn events_go_to_the_writers_that_take_them_in_order() {
    assert_eq!(writers_to_run(&vec![]), Vec::<usize>::new());
    assert_eq!(writers_to_run(&vec![false, false]), Vec::<usize>::new());
    assert_eq!(writers_to_run(&vec![true, false, true, true]), vec![0, 2, 3]);
}

#[test]
fn json_writer_appends_through_its_file() {
    let mut j = Json::new(Vec::<u8>::new());
    j.file_mut().extend_from_slice(b"{}\n");
    assert_eq!(j.file(), &b"{}\n".to_vec());
}
