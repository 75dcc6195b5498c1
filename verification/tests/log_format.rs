use dgi::log::event::{Event, Field, Timestamp};
use dgi::log::escape::write_string;
use dgi::log::json::{serialization_failure, JsonNumber, JsonValue};
use dgi::log::pretty::{Options, Pretty};
use dgi::log::level::Level;
use dgi::log::text::{push_decimal, push_signed_decimal, push_two_digits};
use dgi::log::value::Wrapper;
use dgi::log::writers::{Alert, Console, Json};

fn s(t: &str) -> String {
    t.to_string()
}

fn pretty(indent: usize, v: &JsonValue) -> String {
    Pretty::new(indent, v, Options::default()).to_string()
}

fn num(n: u64) -> JsonValue {
    JsonValue::Number(JsonNumber::PosInt(n))
}

fn quoted(t: &str) -> String {
    let mut out = String::new();
    write_string(t, &mut out);
    out
}

#[test]
fn write_string_escapes_named_characters() {
    assert_eq!(quoted("a\"b\\c\nd\te\r\u{8}\u{c}"), "\"a\\\"b\\\\c\\nd\\te\\r\\b\\f\"");
}

#[test]
fn write_string_escapes_other_control_characters_as_utf16_units() {
    assert_eq!(quoted("\u{1}"), "\"\\u0001\"");
    assert_eq!(quoted("\u{1f}"), "\"\\u001F\"");
    assert_eq!(quoted("\u{7f}"), "\"\\u007F\"");
    assert_eq!(quoted("\u{9f}"), "\"\\u009F\"");
}

#[test]
fn write_string_keeps_other_characters() {
    assert_eq!(quoted("héllo 世界 /"), "\"héllo 世界 /\"");
    assert_eq!(quoted(""), "\"\"");
}

#[test]
fn write_string_appends() {
    let mut out = s("x = ");
    write_string("y", &mut out);
    assert_eq!(out, "x = \"y\"");
}

#[test]
fn quoted_string_has_no_control_characters() {
    let text = quoted("line one\nline two\u{0}\u{85}");
    assert!(!text.chars().any(|c| c.is_control()));
    assert_eq!(text, "\"line one\\nline two\\u0000\\u0085\"");
}

#[test]
fn pretty_scalars() {
    assert_eq!(pretty(0, &JsonValue::Null), "null");
    assert_eq!(pretty(0, &JsonValue::Bool(true)), "true");
    assert_eq!(pretty(3, &JsonValue::Bool(false)), "false");
    assert_eq!(pretty(0, &num(0)), "0");
    assert_eq!(pretty(0, &num(42)), "42");
    assert_eq!(pretty(0, &num(u64::MAX)), "18446744073709551615");
    assert_eq!(pretty(0, &JsonValue::Number(JsonNumber::NegInt(-7))), "-7");
    assert_eq!(pretty(0, &JsonValue::Number(JsonNumber::NegInt(i64::MIN))), "-9223372036854775808");
    assert_eq!(pretty(0, &JsonValue::Number(JsonNumber::Float(s("1.5")))), "1.5");
    assert_eq!(pretty(0, &JsonValue::String(s("a\"b"))), "\"a\\\"b\"");
}

#[test]
fn pretty_empty_containers() {
    assert_eq!(pretty(0, &JsonValue::Array(vec![])), "[]");
    assert_eq!(pretty(5, &JsonValue::Object(vec![])), "{}");
}

#[test]
fn pretty_nested_array() {
    let v = JsonValue::Array(vec![num(1), JsonValue::Array(vec![num(2), num(3)])]);
    assert_eq!(pretty(0, &v), "[\n  1,\n  [\n    2,\n    3\n  ]\n]");
}

#[test]
fn pretty_object_at_an_indent() {
    let v = JsonValue::Object(vec![
        (s("name"), JsonValue::String(s("dgi"))),
        (s("tags"), JsonValue::Array(vec![JsonValue::Null])),
    ]);
    assert_eq!(
        pretty(1, &v),
        "{\n    name: \"dgi\",\n    tags: [\n      null\n    ]\n  }"
    );
}

#[test]
fn pretty_replaces_whitespace_and_control_characters_in_member_names() {
    let v = JsonValue::Object(vec![(s("a b\tc\u{1}d\u{3000}e"), num(1))]);
    assert_eq!(pretty(0, &v), "{\n  a-b-c-d-e: 1\n}");
}

#[test]
fn pretty_quotes_member_names_when_asked() {
    let options = Options { quoted_member_name: true, ..Options::default() };
    let v = JsonValue::Object(vec![(s("a b"), num(1)), (s("c"), JsonValue::Bool(false))]);
    assert_eq!(
        Pretty::new(0, &v, options).to_string(),
        "{\n  \"a b\": 1,\n  \"c\": false\n}"
    );
}

#[test]
fn pretty_custom_layout() {
    let options = Options {
        indent: "\t",
        linebreak: "\r\n",
        member_name_replacement: '_',
        quoted_member_name: false,
    };
    let v = JsonValue::Object(vec![(s("x y"), JsonValue::Array(vec![num(1), num(2)]))]);
    assert_eq!(
        Pretty::new(0, &v, options).to_string(),
        "{\r\n\tx_y: [\r\n\t\t1,\r\n\t\t2\r\n\t]\r\n}"
    );
}

#[test]
fn pretty_fmt_appends() {
    let mut out = s(">");
    Pretty::new(0, &num(9), Options::default()).fmt(&mut out);
    assert_eq!(out, ">9");
}

#[test]
fn default_options() {
    let o = Options::default();
    assert_eq!(o.indent, "  ");
    assert_eq!(o.linebreak, "\n");
    assert_eq!(o.member_name_replacement, '-');
    assert!(!o.quoted_member_name);
}

#[test]
fn failed_serialization_is_recorded_as_an_object() {
    let v = serialization_failure(s("key must be a string"));
    assert_eq!(
        pretty(0, &v),
        "{\n  inner: \"key must be a string\",\n  message: \"serialization failed\"\n}"
    );
}

#[test]
fn decimal_formatting() {
    let mut out = String::new();
    push_decimal(&mut out, 0);
    push_decimal(&mut out, 1234567890);
    push_signed_decimal(&mut out, -5);
    push_signed_decimal(&mut out, 5);
    assert_eq!(out, "01234567890-55");
}

#[test]
fn two_digit_padding() {
    let mut out = String::new();
    push_two_digits(&mut out, 0);
    out.push(' ');
    push_two_digits(&mut out, 7);
    out.push(' ');
    push_two_digits(&mut out, 42);
    out.push(' ');
    push_two_digits(&mut out, 123);
    assert_eq!(out, "00 07 42 123");
}

#[test]
fn timestamp_parts() {
    let t = Timestamp::from_parts(1775004314, 327619603).unwrap();
    assert_eq!(t.secs(), 1775004314);
    assert_eq!(t.nanos(), 327619603);
    assert_eq!(t.rfc3339(), "2026-04-01T00:45:14.327619603+00:00");
}

#[test]
fn timestamp_at_epoch() {
    let t = Timestamp::from_parts(0, 0).unwrap();
    assert_eq!(t.rfc3339(), "1970-01-01T00:00:00+00:00");
}

#[test]
fn timestamps_are_taken_exactly_within_chronos_range() {
    assert!(Timestamp::from_parts(-8_334_601_228_800, 0).is_some());
    assert!(Timestamp::from_parts(-8_334_601_228_801, 999_999_999).is_none());
    assert!(Timestamp::from_parts(8_210_266_876_799, 999_999_999).is_some());
    assert!(Timestamp::from_parts(8_210_266_876_800, 0).is_none());
    assert!(Timestamp::from_parts(59, 1_999_999_999).is_some());
    assert!(Timestamp::from_parts(58, 1_000_000_000).is_none());
    assert!(Timestamp::from_parts(-1, 1_500_000_000).is_some());
    assert!(Timestamp::from_parts(59, 2_000_000_000).is_none());
}

#[test]
fn timestamp_out_of_range_is_refused() {
    assert!(Timestamp::from_parts(0, 2_000_000_000).is_none());
    assert!(Timestamp::from_parts(i64::MAX, 0).is_none());
}

#[test]
fn new_events_carry_the_given_timestamp() {
    let t = Timestamp::from_parts(1_700_000_000, 5).unwrap();
    let e = Event::new(Level::Debug, "m", s("now"), vec![], t, 0);
    assert_eq!(e.timestamp.secs(), 1_700_000_000);
    assert_eq!(e.timestamp.nanos(), 5);
}

fn readme_event(fields: Vec<Field>) -> Event {
    let t = Timestamp::from_parts(1775004314, 327619603).unwrap();
    Event::new(Level::Info, "test", s("hello, this is test"), fields, t, 0)
}

#[test]
fn event_new_keeps_its_parts() {
    let e = Event::new(
        Level::Warn,
        "dgi::shell",
        s("careful"),
        vec![Field { name: "n", value: num(3) }],
        Timestamp::from_parts(0, 0).unwrap(),
        12,
    );
    assert_eq!(e.verbosity, Level::Warn);
    assert_eq!(e.module, "dgi::shell");
    assert_eq!(e.message, "careful");
    assert_eq!(e.thread_id, 12);
    assert_eq!(e.fields.len(), 1);
    assert_eq!(e.fields[0].name, "n");
}

#[test]
fn console_line_as_in_the_readme() {
    let e = readme_event(vec![Field { name: "some", value: JsonValue::String(s("and this is field")) }]);
    let console = Console::new().colored(false);
    assert_eq!(
        console.render(&e),
        "2026-04-01T00:45:14.327619603+00:00 INF test[00]: hello, this is test\n  some = \"and this is field\"\n"
    );
}

#[test]
fn console_coloured_head_and_nested_field() {
    let mut e = readme_event(vec![Field {
        name: "list",
        value: JsonValue::Array(vec![num(1), num(2)]),
    }]);
    e.thread_id = 7;
    e.verbosity = Level::Fatal;
    let console = Console::new();
    assert_eq!(
        console.render(&e),
        "2026-04-01T00:45:14.327619603+00:00 \u{1b}[1;31mFTL\u{1b}[0m test[07]: hello, this is test\n  list = [\n      1,\n      2\n    ]\n"
    );
}

#[test]
fn console_without_fields() {
    let mut e = readme_event(vec![]);
    e.thread_id = 123;
    let console = Console::new().colored(false);
    assert_eq!(
        console.render(&e),
        "2026-04-01T00:45:14.327619603+00:00 INF test[123]: hello, this is test\n"
    );
}

#[test]
fn console_heads() {
    let plain = Console::new().colored(false);
    assert_eq!(plain.head(Level::Fatal), "FTL");
    assert_eq!(plain.head(Level::Error), "ERR");
    assert_eq!(plain.head(Level::Warn), "WRN");
    assert_eq!(plain.head(Level::Info), "INF");
    assert_eq!(plain.head(Level::Debug), "DBG");
    let colored = Console::new();
    assert_eq!(colored.head(Level::Fatal), "\x1b[1;31mFTL\x1b[0m");
    assert_eq!(colored.head(Level::Error), "\x1b[31mERR\x1b[0m");
    assert_eq!(colored.head(Level::Warn), "\x1b[33mWRN\x1b[0m");
    assert_eq!(colored.head(Level::Info), "\x1b[32mINF\x1b[0m");
    assert_eq!(colored.head(Level::Debug), "\x1b[36mDBG\x1b[0m");
}

#[test]
fn console_filters_by_verbosity() {
    let c = Console::new();
    assert!(c.enabled_for(Level::Fatal));
    assert!(c.enabled_for(Level::Info));
    assert!(!c.enabled_for(Level::Debug));
    let d = c.max_verbosity(Level::Debug);
    assert!(d.enabled_for(Level::Debug));
    let e = c.max_verbosity(Level::Error);
    assert!(e.enabled_for(Level::Error));
    assert!(!e.enabled_for(Level::Warn));
}

#[test]
fn alert_takes_fatal_events_by_default() {
    let a = Alert::new();
    assert!(a.enabled_for(Level::Fatal));
    assert!(!a.enabled_for(Level::Error));
    let b = a.max_verbosity(Level::Warn);
    assert!(b.enabled_for(Level::Error));
    assert!(b.enabled_for(Level::Warn));
    assert!(!b.enabled_for(Level::Info));
}

#[test]
fn alert_shows_the_message() {
    let e = readme_event(vec![]);
    assert_eq!(Alert::new().text(&e), "hello, this is test");
}

#[test]
fn json_writer_defaults_and_module_check() {
    let j = Json::new(vec![1u8, 2]);
    assert!(j.enabled_for(Level::Info));
    assert!(!j.enabled_for(Level::Debug));
    assert_eq!(j.file(), &vec![1u8, 2]);
    let j = j.max_verbosity(Level::Debug);
    assert!(j.enabled_for(Level::Debug));
    let e = readme_event(vec![]);
    assert!(j.records(&e, "dgi_app::writers"));
    assert!(!j.records(&e, "test"));
}

#[test]
fn wrapper_holds_a_reference() {
    let x = 5;
    let w = Wrapper(&x);
    assert_eq!(*w.0, 5);
}
