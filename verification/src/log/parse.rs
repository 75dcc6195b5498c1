use vstd::prelude::*;
use crate::log::json::{keys_in_order, JsonNumber, JsonValue};
use crate::log::escape::{
    escape_char, escaped, hex_value, lemma_escaped_front, lemma_hex_value, quoted, unescape_short,
};
use crate::log::pretty::{number_text, elements_text, member_name_text, members_text, value_text, OptionsView};
use crate::log::text::{decimal, decimal_reads_back, digits_value, hex_char, is_control_char, repeat};

verus! {

/// A value of the JSON data model, as a reader of JSON text sees it.
///
/// An integer is held by its value, any other number by its text; an object by its
/// members in the order in which the text lists them.
pub enum JsonModel {
    Null,
    Bool(bool),
    Int(int),
    Float(Seq<char>),
    Str(Seq<char>),
    Array(Seq<JsonModel>),
    Object(Seq<(Seq<char>, JsonModel)>),
}

/// The data-model value that `v` holds.
pub open spec fn model(v: JsonValue) -> JsonModel
    decreases v,
{
    match v {
        JsonValue::Null => JsonModel::Null,
        JsonValue::Bool(b) => JsonModel::Bool(b),
        JsonValue::Number(JsonNumber::PosInt(u)) => JsonModel::Int(u as int),
        JsonValue::Number(JsonNumber::NegInt(i)) => JsonModel::Int(i as int),
        JsonValue::Number(JsonNumber::Float(t)) => JsonModel::Float(t@),
        JsonValue::String(s) => JsonModel::Str(s@),
        JsonValue::Array(items) => JsonModel::Array(models(items@)),
        JsonValue::Object(members) => JsonModel::Object(member_models(members@)),
    }
}

/// The data-model values of a sequence of items.
pub open spec fn models(items: Seq<JsonValue>) -> Seq<JsonModel>
    decreases items,
{
    if items.len() == 0 {
        Seq::empty()
    } else {
        seq![model(items[0])] + models(items.drop_first())
    }
}

/// The data-model members of a sequence of members.
pub open spec fn member_models(members: Seq<(String, JsonValue)>) -> Seq<(Seq<char>, JsonModel)>
    decreases members,
{
    if members.len() == 0 {
        Seq::empty()
    } else {
        seq![(members[0].0@, model(members[0].1))] + member_models(members.drop_first())
    }
}

/// Whether `c` is a decimal digit.
pub open spec fn is_digit(c: char) -> bool {
    '0' <= c && c <= '9'
}

/// Whether `c` is a hexadecimal digit, in either case.
pub open spec fn is_hex_digit(c: char) -> bool {
    is_digit(c) || ('A' <= c && c <= 'F') || ('a' <= c && c <= 'f')
}

/// Whether `c` is whitespace between the tokens of JSON text.
pub open spec fn is_json_whitespace(c: char) -> bool {
    c == ' ' || c == '\t' || c == '\n' || c == '\r'
}

/// Whether `c` can be part of a JSON number.
pub open spec fn is_number_char(c: char) -> bool {
    is_digit(c) || c == '-' || c == '+' || c == '.' || c == 'e' || c == 'E'
}

/// The number of leading whitespace characters of `s`.
pub open spec fn whitespace_len(s: Seq<char>) -> nat
    decreases s.len(),
{
    if s.len() > 0 && is_json_whitespace(s[0]) {
        1 + whitespace_len(s.drop_first())
    } else {
        0
    }
}

/// `s` without its leading whitespace.
pub open spec fn skip_whitespace(s: Seq<char>) -> Seq<char> {
    s.skip(whitespace_len(s) as int)
}

/// Skipping whitespace never lengthens the text.
pub proof fn lemma_whitespace_len(s: Seq<char>)
    ensures
        whitespace_len(s) <= s.len(),
        skip_whitespace(s).len() == s.len() - whitespace_len(s),
    decreases s.len(),
{
    if s.len() > 0 && is_json_whitespace(s[0]) {
        lemma_whitespace_len(s.drop_first());
    }
}

/// The number of leading decimal digits of `s`.
pub open spec fn digit_run(s: Seq<char>) -> nat
    decreases s.len(),
{
    if s.len() > 0 && is_digit(s[0]) {
        1 + digit_run(s.drop_first())
    } else {
        0
    }
}

/// The number of leading characters of `s` that can be part of a number.
pub open spec fn number_run(s: Seq<char>) -> nat
    decreases s.len(),
{
    if s.len() > 0 && is_number_char(s[0]) {
        1 + number_run(s.drop_first())
    } else {
        0
    }
}

/// Whether `s` is one or more digits, with a `+` or `-` in front or not.
pub open spec fn signed_digits(s: Seq<char>) -> bool {
    let d = if s.len() > 0 && (s[0] == '+' || s[0] == '-') {
        s.drop_first()
    } else {
        s
    };
    d.len() > 0 && digit_run(d) == d.len()
}

/// Whether `e` is an optional exponent: empty, or `e` or `E` and signed digits.
pub open spec fn exponent_part(e: Seq<char>) -> bool {
    e.len() == 0 || ((e[0] == 'e' || e[0] == 'E') && signed_digits(e.drop_first()))
}

/// Whether `r` is an optional fraction (`.` and one or more digits) followed by an
/// optional exponent.
pub open spec fn fraction_exponent(r: Seq<char>) -> bool {
    if r.len() > 0 && r[0] == '.' {
        let f = r.drop_first();
        digit_run(f) > 0 && exponent_part(f.skip(digit_run(f) as int))
    } else {
        exponent_part(r)
    }
}

/// Whether `t` is a JSON number: an optional `-`, an integer part without leading
/// zeros, an optional fraction and an optional exponent.
pub open spec fn number_token(t: Seq<char>) -> bool {
    let u = if t.len() > 0 && t[0] == '-' {
        t.drop_first()
    } else {
        t
    };
    let k = digit_run(u);
    k > 0 && (u[0] != '0' || k == 1) && fraction_exponent(u.skip(k as int))
}

/// Whether `s` is the digits of a natural number without leading zeros.
pub open spec fn natural_token(s: Seq<char>) -> bool {
    s.len() > 0 && digit_run(s) == s.len() && (s[0] != '0' || s.len() == 1)
}

/// Whether `t` is a JSON number that denotes an integer: digits alone, or `-` and
/// digits other than zero.
pub open spec fn integer_token(t: Seq<char>) -> bool {
    ||| natural_token(t)
    ||| (t.len() > 1 && t[0] == '-' && natural_token(t.drop_first()) && t.drop_first()
        != seq!['0'])
}

/// The integer an integer token denotes.
pub open spec fn integer_value(t: Seq<char>) -> int {
    if t.len() > 0 && t[0] == '-' {
        -digits_value(t.drop_first())
    } else {
        digits_value(t)
    }
}

/// The value of a number token.
pub open spec fn number_model(t: Seq<char>) -> Option<JsonModel> {
    if integer_token(t) {
        Some(JsonModel::Int(integer_value(t)))
    } else if number_token(t) {
        Some(JsonModel::Float(t))
    } else {
        None
    }
}

/// Whether `e` follows a backslash as a two-character escape sequence.
pub open spec fn is_short_escape(e: char) -> bool {
    e == '"' || e == '\\' || e == '/' || e == 'b' || e == 'f' || e == 'n' || e == 'r' || e == 't'
}

/// The code point of a `\u` escape whose four hexadecimal digits start `s`.
pub open spec fn code_point(s: Seq<char>) -> int {
    hex_value(s[0]) * 4096 + hex_value(s[1]) * 256 + hex_value(s[2]) * 16 + hex_value(s[3])
}

/// Reads the rest of a string literal after its opening quote: the characters it stands
/// for and the text after its closing quote. A raw control character below U+0020 or
/// an unknown escape is refused, and so is a `\u` escape of a surrogate, which stands
/// for a character only in a pair.
pub open spec fn scan_string(s: Seq<char>) -> Option<(Seq<char>, Seq<char>)>
    decreases s.len(),
{
    if s.len() == 0 {
        None
    } else if s[0] == '"' {
        Some((Seq::empty(), s.drop_first()))
    } else if s[0] == '\\' {
        if s.len() >= 2 && is_short_escape(s[1]) {
            match scan_string(s.skip(2)) {
                Some((d, r)) => Some((seq![unescape_short(s[1])] + d, r)),
                None => None,
            }
        } else if s.len() >= 6 && s[1] == 'u' && is_hex_digit(s[2]) && is_hex_digit(s[3])
            && is_hex_digit(s[4]) && is_hex_digit(s[5]) && !(0xD800 <= code_point(s.skip(2))
            && code_point(s.skip(2)) <= 0xDFFF) {
            match scan_string(s.skip(6)) {
                Some((d, r)) => Some((seq![(code_point(s.skip(2)) as u32) as char] + d, r)),
                None => None,
            }
        } else {
            None
        }
    } else if (s[0] as u32) < 0x20 {
        None
    } else {
        match scan_string(s.drop_first()) {
            Some((d, r)) => Some((seq![s[0]] + d, r)),
            None => None,
        }
    }
}

/// What follows a string literal is shorter than the text after its opening quote.
pub proof fn lemma_scan_string_shorter(s: Seq<char>)
    ensures
        scan_string(s) matches Some((d, r)) ==> r.len() < s.len(),
    decreases s.len(),
{
    if s.len() > 0 && s[0] != '"' {
        if s[0] == '\\' {
            if s.len() >= 2 {
                lemma_scan_string_shorter(s.skip(2));
            }
            if s.len() >= 6 {
                lemma_scan_string_shorter(s.skip(6));
            }
        } else {
            lemma_scan_string_shorter(s.drop_first());
        }
    }
}

/// Whether `s` starts with the characters of `word`.
pub open spec fn starts_with(s: Seq<char>, word: Seq<char>) -> bool {
    word.len() <= s.len() && s.take(word.len() as int) == word
}

/// Reads one value from the start of `s`, after any whitespace: the value and the text
/// after it.
pub open spec fn parse_value(s: Seq<char>) -> Option<(JsonModel, Seq<char>)>
    decreases s.len(), 0int,
{
    proof {
        lemma_whitespace_len(s);
    }
    let t = skip_whitespace(s);
    if t.len() == 0 {
        None
    } else if t[0] == '[' {
        parse_array(t.drop_first())
    } else if t[0] == '{' {
        parse_object(t.drop_first())
    } else if t[0] == '"' {
        match scan_string(t.drop_first()) {
            Some((d, r)) => Some((JsonModel::Str(d), r)),
            None => None,
        }
    } else if starts_with(t, seq!['n', 'u', 'l', 'l']) {
        Some((JsonModel::Null, t.skip(4)))
    } else if starts_with(t, seq!['t', 'r', 'u', 'e']) {
        Some((JsonModel::Bool(true), t.skip(4)))
    } else if starts_with(t, seq!['f', 'a', 'l', 's', 'e']) {
        Some((JsonModel::Bool(false), t.skip(5)))
    } else {
        let k = number_run(t);
        match number_model(t.take(k as int)) {
            Some(m) => Some((m, t.skip(k as int))),
            None => None,
        }
    }
}

/// Reads the rest of an array after its `[`: its items and the text after its `]`.
pub open spec fn parse_array(s: Seq<char>) -> Option<(JsonModel, Seq<char>)>
    decreases s.len(), 1int,
{
    proof {
        lemma_whitespace_len(s);
    }
    let t = skip_whitespace(s);
    if t.len() > 0 && t[0] == ']' {
        Some((JsonModel::Array(Seq::empty()), t.drop_first()))
    } else {
        match parse_value(t) {
            Some((v, r)) => if r.len() < s.len() {
                match parse_more_items(r) {
                    Some((vs, r2)) => Some((JsonModel::Array(seq![v] + vs), r2)),
                    None => None,
                }
            } else {
                None
            },
            None => None,
        }
    }
}

/// Reads the items of an array after its first one: each after a `,`, up to and
/// including the `]`.
pub open spec fn parse_more_items(s: Seq<char>) -> Option<(Seq<JsonModel>, Seq<char>)>
    decreases s.len(), 2int,
{
    proof {
        lemma_whitespace_len(s);
    }
    let t = skip_whitespace(s);
    if t.len() > 0 && t[0] == ']' {
        Some((Seq::empty(), t.drop_first()))
    } else if t.len() > 0 && t[0] == ',' {
        match parse_value(t.drop_first()) {
            Some((v, r)) => if r.len() < s.len() {
                match parse_more_items(r) {
                    Some((vs, r2)) => Some((seq![v] + vs, r2)),
                    None => None,
                }
            } else {
                None
            },
            None => None,
        }
    } else {
        None
    }
}

/// Reads one member of an object from the start of `s`, after any whitespace: its
/// name, `:` and its value.
pub open spec fn parse_member(s: Seq<char>) -> Option<((Seq<char>, JsonModel), Seq<char>)>
    decreases s.len(), 1int,
{
    proof {
        lemma_whitespace_len(s);
        lemma_whitespace_len(s.skip(whitespace_len(s) as int));
    }
    let t = skip_whitespace(s);
    if t.len() > 0 && t[0] == '"' {
        match scan_string(t.drop_first()) {
            Some((name, r)) => {
                proof {
                    lemma_scan_string_shorter(t.drop_first());
                    lemma_whitespace_len(r);
                }
                let u = skip_whitespace(r);
                if u.len() > 0 && u[0] == ':' {
                    match parse_value(u.drop_first()) {
                        Some((v, r2)) => Some(((name, v), r2)),
                        None => None,
                    }
                } else {
                    None
                }
            },
            None => None,
        }
    } else {
        None
    }
}

/// Reads the rest of an object after its `{`: its members and the text after its `}`.
pub open spec fn parse_object(s: Seq<char>) -> Option<(JsonModel, Seq<char>)>
    decreases s.len(), 2int,
{
    proof {
        lemma_whitespace_len(s);
    }
    let t = skip_whitespace(s);
    if t.len() > 0 && t[0] == '}' {
        Some((JsonModel::Object(Seq::empty()), t.drop_first()))
    } else {
        match parse_member(t) {
            Some((m, r)) => if r.len() < s.len() {
                match parse_more_members(r) {
                    Some((ms, r2)) => Some((JsonModel::Object(seq![m] + ms), r2)),
                    None => None,
                }
            } else {
                None
            },
            None => None,
        }
    }
}

/// Reads the members of an object after its first one: each after a `,`, up to and
/// including the `}`.
pub open spec fn parse_more_members(s: Seq<char>) -> Option<(Seq<(Seq<char>, JsonModel)>, Seq<char>)>
    decreases s.len(), 3int,
{
    proof {
        lemma_whitespace_len(s);
    }
    let t = skip_whitespace(s);
    if t.len() > 0 && t[0] == '}' {
        Some((Seq::empty(), t.drop_first()))
    } else if t.len() > 0 && t[0] == ',' {
        match parse_member(t.drop_first()) {
            Some((m, r)) => if r.len() < s.len() {
                match parse_more_members(r) {
                    Some((ms, r2)) => Some((seq![m] + ms, r2)),
                    None => None,
                }
            } else {
                None
            },
            None => None,
        }
    } else {
        None
    }
}

/// The value that the JSON text `s` denotes: one value, with nothing but whitespace
/// around it; `None` where `s` is not JSON text that this reader accepts.
pub open spec fn parse_json(s: Seq<char>) -> Option<JsonModel> {
    match parse_value(s) {
        Some((v, r)) => if skip_whitespace(r).len() == 0 {
            Some(v)
        } else {
            None
        },
        None => None,
    }
}

/// Whether `t` is the text of a number that is not an integer: a JSON number with a
/// fraction or an exponent, or `-0`.
pub open spec fn float_text(t: Seq<char>) -> bool {
    t.len() > 0 && number_run(t) == t.len() && number_token(t) && !integer_token(t)
}

/// Whether `v` is a value of the JSON data model as JSON values are held: a negative
/// integer alone is held as `NegInt`, a float by the JSON text of a number that is no
/// integer, and the members of each object in the order of their keys, each key once.
pub open spec fn canonical(v: JsonValue) -> bool
    decreases v,
{
    match v {
        JsonValue::Number(JsonNumber::NegInt(i)) => i < 0,
        JsonValue::Number(JsonNumber::Float(t)) => float_text(t@),
        JsonValue::Array(items) => all_canonical(items@),
        JsonValue::Object(members) => keys_in_order(members@) && members_canonical(members@),
        _ => true,
    }
}

/// Whether every item is canonical.
pub open spec fn all_canonical(items: Seq<JsonValue>) -> bool
    decreases items,
{
    items.len() == 0 || (canonical(items[0]) && all_canonical(items.drop_first()))
}

/// Whether the value of every member is canonical.
pub open spec fn members_canonical(members: Seq<(String, JsonValue)>) -> bool
    decreases members,
{
    members.len() == 0 || (canonical(members[0].1) && members_canonical(members.drop_first()))
}

/// Whether every character of `s` is JSON whitespace.
pub open spec fn all_whitespace(s: Seq<char>) -> bool {
    forall|i: int| 0 <= i < s.len() ==> is_json_whitespace(#[trigger] s[i])
}

/// Whether `r` may follow a value: it does not continue a number.
pub open spec fn ends_token(r: Seq<char>) -> bool {
    r.len() == 0 || !is_number_char(r[0])
}

proof fn lemma_whitespace_prefix(w: Seq<char>, x: Seq<char>)
    requires
        all_whitespace(w),
    ensures
        skip_whitespace(w + x) == skip_whitespace(x),
        whitespace_len(w + x) == w.len() + whitespace_len(x),
    decreases w.len(),
{
    lemma_whitespace_len(x);
    if w.len() == 0 {
        assert(w + x =~= x);
    } else {
        assert((w + x)[0] == w[0]);
        assert((w + x).drop_first() =~= w.drop_first() + x);
        lemma_whitespace_prefix(w.drop_first(), x);
        assert((w + x).skip((w.len() + whitespace_len(x)) as int) =~= x.skip(whitespace_len(x) as int));
    }
}

proof fn lemma_no_whitespace(x: Seq<char>)
    requires
        x.len() > 0,
        !is_json_whitespace(x[0]),
    ensures
        skip_whitespace(x) == x,
{
    assert(x.skip(0) =~= x);
}

proof fn lemma_value_after_whitespace(w: Seq<char>, y: Seq<char>)
    requires
        all_whitespace(w),
    ensures
        parse_value(w + y) == parse_value(y),
{
    lemma_whitespace_prefix(w, y);
}

proof fn lemma_whitespace_concat(a: Seq<char>, b: Seq<char>)
    requires
        all_whitespace(a),
        all_whitespace(b),
    ensures
        all_whitespace(a + b),
{
    assert forall|i: int| 0 <= i < (a + b).len() implies is_json_whitespace(#[trigger] (a + b)[i]) by {
        if i < a.len() {
            assert((a + b)[i] == a[i]);
        } else {
            assert((a + b)[i] == b[i - a.len()]);
        }
    }
}

proof fn lemma_repeat_whitespace(u: Seq<char>, n: nat)
    requires
        all_whitespace(u),
    ensures
        all_whitespace(repeat(u, n)),
    decreases n,
{
    if n > 0 {
        lemma_repeat_whitespace(u, (n - 1) as nat);
        lemma_whitespace_concat(repeat(u, (n - 1) as nat), u);
    }
}

/// Whitespace followed by `c`: the first character is whitespace or `c`.
proof fn lemma_first_after_whitespace(w: Seq<char>, c: char, r: Seq<char>)
    requires
        all_whitespace(w),
    ensures
        (w + seq![c] + r).len() > 0,
        is_json_whitespace((w + seq![c] + r)[0]) || (w + seq![c] + r)[0] == c,
{
    if w.len() > 0 {
        assert((w + seq![c] + r)[0] == w[0]);
    } else {
        assert((w + seq![c] + r)[0] == c);
    }
}

proof fn lemma_number_run(a: Seq<char>, r: Seq<char>)
    requires
        number_run(a) == a.len(),
        ends_token(r),
    ensures
        number_run(a + r) == a.len(),
        (a + r).take(a.len() as int) == a,
        (a + r).skip(a.len() as int) == r,
    decreases a.len(),
{
    assert((a + r).take(a.len() as int) =~= a);
    assert((a + r).skip(a.len() as int) =~= r);
    if a.len() == 0 {
        assert(a + r =~= r);
    } else {
        assert((a + r)[0] == a[0]);
        assert((a + r).drop_first() =~= a.drop_first() + r);
        lemma_number_run(a.drop_first(), r);
    }
}

proof fn lemma_digits(a: Seq<char>)
    requires
        forall|i: int| 0 <= i < a.len() ==> '0' <= #[trigger] a[i] <= '9',
    ensures
        digit_run(a) == a.len(),
        number_run(a) == a.len(),
    decreases a.len(),
{
    if a.len() > 0 {
        assert forall|i: int| 0 <= i < a.drop_first().len() implies '0' <= #[trigger] a.drop_first()[i]
            <= '9' by {
            assert(a.drop_first()[i] == a[i + 1]);
        }
        lemma_digits(a.drop_first());
    }
}

/// The decimal text of `n` is an integer token for `n`.
proof fn lemma_decimal_token(n: nat)
    ensures
        natural_token(decimal(n)),
        number_run(decimal(n)) == decimal(n).len(),
        digits_value(decimal(n)) == n,
        n > 0 ==> decimal(n) != seq!['0'],
        is_digit(decimal(n)[0]),
{
    decimal_reads_back(n);
    lemma_digits(decimal(n));
    assert(decimal(n).len() > 0);
    if n == 0 {
        assert(decimal(n) =~= seq!['0']);
    }
    if n > 0 && decimal(n) =~= seq!['0'] {
        assert(decimal(n)[0] == '0');
    }
    assert('0' <= decimal(n)[0] <= '9');
}

/// Reading a string literal: one escaped character, then the rest.
proof fn lemma_scan_char(c: char, x: Seq<char>)
    ensures
        scan_string(escape_char(c) + x) == (match scan_string(x) {
            Some((d, r)) => Some((seq![c] + d, r)),
            None => None,
        }),
{
    let t = escape_char(c) + x;
    if c == '\x08' || c == '\t' || c == '\n' || c == '\x0C' || c == '\r' || c == '"' || c == '\\' {
        assert(t[0] == '\\' && t.len() >= 2);
        assert(is_short_escape(t[1]));
        assert(unescape_short(t[1]) == c);
        assert(t.skip(2) =~= x);
    } else if is_control_char(c) {
        let n = c as nat;
        assert(n < 256);
        assert(n / 4096 == 0);
        assert((n / 256) % 16 == 0);
        assert((n / 16) % 16 == n / 16);
        assert(t[0] == '\\' && t.len() >= 6 && t[1] == 'u');
        assert(!is_short_escape(t[1]));
        assert(t[2] == hex_char(0) && t[3] == hex_char(0));
        assert(t[4] == hex_char(n / 16) && t[5] == hex_char(n % 16));
        lemma_hex_value(n / 16);
        lemma_hex_value(n % 16);
        assert(is_hex_digit(hex_char(n / 16)) && is_hex_digit(hex_char(n % 16)));
        assert(code_point(t.skip(2)) == n);
        assert(((n as u32) as char) == c);
        assert(t.skip(6) =~= x);
    } else {
        assert(t[0] == c);
        assert((c as u32) >= 0x20);
        assert(t.drop_first() =~= x);
    }
}

/// Reading a string literal back: the escaped characters of `s` and the closing quote
/// read as `s`, and the reader stops right after the quote.
pub proof fn lemma_scan_quoted(s: Seq<char>, r: Seq<char>)
    ensures
        scan_string(escaped(s) + seq!['"'] + r) == Some((s, r)),
    decreases s.len(),
{
    if s.len() == 0 {
        assert(escaped(s) =~= Seq::<char>::empty());
        assert(escaped(s) + seq!['"'] + r =~= seq!['"'] + r);
        assert((seq!['"'] + r).drop_first() =~= r);
    } else {
        lemma_escaped_front(s);
        let x = escaped(s.skip(1)) + seq!['"'] + r;
        assert(escaped(s) + seq!['"'] + r =~= escape_char(s[0]) + x);
        lemma_scan_char(s[0], x);
        lemma_scan_quoted(s.skip(1), r);
        assert(seq![s[0]] + s.skip(1) =~= s);
    }
}

/// The layouts whose text reads back: quoted member names, and indentation and line
/// breaks made of JSON whitespace only.
pub open spec fn layout_reads_back(o: OptionsView) -> bool {
    o.quoted_member_name && all_whitespace(o.indent) && all_whitespace(o.linebreak)
}

/// The items of an array after its first one, as printed: each after `,`, a line break
/// and the indentation one level deeper than `n`.
spec fn items_tail(n: nat, xs: Seq<JsonValue>, o: OptionsView) -> Seq<char>
    decreases xs.len(),
{
    if xs.len() == 0 {
        Seq::empty()
    } else {
        seq![','] + o.linebreak + repeat(o.indent, n + 1) + value_text(n + 1, xs[0], o)
            + items_tail(n, xs.drop_first(), o)
    }
}

/// The members of an object after its first one, as printed.
spec fn members_tail(n: nat, ms: Seq<(String, JsonValue)>, o: OptionsView) -> Seq<char>
    decreases ms.len(),
{
    if ms.len() == 0 {
        Seq::empty()
    } else {
        seq![','] + o.linebreak + repeat(o.indent, n + 1) + member_name_text(ms[0].0@, o)
            + value_text(n + 1, ms[0].1, o) + members_tail(n, ms.drop_first(), o)
    }
}

proof fn lemma_items_tail_back(n: nat, xs: Seq<JsonValue>, o: OptionsView)
    requires
        xs.len() > 0,
    ensures
        items_tail(n, xs, o) == items_tail(n, xs.drop_last(), o) + (seq![','] + o.linebreak
            + repeat(o.indent, n + 1) + value_text(n + 1, xs.last(), o)),
    decreases xs.len(),
{
    if xs.len() == 1 {
        assert(xs.drop_first() =~= Seq::<JsonValue>::empty());
        assert(xs.drop_last() =~= Seq::<JsonValue>::empty());
        assert(items_tail(n, xs, o) =~= items_tail(n, xs.drop_last(), o) + (seq![','] + o.linebreak
            + repeat(o.indent, n + 1) + value_text(n + 1, xs.last(), o)));
    } else {
        lemma_items_tail_back(n, xs.drop_first(), o);
        assert(xs.drop_last().drop_first() =~= xs.drop_first().drop_last());
        assert(xs.drop_last()[0] == xs[0]);
        assert(xs.drop_first().last() == xs.last());
        assert(items_tail(n, xs, o) =~= items_tail(n, xs.drop_last(), o) + (seq![','] + o.linebreak
            + repeat(o.indent, n + 1) + value_text(n + 1, xs.last(), o)));
    }
}

proof fn lemma_elements_front(n: nat, xs: Seq<JsonValue>, o: OptionsView)
    requires
        xs.len() > 0,
    ensures
        elements_text(n, xs, o) == repeat(o.indent, n + 1) + value_text(n + 1, xs[0], o)
            + items_tail(n, xs.drop_first(), o),
    decreases xs.len(),
{
    if xs.len() == 1 {
        assert(xs.drop_first() =~= Seq::<JsonValue>::empty());
        assert(xs.drop_last() =~= Seq::<JsonValue>::empty());
        assert(elements_text(n, xs.drop_last(), o) =~= Seq::<char>::empty());
        assert(elements_text(n, xs, o) =~= repeat(o.indent, n + 1) + value_text(n + 1, xs[0], o)
            + items_tail(n, xs.drop_first(), o));
    } else {
        lemma_elements_front(n, xs.drop_last(), o);
        lemma_items_tail_back(n, xs.drop_first(), o);
        assert(xs.drop_last().drop_first() =~= xs.drop_first().drop_last());
        assert(xs.drop_last()[0] == xs[0]);
        assert(xs.drop_first().last() == xs.last());
        assert(elements_text(n, xs, o) =~= repeat(o.indent, n + 1) + value_text(n + 1, xs[0], o)
            + items_tail(n, xs.drop_first(), o));
    }
}

proof fn lemma_members_tail_back(n: nat, ms: Seq<(String, JsonValue)>, o: OptionsView)
    requires
        ms.len() > 0,
    ensures
        members_tail(n, ms, o) == members_tail(n, ms.drop_last(), o) + (seq![','] + o.linebreak
            + repeat(o.indent, n + 1) + member_name_text(ms.last().0@, o) + value_text(
            n + 1,
            ms.last().1,
            o,
        )),
    decreases ms.len(),
{
    if ms.len() == 1 {
        assert(ms.drop_first() =~= Seq::<(String, JsonValue)>::empty());
        assert(ms.drop_last() =~= Seq::<(String, JsonValue)>::empty());
        assert(members_tail(n, ms, o) =~= members_tail(n, ms.drop_last(), o) + (seq![',']
            + o.linebreak + repeat(o.indent, n + 1) + member_name_text(ms.last().0@, o)
            + value_text(n + 1, ms.last().1, o)));
    } else {
        lemma_members_tail_back(n, ms.drop_first(), o);
        assert(ms.drop_last().drop_first() =~= ms.drop_first().drop_last());
        assert(ms.drop_last()[0] == ms[0]);
        assert(ms.drop_first().last() == ms.last());
        assert(members_tail(n, ms, o) =~= members_tail(n, ms.drop_last(), o) + (seq![',']
            + o.linebreak + repeat(o.indent, n + 1) + member_name_text(ms.last().0@, o)
            + value_text(n + 1, ms.last().1, o)));
    }
}

proof fn lemma_members_front(n: nat, ms: Seq<(String, JsonValue)>, o: OptionsView)
    requires
        ms.len() > 0,
    ensures
        members_text(n, ms, o) == repeat(o.indent, n + 1) + member_name_text(ms[0].0@, o)
            + value_text(n + 1, ms[0].1, o) + members_tail(n, ms.drop_first(), o),
    decreases ms.len(),
{
    if ms.len() == 1 {
        assert(ms.drop_first() =~= Seq::<(String, JsonValue)>::empty());
        assert(ms.drop_last() =~= Seq::<(String, JsonValue)>::empty());
        assert(members_text(n, ms.drop_last(), o) =~= Seq::<char>::empty());
        assert(members_text(n, ms, o) =~= repeat(o.indent, n + 1) + member_name_text(ms[0].0@, o)
            + value_text(n + 1, ms[0].1, o) + members_tail(n, ms.drop_first(), o));
    } else {
        lemma_members_front(n, ms.drop_last(), o);
        lemma_members_tail_back(n, ms.drop_first(), o);
        assert(ms.drop_last().drop_first() =~= ms.drop_first().drop_last());
        assert(ms.drop_last()[0] == ms[0]);
        assert(ms.drop_first().last() == ms.last());
        assert(members_text(n, ms, o) =~= repeat(o.indent, n + 1) + member_name_text(ms[0].0@, o)
            + value_text(n + 1, ms[0].1, o) + members_tail(n, ms.drop_first(), o));
    }
}

/// Whether `text` starts with a character that opens a value: no whitespace and none of
/// the characters that close a container or separate its items.
spec fn opens_value(text: Seq<char>) -> bool {
    text.len() > 0 && !is_json_whitespace(text[0]) && text[0] != ']' && text[0] != '}' && text[0]
        != ','
}

/// A literal word read back.
proof fn lemma_word(word: Seq<char>, r: Seq<char>)
    ensures
        (word + r).take(word.len() as int) == word,
        (word + r).skip(word.len() as int) == r,
{
    assert((word + r).take(word.len() as int) =~= word);
    assert((word + r).skip(word.len() as int) =~= r);
}

/// A number read back: its text, then anything that does not continue a number.
proof fn lemma_number_reads_back(num: JsonNumber, r: Seq<char>)
    requires
        canonical(JsonValue::Number(num)),
        ends_token(r),
    ensures
        parse_value(number_text(num) + r) == Some(
            (model(JsonValue::Number(num)), r),
        ),
        opens_value(number_text(num)),
{
    let v = JsonValue::Number(num);
    let text = number_text(num);
    let t = text + r;
    match num {
        JsonNumber::PosInt(u) => {
            lemma_decimal_token(u as nat);
            assert(text == decimal(u as nat));
            assert(integer_token(text));
        },
        JsonNumber::NegInt(i) => {
            lemma_decimal_token((-i) as nat);
            assert(text == seq!['-'] + decimal((-i) as nat));
            assert(text.drop_first() =~= decimal((-i) as nat));
            assert(text[0] == '-');
            assert(number_run(text) == 1 + number_run(text.drop_first()));
            assert(integer_token(text));
            assert(integer_value(text) == i);
        },
        JsonNumber::Float(f) => {
            assert(text == f@);
            assert(is_number_char(text[0]));
        },
    }
    assert(number_run(text) == text.len());
    assert(is_number_char(text[0]));
    lemma_number_run(text, r);
    assert(t[0] == text[0]);
    lemma_no_whitespace(t);
    if t.len() >= 4 {
        assert(t.take(4)[0] == t[0]);
    }
    if t.len() >= 5 {
        assert(t.take(5)[0] == t[0]);
    }
    assert(number_model(text) == Some(model(v)));
}

/// What follows the last item of a container up to its closing bracket `c`: a line break
/// and the indentation, so whitespace and then `c`.
proof fn lemma_closing(o: OptionsView, n: nat, c: char, r: Seq<char>)
    requires
        layout_reads_back(o),
        !is_json_whitespace(c),
        !is_number_char(c),
    ensures
        all_whitespace(o.linebreak + repeat(o.indent, n)),
        ends_token(o.linebreak + repeat(o.indent, n) + seq![c] + r),
{
    let w = o.linebreak + repeat(o.indent, n);
    lemma_repeat_whitespace(o.indent, n);
    lemma_whitespace_concat(o.linebreak, repeat(o.indent, n));
    lemma_first_after_whitespace(w, c, r);
}

/// An array read back from its parts: `[`, whitespace, a first item and the rest.
proof fn lemma_array_step(w: Seq<char>, a: Seq<char>, rest: Seq<char>, m: JsonModel, ms: Seq<JsonModel>, r: Seq<char>)
    requires
        all_whitespace(w),
        opens_value(a),
        parse_value(a + rest) == Some((m, rest)),
        parse_more_items(rest) == Some((ms, r)),
    ensures
        parse_value(seq!['['] + w + a + rest) == Some((JsonModel::Array(seq![m] + ms), r)),
{
    let t = seq!['['] + w + a + rest;
    lemma_no_whitespace(t);
    assert(t.drop_first() =~= w + (a + rest));
    lemma_whitespace_prefix(w, a + rest);
    assert((a + rest)[0] == a[0]);
    lemma_no_whitespace(a + rest);
}

/// An empty container read back: its brackets and nothing between them.
proof fn lemma_empty_container(open: char, close: char, r: Seq<char>)
    requires
        (open == '[' && close == ']') || (open == '{' && close == '}'),
    ensures
        parse_value(seq![open, close] + r) == Some((
            if open == '[' {
                JsonModel::Array(Seq::empty())
            } else {
                JsonModel::Object(Seq::empty())
            },
            r,
        )),
{
    let t = seq![open, close] + r;
    lemma_no_whitespace(t);
    assert(t.drop_first() =~= seq![close] + r);
    lemma_no_whitespace(seq![close] + r);
    assert((seq![close] + r).drop_first() =~= r);
}

/// The items after the first read back: `,`, whitespace, an item and the rest.
proof fn lemma_items_step(w: Seq<char>, a: Seq<char>, rest: Seq<char>, m: JsonModel, ms: Seq<JsonModel>, r: Seq<char>)
    requires
        all_whitespace(w),
        parse_value(a + rest) == Some((m, rest)),
        opens_value(a),
        parse_more_items(rest) == Some((ms, r)),
    ensures
        parse_more_items(seq![','] + w + a + rest) == Some((seq![m] + ms, r)),
{
    let s = seq![','] + w + a + rest;
    lemma_no_whitespace(s);
    assert(s.drop_first() =~= w + (a + rest));
    lemma_value_after_whitespace(w, a + rest);
}

/// The end of the items of an array read back: whitespace and `]`.
proof fn lemma_items_end(w: Seq<char>, r: Seq<char>)
    requires
        all_whitespace(w),
    ensures
        parse_more_items(w + seq![']'] + r) == Some((Seq::<JsonModel>::empty(), r)),
{
    assert(w + seq![']'] + r =~= w + (seq![']'] + r));
    lemma_whitespace_prefix(w, seq![']'] + r);
    lemma_no_whitespace(seq![']'] + r);
    assert((seq![']'] + r).drop_first() =~= r);
}

/// An object read back from its parts: `{`, whitespace, a first member and the rest.
proof fn lemma_object_step(w: Seq<char>, first: Seq<char>, rest: Seq<char>, m: (Seq<char>, JsonModel), ms: Seq<(Seq<char>, JsonModel)>, r: Seq<char>)
    requires
        all_whitespace(w),
        first.len() > 0,
        first[0] == '"',
        parse_member(first + rest) == Some((m, rest)),
        parse_more_members(rest) == Some((ms, r)),
    ensures
        parse_value(seq!['{'] + w + first + rest) == Some((JsonModel::Object(seq![m] + ms), r)),
{
    let t = seq!['{'] + w + first + rest;
    lemma_no_whitespace(t);
    assert(t.drop_first() =~= w + (first + rest));
    lemma_whitespace_prefix(w, first + rest);
    assert((first + rest)[0] == '"');
    lemma_no_whitespace(first + rest);
}

/// The members after the first read back: `,`, whitespace, a member and the rest.
proof fn lemma_members_step(w: Seq<char>, first: Seq<char>, rest: Seq<char>, m: (Seq<char>, JsonModel), ms: Seq<(Seq<char>, JsonModel)>, r: Seq<char>)
    requires
        all_whitespace(w),
        first.len() > 0,
        first[0] == '"',
        parse_member(first + rest) == Some((m, rest)),
        parse_more_members(rest) == Some((ms, r)),
    ensures
        parse_more_members(seq![','] + w + first + rest) == Some((seq![m] + ms, r)),
{
    let s = seq![','] + w + first + rest;
    lemma_no_whitespace(s);
    assert(s.drop_first() =~= w + (first + rest));
    lemma_member_after_whitespace(w, first + rest);
}

proof fn lemma_member_after_whitespace(w: Seq<char>, y: Seq<char>)
    requires
        all_whitespace(w),
    ensures
        parse_member(w + y) == parse_member(y),
{
    lemma_whitespace_prefix(w, y);
}

/// The end of the members of an object read back: whitespace and `}`.
proof fn lemma_members_end(w: Seq<char>, r: Seq<char>)
    requires
        all_whitespace(w),
    ensures
        parse_more_members(w + seq!['}'] + r) == Some((Seq::<(Seq<char>, JsonModel)>::empty(), r)),
{
    assert(w + seq!['}'] + r =~= w + (seq!['}'] + r));
    lemma_whitespace_prefix(w, seq!['}'] + r);
    lemma_no_whitespace(seq!['}'] + r);
    assert((seq!['}'] + r).drop_first() =~= r);
}

/// Law support: the printed text of a canonical value, followed by anything that does
/// not continue a number, reads back as the value, and the reader stops right after it.
proof fn lemma_value_reads_back(n: nat, v: JsonValue, o: OptionsView, r: Seq<char>)
    requires
        canonical(v),
        layout_reads_back(o),
        ends_token(r),
    ensures
        parse_value(value_text(n, v, o) + r) == Some((model(v), r)),
        opens_value(value_text(n, v, o)),
    decreases v, 1int,
{
    let text = value_text(n, v, o);
    let t = text + r;
    match v {
        JsonValue::Null => {
            lemma_word(seq!['n', 'u', 'l', 'l'], r);
            lemma_no_whitespace(t);
        },
        JsonValue::Bool(b) => {
            lemma_no_whitespace(t);
            if b {
                lemma_word(seq!['t', 'r', 'u', 'e'], r);
                assert(t.take(4)[0] == 't');
            } else {
                lemma_word(seq!['f', 'a', 'l', 's', 'e'], r);
                assert(t.take(4)[0] == 'f');
                assert(t.take(5) =~= seq!['f', 'a', 'l', 's', 'e']);
            }
        },
        JsonValue::Number(num) => {
            lemma_number_reads_back(num, r);
        },
        JsonValue::String(st) => {
            lemma_string_reads_back(st@, r);
        },
        JsonValue::Array(items) => {
            lemma_array_reads_back(n, v, o, r);
        },
        JsonValue::Object(members) => {
            lemma_object_reads_back(n, v, o, r);
        },
    }
}

/// A string literal read back.
proof fn lemma_string_reads_back(st: Seq<char>, r: Seq<char>)
    ensures
        parse_value(quoted(st) + r) == Some((JsonModel::Str(st), r)),
        opens_value(quoted(st)),
{
    let t = quoted(st) + r;
    assert(t[0] == '"');
    lemma_no_whitespace(t);
    assert(t.drop_first() =~= escaped(st) + seq!['"'] + r);
    lemma_scan_quoted(st, r);
    if t.len() >= 4 {
        assert(t.take(4)[0] == '"');
    }
    if t.len() >= 5 {
        assert(t.take(5)[0] == '"');
    }
}

/// The text of a non-empty array, split at its first item.
proof fn lemma_array_text(n: nat, v: JsonValue, o: OptionsView, r: Seq<char>)
    requires
        v is Array,
        v->Array_0@.len() > 0,
    ensures
        value_text(n, v, o) + r == seq!['['] + (o.linebreak + repeat(o.indent, n + 1)) + value_text(
            n + 1,
            v->Array_0@[0],
            o,
        ) + (items_tail(n, v->Array_0@.drop_first(), o) + (o.linebreak + repeat(o.indent, n)
            + seq![']'] + r)),
{
    let xs = v->Array_0@;
    lemma_elements_front(n, xs, o);
    assert(value_text(n, v, o) + r =~= seq!['['] + (o.linebreak + repeat(o.indent, n + 1))
        + value_text(n + 1, xs[0], o) + (items_tail(n, xs.drop_first(), o) + (o.linebreak
        + repeat(o.indent, n) + seq![']'] + r)));
}

/// The text of a non-empty object, split at its first member.
proof fn lemma_object_text(n: nat, v: JsonValue, o: OptionsView, r: Seq<char>)
    requires
        v is Object,
        v->Object_0@.len() > 0,
    ensures
        value_text(n, v, o) + r == seq!['{'] + (o.linebreak + repeat(o.indent, n + 1)) + (
        member_name_text(v->Object_0@[0].0@, o) + value_text(n + 1, v->Object_0@[0].1, o)) + (
        members_tail(n, v->Object_0@.drop_first(), o) + (o.linebreak + repeat(o.indent, n)
            + seq!['}'] + r)),
{
    let ms = v->Object_0@;
    lemma_members_front(n, ms, o);
    assert(value_text(n, v, o) + r =~= seq!['{'] + (o.linebreak + repeat(o.indent, n + 1)) + (
    member_name_text(ms[0].0@, o) + value_text(n + 1, ms[0].1, o)) + (members_tail(
        n,
        ms.drop_first(),
        o,
    ) + (o.linebreak + repeat(o.indent, n) + seq!['}'] + r)));
}

/// An array read back.
proof fn lemma_array_reads_back(n: nat, v: JsonValue, o: OptionsView, r: Seq<char>)
    requires
        v is Array,
        canonical(v),
        layout_reads_back(o),
    ensures
        parse_value(value_text(n, v, o) + r) == Some((model(v), r)),
        opens_value(value_text(n, v, o)),
    decreases v, 0int,
{
    let text = value_text(n, v, o);
    let t = text + r;
    let items = v->Array_0;
    let xs = items@;
    if xs.len() == 0 {
        assert(text =~= seq!['[', ']']);
        lemma_empty_container('[', ']', r);
        assert(models(xs) =~= Seq::<JsonModel>::empty());
    } else {
        let x0 = xs[0];
        let text0 = value_text(n + 1, x0, o);
        let closing = o.linebreak + repeat(o.indent, n) + seq![']'] + r;
        let rest = items_tail(n, xs.drop_first(), o) + closing;
        lemma_array_text(n, v, o, r);
        lemma_closing(o, n, ']', r);
        if xs.drop_first().len() > 0 {
            assert(rest[0] == ',');
        } else {
            assert(rest =~= closing);
        }
        assert(decreases_to!(v => x0)) by {
            assert(decreases_to!(v => v->Array_0));
            assert(decreases_to!(items => items@));
            assert(decreases_to!(items@ => items@[0]));
        }
        lemma_value_reads_back(n + 1, x0, o, rest);
        assert(decreases_to!(v => xs.drop_first())) by {
            assert(decreases_to!(v => v->Array_0));
            assert(decreases_to!(items => items@));
            assert(decreases_to!(items@ => items@.subrange(1, items@.len() as int)));
        }
        lemma_items_reads_back(n, xs.drop_first(), o, r);
        let w = o.linebreak + repeat(o.indent, n + 1);
        lemma_repeat_whitespace(o.indent, n + 1);
        lemma_whitespace_concat(o.linebreak, repeat(o.indent, n + 1));
        lemma_array_step(w, text0, rest, model(x0), models(xs.drop_first()), r);
        assert(models(xs) == seq![model(x0)] + models(xs.drop_first()));
    }
}

/// An object read back.
proof fn lemma_object_reads_back(n: nat, v: JsonValue, o: OptionsView, r: Seq<char>)
    requires
        v is Object,
        canonical(v),
        layout_reads_back(o),
    ensures
        parse_value(value_text(n, v, o) + r) == Some((model(v), r)),
        opens_value(value_text(n, v, o)),
    decreases v, 0int,
{
    let text = value_text(n, v, o);
    let t = text + r;
    let members = v->Object_0;
    let ms = members@;
    if ms.len() == 0 {
        assert(text =~= seq!['{', '}']);
        lemma_empty_container('{', '}', r);
        assert(member_models(ms) =~= Seq::<(Seq<char>, JsonModel)>::empty());
    } else {
        let m0 = ms[0];
        let text0 = value_text(n + 1, m0.1, o);
        let closing = o.linebreak + repeat(o.indent, n) + seq!['}'] + r;
        let rest = members_tail(n, ms.drop_first(), o) + closing;
        lemma_object_text(n, v, o, r);
        lemma_closing(o, n, '}', r);
        if ms.drop_first().len() > 0 {
            assert(rest[0] == ',');
        } else {
            assert(rest =~= closing);
        }
        assert(decreases_to!(v => m0.1)) by {
            assert(decreases_to!(v => v->Object_0));
            assert(decreases_to!(members => members@));
            assert(decreases_to!(members@ => members@[0]));
            assert(decreases_to!(members@[0] => members@[0].1));
        }
        lemma_value_reads_back(n + 1, m0.1, o, rest);
        assert(decreases_to!(v => ms.drop_first())) by {
            assert(decreases_to!(v => v->Object_0));
            assert(decreases_to!(members => members@));
            assert(decreases_to!(members@ => members@.subrange(1, members@.len() as int)));
        }
        lemma_members_reads_back(n, ms.drop_first(), o, r);
        let first = member_name_text(m0.0@, o) + text0;
        lemma_member_reads_back(m0.0@, text0, rest, model(m0.1), o);
        let w = o.linebreak + repeat(o.indent, n + 1);
        lemma_repeat_whitespace(o.indent, n + 1);
        lemma_whitespace_concat(o.linebreak, repeat(o.indent, n + 1));
        lemma_object_step(w, first, rest, (m0.0@, model(m0.1)), member_models(ms.drop_first()), r);
        assert(member_models(ms) == seq![(m0.0@, model(m0.1))] + member_models(
            ms.drop_first(),
        ));
    }
}

/// One member read back: its quoted name, `": "`, and a value that reads back.
proof fn lemma_member_reads_back(name: Seq<char>, text0: Seq<char>, rest: Seq<char>, m: JsonModel, o: OptionsView)
    requires
        layout_reads_back(o),
        parse_value(text0 + rest) == Some((m, rest)),
    ensures
        (member_name_text(name, o) + text0).len() > 0,
        (member_name_text(name, o) + text0)[0] == '"',
        parse_member(member_name_text(name, o) + text0 + rest) == Some(((name, m), rest)),
{
    let first = member_name_text(name, o) + text0 + rest;
    let after = seq![':', ' '] + text0 + rest;
    assert(member_name_text(name, o) == seq!['"'] + escaped(name) + seq!['"'] + seq![':', ' ']);
    assert(first[0] == '"');
    lemma_no_whitespace(first);
    assert(first.drop_first() =~= escaped(name) + seq!['"'] + after);
    lemma_scan_quoted(name, after);
    lemma_no_whitespace(after);
    assert(after.drop_first() =~= seq![' '] + (text0 + rest));
    assert(all_whitespace(seq![' ']));
    lemma_value_after_whitespace(seq![' '], text0 + rest);
}

proof fn lemma_items_reads_back(n: nat, xs: Seq<JsonValue>, o: OptionsView, r: Seq<char>)
    requires
        all_canonical(xs),
        layout_reads_back(o),
    ensures
        parse_more_items(items_tail(n, xs, o) + (o.linebreak + repeat(o.indent, n) + seq![']'] + r))
            == Some((models(xs), r)),
    decreases xs, 0int,
{
    let closing = o.linebreak + repeat(o.indent, n) + seq![']'] + r;
    let s = items_tail(n, xs, o) + closing;
    lemma_closing(o, n, ']', r);
    if xs.len() == 0 {
        assert(s =~= closing);
        lemma_items_end(o.linebreak + repeat(o.indent, n), r);
    } else {
        let x0 = xs[0];
        let text0 = value_text(n + 1, x0, o);
        let rest = items_tail(n, xs.drop_first(), o) + closing;
        if xs.drop_first().len() > 0 {
            assert(rest[0] == ',');
        } else {
            assert(rest =~= closing);
        }
        lemma_value_reads_back(n + 1, x0, o, rest);
        assert(decreases_to!(xs => xs.drop_first())) by {
            assert(decreases_to!(xs => xs.subrange(1, xs.len() as int)));
        }
        lemma_items_reads_back(n, xs.drop_first(), o, r);
        let w = o.linebreak + repeat(o.indent, n + 1);
        lemma_repeat_whitespace(o.indent, n + 1);
        lemma_whitespace_concat(o.linebreak, repeat(o.indent, n + 1));
        assert(s =~= seq![','] + w + text0 + rest);
        lemma_items_step(w, text0, rest, model(x0), models(xs.drop_first()), r);
    }
}

proof fn lemma_members_reads_back(n: nat, ms: Seq<(String, JsonValue)>, o: OptionsView, r: Seq<char>)
    requires
        members_canonical(ms),
        layout_reads_back(o),
    ensures
        parse_more_members(members_tail(n, ms, o) + (o.linebreak + repeat(o.indent, n) + seq!['}']
            + r)) == Some((member_models(ms), r)),
    decreases ms, 0int,
{
    let closing = o.linebreak + repeat(o.indent, n) + seq!['}'] + r;
    let s = members_tail(n, ms, o) + closing;
    lemma_closing(o, n, '}', r);
    if ms.len() == 0 {
        assert(s =~= closing);
        lemma_members_end(o.linebreak + repeat(o.indent, n), r);
    } else {
        let m0 = ms[0];
        let text0 = value_text(n + 1, m0.1, o);
        let rest = members_tail(n, ms.drop_first(), o) + closing;
        if ms.drop_first().len() > 0 {
            assert(rest[0] == ',');
        } else {
            assert(rest =~= closing);
        }
        assert(decreases_to!(ms => m0.1)) by {
            assert(decreases_to!(ms => ms[0]));
        }
        lemma_value_reads_back(n + 1, m0.1, o, rest);
        assert(decreases_to!(ms => ms.drop_first())) by {
            assert(decreases_to!(ms => ms.subrange(1, ms.len() as int)));
        }
        lemma_members_reads_back(n, ms.drop_first(), o, r);
        let first = member_name_text(m0.0@, o) + text0;
        lemma_member_reads_back(m0.0@, text0, rest, model(m0.1), o);
        let w = o.linebreak + repeat(o.indent, n + 1);
        lemma_repeat_whitespace(o.indent, n + 1);
        lemma_whitespace_concat(o.linebreak, repeat(o.indent, n + 1));
        assert(s =~= seq![','] + w + first + rest);
        lemma_members_step(w, first, rest, (m0.0@, model(m0.1)), member_models(ms.drop_first()), r);
    }
}

/// Law: the pretty text of a value is JSON text that denotes the value. With quoted
/// member names and a layout of JSON whitespace, reading back the text printed at any
/// nesting level gives back the value of the JSON data model, for every value that the
/// data model holds.
pub proof fn pretty_text_reads_back(n: nat, v: JsonValue, o: OptionsView)
    requires
        canonical(v),
        layout_reads_back(o),
    ensures
        parse_json(value_text(n, v, o)) == Some(model(v)),
{
    let e = Seq::<char>::empty();
    lemma_value_reads_back(n, v, o, e);
    assert(value_text(n, v, o) + e =~= value_text(n, v, o));
    assert(skip_whitespace(e) =~= e);
}

} // verus!
