use vstd::prelude::*;
use crate::log::escape::{escaped, quoted, quoted_has_no_control_characters, write_string};
use crate::log::json::{keys_ordered, JsonNumber, JsonValue};
use crate::log::text::{
    decimal, is_control, is_control_char, is_whitespace, is_whitespace_char, push_char,
    push_decimal, push_repeated, push_signed_decimal, repeat, signed_decimal,
};
use vstd::std_specs::iter::IteratorSpec;

verus! {

broadcast use vstd::string::group_string_axioms;

/// The text of a number: its decimal digits, or the text held for a float.
pub open spec fn number_text(n: JsonNumber) -> Seq<char> {
    match n {
        JsonNumber::PosInt(u) => decimal(u as nat),
        JsonNumber::NegInt(i) => signed_decimal(i as int),
        JsonNumber::Float(t) => t@,
    }
}

/// How the pretty printer lays out a value.
#[derive(Debug, Copy, Clone)]
pub struct Options {
    /// Written once per nesting level at the start of each line of a container.
    pub indent: &'static str,
    /// Written between the lines of a container.
    pub linebreak: &'static str,
    /// Replaces whitespace and control characters in unquoted member names.
    pub member_name_replacement: char,
    /// Whether member names are written as quoted JSON strings.
    pub quoted_member_name: bool,
}

/// What the printer reads of its options.
pub struct OptionsView {
    pub indent: Seq<char>,
    pub linebreak: Seq<char>,
    pub member_name_replacement: char,
    pub quoted_member_name: bool,
}

impl View for Options {
    type V = OptionsView;

    open spec fn view(&self) -> OptionsView {
        OptionsView {
            indent: self.indent@,
            linebreak: self.linebreak@,
            member_name_replacement: self.member_name_replacement,
            quoted_member_name: self.quoted_member_name,
        }
    }
}

/// The options that `Options::default` gives.
pub open spec fn default_options() -> OptionsView {
    OptionsView {
        indent: seq![' ', ' '],
        linebreak: seq!['\n'],
        member_name_replacement: '-',
        quoted_member_name: false,
    }
}

impl Default for Options {
    /// Two spaces of indentation, `\n` line breaks, `-` in place of whitespace in
    /// member names, and unquoted member names.
    fn default() -> (r: Self)
        ensures
            r@ == default_options(),
    {
        proof {
            reveal_strlit("  ");
            reveal_strlit("\n");
        }
        let r = Options {
            indent: "  ",
            linebreak: "\n",
            member_name_replacement: '-',
            quoted_member_name: false,
        };
        assert(r.indent@ =~= seq![' ', ' ']);
        assert(r.linebreak@ =~= seq!['\n']);
        r
    }
}

/// A character of an unquoted member name as written: whitespace and control
/// characters are replaced.
pub open spec fn member_char(c: char, replacement: char) -> char {
    if is_whitespace_char(c) || is_control_char(c) {
        replacement
    } else {
        c
    }
}

/// A member name as written, followed by `": "`.
pub open spec fn member_name_text(name: Seq<char>, o: OptionsView) -> Seq<char> {
    (if o.quoted_member_name {
        quoted(name)
    } else {
        name.map_values(|c: char| member_char(c, o.member_name_replacement))
    }) + seq![':', ' ']
}

/// Law: a member name as written is a single token. Quoted, it holds no control
/// character; unquoted, it holds no control character and no whitespace (before its
/// closing `": "`) as long as the replacement character is neither.
pub proof fn member_names_are_single_tokens(name: Seq<char>, o: OptionsView)
    ensures
        o.quoted_member_name ==> forall|i: int|
            0 <= i < name.len() + 2 ==> !is_control_char(#[trigger] member_name_text(name, o)[i]),
        !o.quoted_member_name && !is_control_char(o.member_name_replacement) ==> forall|i: int|
            0 <= i < name.len() ==> !is_control_char(#[trigger] member_name_text(name, o)[i]),
        !o.quoted_member_name && !is_whitespace_char(o.member_name_replacement)
            && !is_control_char(o.member_name_replacement) ==> forall|i: int|
            0 <= i < name.len() ==> !is_whitespace_char(#[trigger] member_name_text(name, o)[i]),
{
    let body = if o.quoted_member_name {
        quoted(name)
    } else {
        name.map_values(|c: char| member_char(c, o.member_name_replacement))
    };
    assert(member_name_text(name, o) == body + seq![':', ' ']);
    if o.quoted_member_name {
        quoted_has_no_control_characters(name);
        assert(quoted(name).len() == escaped(name).len() + 2);
        lemma_escaped_len(name);
        assert forall|i: int| 0 <= i < name.len() + 2 implies !is_control_char(
            #[trigger] member_name_text(name, o)[i],
        ) by {
            assert(member_name_text(name, o)[i] == quoted(name)[i]);
        }
    } else if !is_control_char(o.member_name_replacement) {
        assert forall|i: int| 0 <= i < name.len() implies !is_control_char(
            #[trigger] member_name_text(name, o)[i],
        ) by {
            assert(member_name_text(name, o)[i] == member_char(name[i], o.member_name_replacement));
        }
        if !is_whitespace_char(o.member_name_replacement) {
            assert forall|i: int| 0 <= i < name.len() implies !is_whitespace_char(
                #[trigger] member_name_text(name, o)[i],
            ) by {
                assert(member_name_text(name, o)[i] == member_char(
                    name[i],
                    o.member_name_replacement,
                ));
            }
        }
    }
}

/// Law: an unquoted member name is written character for character, followed by `": "`:
/// each whitespace or control character is replaced by the replacement character, and
/// every other character is kept as it is. A quoted name is the name as a JSON string.
pub proof fn member_names_keep_their_characters(name: Seq<char>, o: OptionsView)
    ensures
        !o.quoted_member_name ==> {
            &&& member_name_text(name, o).len() == name.len() + 2
            &&& forall|i: int|
                0 <= i < name.len() ==> #[trigger] member_name_text(name, o)[i] == if is_whitespace_char(
                    name[i],
                ) || is_control_char(name[i]) {
                    o.member_name_replacement
                } else {
                    name[i]
                }
            &&& member_name_text(name, o)[name.len() as int] == ':'
            &&& member_name_text(name, o)[name.len() as int + 1] == ' '
        },
        o.quoted_member_name ==> member_name_text(name, o) == quoted(name) + seq![':', ' '],
{
}

proof fn lemma_escaped_len(s: Seq<char>)
    ensures
        escaped(s).len() >= s.len(),
    decreases s.len(),
{
    if s.len() > 0 {
        lemma_escaped_len(s.drop_last());
    }
}

/// The text of `v` printed at nesting level `indent`.
///
/// Scalars are written inline. A non-empty container is written as its opening
/// bracket, a line break, its items (each on its own line, indented one level
/// deeper, separated by `,` and a line break), a line break, the indentation of
/// `indent`, and its closing bracket. An empty container is written as `[]` or `{}`.
pub open spec fn value_text(indent: nat, v: JsonValue, o: OptionsView) -> Seq<char>
    decreases v,
{
    match v {
        JsonValue::Null => seq!['n', 'u', 'l', 'l'],
        JsonValue::Bool(b) => if b {
            seq!['t', 'r', 'u', 'e']
        } else {
            seq!['f', 'a', 'l', 's', 'e']
        },
        JsonValue::Number(n) => number_text(n),
        JsonValue::String(s) => quoted(s@),
        JsonValue::Array(items) => seq!['['] + (if items@.len() > 0 {
            o.linebreak + elements_text(indent, items@, o) + o.linebreak + repeat(
                o.indent,
                indent,
            )
        } else {
            Seq::empty()
        }) + seq![']'],
        JsonValue::Object(members) => seq!['{'] + (if members@.len() > 0 {
            o.linebreak + members_text(indent, members@, o) + o.linebreak + repeat(
                o.indent,
                indent,
            )
        } else {
            Seq::empty()
        }) + seq!['}'],
    }
}

/// The separator written before the item at position `i` of a container.
pub open spec fn separator(i: int, o: OptionsView) -> Seq<char> {
    if i > 0 {
        seq![','] + o.linebreak
    } else {
        Seq::empty()
    }
}

/// The items of an array, each on its own line one level deeper than `indent`.
pub open spec fn elements_text(indent: nat, items: Seq<JsonValue>, o: OptionsView) -> Seq<char>
    decreases items,
{
    if items.len() == 0 {
        Seq::empty()
    } else {
        elements_text(indent, items.drop_last(), o) + separator(items.len() - 1, o) + repeat(
            o.indent,
            indent + 1,
        ) + value_text(indent + 1, items.last(), o)
    }
}

/// The members of an object, each on its own line one level deeper than `indent`.
pub open spec fn members_text(indent: nat, members: Seq<(String, JsonValue)>, o: OptionsView) -> Seq<
    char,
>
    decreases members,
{
    if members.len() == 0 {
        Seq::empty()
    } else {
        members_text(indent, members.drop_last(), o) + separator(members.len() - 1, o) + repeat(
            o.indent,
            indent + 1,
        ) + member_name_text(members.last().0@, o) + value_text(indent + 1, members.last().1, o)
    }
}

/// Whether printing `v` at nesting level `indent` keeps every nesting level within `usize`.
pub open spec fn indent_fits(indent: nat, v: JsonValue) -> bool
    decreases v,
{
    &&& indent <= usize::MAX
    &&& match v {
        JsonValue::Array(items) => elements_fit(indent + 1, items@),
        JsonValue::Object(members) => members_fit(indent + 1, members@),
        _ => true,
    }
}

/// Whether every item fits at nesting level `indent`.
pub open spec fn elements_fit(indent: nat, items: Seq<JsonValue>) -> bool
    decreases items,
{
    items.len() == 0 || (elements_fit(indent, items.drop_last()) && indent_fits(
        indent,
        items.last(),
    ))
}

/// Whether every member value fits at nesting level `indent`.
pub open spec fn members_fit(indent: nat, members: Seq<(String, JsonValue)>) -> bool
    decreases members,
{
    members.len() == 0 || (members_fit(indent, members.drop_last()) && indent_fits(
        indent,
        members.last().1,
    ))
}

proof fn lemma_elements_fit(indent: nat, items: Seq<JsonValue>, i: int)
    requires
        elements_fit(indent, items),
        0 <= i < items.len(),
    ensures
        indent_fits(indent, items[i]),
    decreases items.len(),
{
    if i < items.len() - 1 {
        lemma_elements_fit(indent, items.drop_last(), i);
    }
}

proof fn lemma_members_fit(indent: nat, members: Seq<(String, JsonValue)>, i: int)
    requires
        members_fit(indent, members),
        0 <= i < members.len(),
    ensures
        indent_fits(indent, members[i].1),
    decreases members.len(),
{
    if i < members.len() - 1 {
        lemma_members_fit(indent, members.drop_last(), i);
    }
}

/// Whether printing `v` at nesting level `indent` keeps every nesting level within `usize`.
pub fn nesting_fits(indent: usize, v: &JsonValue) -> (r: bool)
    ensures
        r == indent_fits(indent as nat, *v),
    decreases v,
{
    match v {
        JsonValue::Array(items) => {
            if items.len() == 0 {
                assert(items@ =~= Seq::<JsonValue>::empty());
                return true;
            }
            if indent == usize::MAX {
                assert(!indent_fits((indent + 1) as nat, items@.last()));
                return false;
            }
            let mut i: usize = 0;
            while i < items.len()
                invariant
                    i <= items.len(),
                    indent < usize::MAX,
                    *v == JsonValue::Array(*items),
                    elements_fit((indent + 1) as nat, items@.take(i as int)),
                decreases items.len() - i,
            {
                assert(items@.take(i + 1).drop_last() =~= items@.take(i as int));
                assert(decreases_to!(*v => items@[i as int])) by {
                    assert(decreases_to!(*v => v->Array_0));
                    assert(decreases_to!(*items => items@));
                    assert(decreases_to!(items@ => items@[i as int]));
                }
                if !nesting_fits(indent + 1, &items[i]) {
                    assert(!elements_fit((indent + 1) as nat, items@)) by {
                        lemma_elements_fit_all((indent + 1) as nat, items@, i as int);
                    }
                    return false;
                }
                i = i + 1;
            }
            assert(items@.take(items.len() as int) =~= items@);
            true
        },
        JsonValue::Object(members) => {
            if members.len() == 0 {
                assert(members@ =~= Seq::<(String, JsonValue)>::empty());
                return true;
            }
            if indent == usize::MAX {
                assert(!indent_fits((indent + 1) as nat, members@.last().1));
                return false;
            }
            let mut i: usize = 0;
            while i < members.len()
                invariant
                    i <= members.len(),
                    indent < usize::MAX,
                    *v == JsonValue::Object(*members),
                    members_fit((indent + 1) as nat, members@.take(i as int)),
                decreases members.len() - i,
            {
                assert(members@.take(i + 1).drop_last() =~= members@.take(i as int));
                assert(decreases_to!(*v => members@[i as int].1)) by {
                    assert(decreases_to!(*v => v->Object_0));
                    assert(decreases_to!(*members => members@));
                    assert(decreases_to!(members@ => members@[i as int]));
                    assert(decreases_to!(members@[i as int] => members@[i as int].1));
                }
                if !nesting_fits(indent + 1, &members[i].1) {
                    assert(!members_fit((indent + 1) as nat, members@)) by {
                        lemma_members_fit_all((indent + 1) as nat, members@, i as int);
                    }
                    return false;
                }
                i = i + 1;
            }
            assert(members@.take(members.len() as int) =~= members@);
            true
        },
        _ => true,
    }
}

proof fn lemma_elements_fit_all(indent: nat, items: Seq<JsonValue>, i: int)
    requires
        0 <= i < items.len(),
        !indent_fits(indent, items[i]),
    ensures
        !elements_fit(indent, items),
{
    if elements_fit(indent, items) {
        lemma_elements_fit(indent, items, i);
    }
}

proof fn lemma_members_fit_all(indent: nat, members: Seq<(String, JsonValue)>, i: int)
    requires
        0 <= i < members.len(),
        !indent_fits(indent, members[i].1),
    ensures
        !members_fit(indent, members),
{
    if members_fit(indent, members) {
        lemma_members_fit(indent, members, i);
    }
}

/// A value to be pretty-printed at a given nesting level.
pub struct Pretty<'a> {
    indent: usize,
    value: &'a JsonValue,
    options: Options,
}

impl<'a> Pretty<'a> {
    /// The text this printer writes.
    pub closed spec fn text(self) -> Seq<char> {
        value_text(self.indent as nat, *self.value, self.options@)
    }

    /// The value this printer writes.
    pub closed spec fn printed(self) -> JsonValue {
        *self.value
    }

    /// Whether the nesting of the value stays within `usize` when printed.
    pub closed spec fn fits(self) -> bool {
        indent_fits(self.indent as nat, *self.value)
    }

    /// A printer of `value` at nesting level `indent`. The value is one of the JSON data
    /// model, whose objects hold their members in key order.
    pub fn new(indent: usize, value: &'a JsonValue, options: Options) -> (r: Self)
        requires
            keys_ordered(*value),
        ensures
            r.text() == value_text(indent as nat, *value, options@),
            r.fits() == indent_fits(indent as nat, *value),
    {
        Self { indent, value, options }
    }

    fn indented(&self, value: &'a JsonValue) -> (r: Self)
        requires
            self.indent < usize::MAX,
        ensures
            r.indent == self.indent + 1,
            r.value == value,
            r.options == self.options,
    {
        Self { indent: self.indent + 1, value, options: self.options }
    }

    fn indent(&self, out: &mut String)
        ensures
            final(out)@ == old(out)@ + repeat(self.options.indent@, self.indent as nat),
    {
        push_repeated(out, self.options.indent, self.indent);
    }

    fn br(&self, out: &mut String)
        ensures
            final(out)@ == old(out)@ + self.options.linebreak@,
    {
        out.append(self.options.linebreak);
    }

    fn begin_array(&self, out: &mut String)
        ensures
            final(out)@ == old(out)@.push('['),
    {
        push_char(out, '[');
    }

    fn between_element(&self, out: &mut String)
        ensures
            final(out)@ == old(out)@ + seq![','] + self.options.linebreak@,
    {
        push_char(out, ',');
        self.br(out);
    }

    fn end_array(&self, out: &mut String)
        ensures
            final(out)@ == old(out)@.push(']'),
    {
        push_char(out, ']');
    }

    fn begin_object(&self, out: &mut String)
        ensures
            final(out)@ == old(out)@.push('{'),
    {
        push_char(out, '{');
    }

    fn write_member_name(&self, name: &str, out: &mut String)
        ensures
            final(out)@ == old(out)@ + member_name_text(name@, self.options@),
    {
        let ghost start = out@;
        if self.options.quoted_member_name {
            write_string(name, out);
        } else {
            let ghost s = name@;
            let ghost r = self.options.member_name_replacement;
            let mut it = name.chars();
            let ghost mut i: int = 0;
            loop
                invariant
                    0 <= i <= s.len(),
                    s == name@,
                    r == self.options.member_name_replacement,
                    it.remaining() == s.skip(i),
                    out@ == start + s.take(i).map_values(|c: char| member_char(c, r)),
                ensures
                    out@ == start + s.map_values(|c: char| member_char(c, r)),
                decreases s.len() - i,
            {
                let next = it.next();
                match next {
                    Some(ch) => {
                        let shown = if is_whitespace(ch) || is_control(ch) {
                            self.options.member_name_replacement
                        } else {
                            ch
                        };
                        push_char(out, shown);
                        assert(s.take(i + 1).map_values(|c: char| member_char(c, r)) =~= s.take(
                            i,
                        ).map_values(|c: char| member_char(c, r)).push(shown));
                        proof {
                            i = i + 1;
                        }
                        assert(it.remaining() =~= s.skip(i));
                    },
                    None => {
                        assert(s.take(i) =~= s) by {
                            assert(s.skip(i).len() == 0);
                        }
                        break ;
                    },
                }
            }
        }
        push_char(out, ':');
        push_char(out, ' ');
        assert(out@ == start + member_name_text(name@, self.options@));
    }

    fn between_member(&self, out: &mut String)
        ensures
            final(out)@ == old(out)@ + seq![','] + self.options.linebreak@,
    {
        push_char(out, ',');
        self.br(out);
    }

    fn end_object(&self, out: &mut String)
        ensures
            final(out)@ == old(out)@.push('}'),
    {
        push_char(out, '}');
    }

    /// Appends the text of this printer.
    pub fn fmt(&self, out: &mut String)
        requires
            self.fits(),
        ensures
            final(out)@ == old(out)@ + self.text(),
        decreases self.printed(),
    {
        let ghost start = out@;
        let ghost o = self.options@;
        let ghost d = self.indent as nat;
        match self.value {
            JsonValue::Null => {
                out.append("null");
                proof {
                    reveal_strlit("null");
                }
            },
            JsonValue::Bool(v) => {
                if *v {
                    out.append("true");
                } else {
                    out.append("false");
                }
                proof {
                    reveal_strlit("true");
                    reveal_strlit("false");
                }
            },
            JsonValue::Number(n) => match n {
                JsonNumber::PosInt(u) => push_decimal(out, *u),
                JsonNumber::NegInt(i) => push_signed_decimal(out, *i),
                JsonNumber::Float(t) => out.append(t.as_str()),
            },
            JsonValue::String(v) => write_string(v.as_str(), out),
            JsonValue::Array(v) => {
                self.begin_array(out);
                if v.len() > 0 {
                    self.br(out);
                    let ghost mid = out@;
                    let mut i: usize = 0;
                    while i < v.len()
                        invariant
                            i <= v.len(),
                            *self.value == JsonValue::Array(*v),
                            self.fits(),
                            o == self.options@,
                            d == self.indent,
                            out@ == mid + elements_text(d, v@.take(i as int), o),
                        decreases v.len() - i,
                    {
                        let ghost before = out@;
                        if i > 0 {
                            self.between_element(out);
                        }
                        proof {
                            lemma_elements_fit(d + 1, v@, i as int);
                        }
                        let ser = self.indented(&v[i]);
                        ser.indent(out);
                        ser.fmt(out);
                        assert(v@.take(i + 1).drop_last() =~= v@.take(i as int));
                        assert(out@ == before + separator(i as int, o) + repeat(o.indent, d + 1)
                            + value_text(d + 1, v@[i as int], o));
                        i = i + 1;
                    }
                    assert(v@.take(v.len() as int) =~= v@);
                    self.br(out);
                    self.indent(out);
                }
                self.end_array(out);
            },
            JsonValue::Object(v) => {
                self.begin_object(out);
                if v.len() > 0 {
                    self.br(out);
                    let ghost mid = out@;
                    let mut i: usize = 0;
                    while i < v.len()
                        invariant
                            i <= v.len(),
                            *self.value == JsonValue::Object(*v),
                            self.fits(),
                            o == self.options@,
                            d == self.indent,
                            out@ == mid + members_text(d, v@.take(i as int), o),
                        decreases v.len() - i,
                    {
                        let ghost before = out@;
                        if i > 0 {
                            self.between_member(out);
                        }
                        proof {
                            lemma_members_fit(d + 1, v@, i as int);
                        }
                        let member = &v[i];
                        let ser = self.indented(&member.1);
                        ser.indent(out);
                        ser.write_member_name(member.0.as_str(), out);
                        ser.fmt(out);
                        assert(v@.take(i + 1).drop_last() =~= v@.take(i as int));
                        assert(out@ == before + separator(i as int, o) + repeat(o.indent, d + 1)
                            + member_name_text(v@[i as int].0@, o) + value_text(
                            d + 1,
                            v@[i as int].1,
                            o,
                        ));
                        i = i + 1;
                    }
                    assert(v@.take(v.len() as int) =~= v@);
                    self.br(out);
                    self.indent(out);
                }
                self.end_object(out);
            },
        }
    }

    /// The text of this printer as a string.
    pub fn to_string(&self) -> (s: String)
        requires
            self.fits(),
        ensures
            s@ == self.text(),
    {
        let mut s = String::new();
        self.fmt(&mut s);
        assert(s@ =~= self.text());
        s
    }
}

} // verus!
