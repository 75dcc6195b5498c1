use vstd::prelude::*;
use crate::log::text::{hex4, hex_char, is_control, is_control_char, push_char, push_hex4};
use vstd::std_specs::iter::IteratorSpec;

verus! {

broadcast use vstd::string::group_string_axioms;

/// The escape sequence written for one character inside a quoted string.
pub open spec fn escape_char(c: char) -> Seq<char> {
    if c == '\x08' {
        seq!['\\', 'b']
    } else if c == '\t' {
        seq!['\\', 't']
    } else if c == '\n' {
        seq!['\\', 'n']
    } else if c == '\x0C' {
        seq!['\\', 'f']
    } else if c == '\r' {
        seq!['\\', 'r']
    } else if c == '"' {
        seq!['\\', '"']
    } else if c == '\\' {
        seq!['\\', '\\']
    } else if is_control_char(c) {
        seq!['\\', 'u'] + hex4(c as nat)
    } else {
        seq![c]
    }
}

/// Every character of `s`, escaped.
pub open spec fn escaped(s: Seq<char>) -> Seq<char>
    decreases s.len(),
{
    if s.len() == 0 {
        Seq::empty()
    } else {
        escaped(s.drop_last()) + escape_char(s.last())
    }
}

/// A string as a JSON string literal: quoted, with its characters escaped.
pub open spec fn quoted(s: Seq<char>) -> Seq<char> {
    seq!['"'] + escaped(s) + seq!['"']
}

proof fn lemma_escape_char_clean(c: char)
    ensures
        forall|i: int|
            0 <= i < escape_char(c).len() ==> !is_control_char(#[trigger] escape_char(c)[i]),
{
    if is_control_char(c) && c != '\x08' && c != '\t' && c != '\n' && c != '\x0C' && c != '\r' {
        let n = c as nat;
        assert forall|i: int| 0 <= i < 4 implies !is_control_char(#[trigger] hex4(n)[i]) by {
            let d = if i == 0 {
                (n / 4096) % 16
            } else if i == 1 {
                (n / 256) % 16
            } else if i == 2 {
                (n / 16) % 16
            } else {
                n % 16
            };
            assert(hex4(n)[i] == hex_char(d));
        }
    }
}

proof fn lemma_escaped_clean(s: Seq<char>)
    ensures
        forall|i: int| 0 <= i < escaped(s).len() ==> !is_control_char(#[trigger] escaped(s)[i]),
    decreases s.len(),
{
    if s.len() > 0 {
        lemma_escaped_clean(s.drop_last());
        lemma_escape_char_clean(s.last());
        let a = escaped(s.drop_last());
        let b = escape_char(s.last());
        assert forall|i: int| 0 <= i < escaped(s).len() implies !is_control_char(
            #[trigger] escaped(s)[i],
        ) by {
            if i < a.len() {
                assert(escaped(s)[i] == a[i]);
            } else {
                assert(escaped(s)[i] == b[i - a.len()]);
            }
        }
    }
}

/// Law: a quoted string holds no control character, so the text of any JSON string
/// stays on one line, whatever the string holds.
pub proof fn quoted_has_no_control_characters(s: Seq<char>)
    ensures
        forall|i: int| 0 <= i < quoted(s).len() ==> !is_control_char(#[trigger] quoted(s)[i]),
{
    lemma_escaped_clean(s);
    let e = escaped(s);
    assert forall|i: int| 0 <= i < quoted(s).len() implies !is_control_char(
        #[trigger] quoted(s)[i],
    ) by {
        if i > 0 && i < quoted(s).len() - 1 {
            assert(quoted(s)[i] == e[i - 1]);
        }
    }
}

/// The number a hexadecimal digit stands for.
pub open spec fn hex_value(c: char) -> int {
    if '0' <= c && c <= '9' {
        (c as u32) as int - ('0' as u32) as int
    } else if 'a' <= c && c <= 'f' {
        (c as u32) as int - ('a' as u32) as int + 10
    } else {
        (c as u32) as int - ('A' as u32) as int + 10
    }
}

/// The character a two-character escape sequence `\e` stands for.
pub open spec fn unescape_short(e: char) -> char {
    if e == 'b' {
        '\x08'
    } else if e == 't' {
        '\t'
    } else if e == 'n' {
        '\n'
    } else if e == 'f' {
        '\x0C'
    } else if e == 'r' {
        '\r'
    } else {
        e
    }
}

/// The characters that the body of a JSON string literal stands for: each escape sequence
/// read back as the character it stands for.
pub open spec fn unescape(t: Seq<char>) -> Seq<char>
    decreases t.len(),
{
    if t.len() == 0 {
        Seq::empty()
    } else if t[0] == '\\' && t.len() >= 6 && t[1] == 'u' {
        seq![
            ((hex_value(t[2]) * 4096 + hex_value(t[3]) * 256 + hex_value(t[4]) * 16 + hex_value(
                t[5],
            )) as u32) as char,
        ] + unescape(t.skip(6))
    } else if t[0] == '\\' && t.len() >= 2 {
        seq![unescape_short(t[1])] + unescape(t.skip(2))
    } else {
        seq![t[0]] + unescape(t.skip(1))
    }
}

/// The escape sequences of a string, read from its first character.
pub proof fn lemma_escaped_front(s: Seq<char>)
    requires
        s.len() > 0,
    ensures
        escaped(s) == escape_char(s[0]) + escaped(s.skip(1)),
    decreases s.len(),
{
    if s.len() == 1 {
        assert(s.drop_last() =~= Seq::<char>::empty());
        assert(s.skip(1) =~= Seq::<char>::empty());
        assert(escaped(s.skip(1)) =~= Seq::<char>::empty());
        assert(escaped(s) =~= escape_char(s[0]));
    } else {
        lemma_escaped_front(s.drop_last());
        assert(s.drop_last().skip(1) =~= s.skip(1).drop_last());
        assert(s.skip(1).last() == s.last());
        assert(escaped(s) =~= escape_char(s[0]) + escaped(s.skip(1)));
    }
}

proof fn lemma_unescape_char(c: char, rest: Seq<char>)
    ensures
        unescape(escape_char(c) + rest) == seq![c] + unescape(rest),
{
    let t = escape_char(c) + rest;
    if c == '\x08' || c == '\t' || c == '\n' || c == '\x0C' || c == '\r' || c == '"' || c == '\\' {
        assert(t[0] == '\\' && t.len() >= 2);
        assert(t[1] != 'u');
        assert(t.skip(2) =~= rest);
    } else if is_control_char(c) {
        let n = c as nat;
        assert(n < 256);
        assert(n / 4096 == 0);
        assert((n / 256) % 16 == 0);
        assert((n / 16) % 16 == n / 16);
        assert(t[0] == '\\' && t.len() >= 6 && t[1] == 'u');
        assert(t[2] == hex_char(0) && t[3] == hex_char(0));
        assert(t[4] == hex_char(n / 16) && t[5] == hex_char(n % 16));
        lemma_hex_value(n / 16);
        lemma_hex_value(n % 16);
        assert(hex_value(t[2]) * 4096 + hex_value(t[3]) * 256 + hex_value(t[4]) * 16 + hex_value(
            t[5],
        ) == n);
        assert(((n as u32) as char) == c);
        assert(t.skip(6) =~= rest);
    } else {
        assert(t[0] == c);
        assert(t.skip(1) =~= rest);
    }
}

/// A hexadecimal digit written for `d` reads back as `d`.
pub proof fn lemma_hex_value(d: nat)
    requires
        d < 16,
    ensures
        hex_value(hex_char(d)) == d,
{
}

/// Law: escaping loses nothing: reading the escape sequences of `escaped(s)` back gives
/// `s`, so distinct strings are written as distinct JSON string literals.
pub proof fn escaping_reads_back(s: Seq<char>)
    ensures
        unescape(escaped(s)) == s,
    decreases s.len(),
{
    if s.len() == 0 {
        assert(escaped(s) =~= Seq::<char>::empty());
    } else {
        lemma_escaped_front(s);
        lemma_unescape_char(s[0], escaped(s.skip(1)));
        escaping_reads_back(s.skip(1));
        assert(s =~= seq![s[0]] + s.skip(1));
    }
}

/// Appends the escape sequence of one character.
pub fn push_escaped_char(out: &mut String, c: char)
    ensures
        final(out)@ == old(out)@ + escape_char(c),
{
    if c == '\x08' {
        out.append("\\b");
    } else if c == '\t' {
        out.append("\\t");
    } else if c == '\n' {
        out.append("\\n");
    } else if c == '\x0C' {
        out.append("\\f");
    } else if c == '\r' {
        out.append("\\r");
    } else if c == '"' {
        out.append("\\\"");
    } else if c == '\\' {
        out.append("\\\\");
    } else if is_control(c) {
        out.append("\\u");
        push_hex4(out, c as u32);
    } else {
        push_char(out, c);
    }
    proof {
        reveal_strlit("\\b");
        reveal_strlit("\\t");
        reveal_strlit("\\n");
        reveal_strlit("\\f");
        reveal_strlit("\\r");
        reveal_strlit("\\\"");
        reveal_strlit("\\\\");
        reveal_strlit("\\u");
    }
    assert(final(out)@ == old(out)@ + escape_char(c));
}

/// Appends `v` as a JSON string literal: quoted, with control characters, quotes and
/// backslashes escaped.
pub fn write_string(v: &str, out: &mut String)
    ensures
        final(out)@ == old(out)@ + quoted(v@),
{
    let ghost start = out@;
    push_char(out, '"');
    let mut it = v.chars();
    let ghost s = v@;
    let ghost mut i: int = 0;
    loop
        invariant
            0 <= i <= s.len(),
            s == v@,
            it.remaining() == s.skip(i),
            out@ == start + seq!['"'] + escaped(s.take(i)),
        ensures
            out@ == start + seq!['"'] + escaped(v@),
        decreases s.len() - i,
    {
        let next = it.next();
        match next {
            Some(c) => {
                assert(s.take(i + 1).drop_last() =~= s.take(i));
                push_escaped_char(out, c);
                proof {
                    i = i + 1;
                }
                assert(it.remaining() =~= s.skip(i));
            },
            None => {
                assert(s.take(i) =~= s) by {
                    assert(s.skip(i).len() == 0);
                }
                break ;
            },
        }
    }
    push_char(out, '"');
}

} // verus!
