use vstd::prelude::*;
use vstd::std_specs::iter::IteratorSpec;

verus! {


/// A JSON number as the JSON data model holds it.
///
/// Integers are held exactly; a floating-point number is held by its shortest
/// round-trip text, since its digits are all that the formatter reads.
#[derive(Debug)]
pub enum JsonNumber {
    PosInt(u64),
    NegInt(i64),
    Float(String),
}

/// A JSON value: the data of an event field.
///
/// An object holds its members in the order of its keys, each key once, as the map of
/// the JSON data model keeps them (see `keys_in_order`).
#[derive(Debug)]
pub enum JsonValue {
    Null,
    Bool(bool),
    Number(JsonNumber),
    String(String),
    Array(Vec<JsonValue>),
    Object(Vec<(String, JsonValue)>),
}

/// Whether the text `a` comes before the text `b` in the order of `str` comparison:
/// by the first character in which they differ, and a proper prefix before the longer text.
pub open spec fn text_before(a: Seq<char>, b: Seq<char>) -> bool
    decreases a.len(),
{
    if a.len() == 0 {
        b.len() > 0
    } else if b.len() == 0 {
        false
    } else if a[0] != b[0] {
        (a[0] as u32) < (b[0] as u32)
    } else {
        text_before(a.drop_first(), b.drop_first())
    }
}

/// Whether the members of an object come in strictly ascending order of their keys,
/// which also means that no key occurs twice.
pub open spec fn keys_in_order(members: Seq<(String, JsonValue)>) -> bool {
    forall|i: int, j: int|
        0 <= i < j < members.len() ==> text_before(#[trigger] members[i].0@, #[trigger] members[j].0@)
}

/// Whether every object in `v`, at any depth, has its members in key order, each key
/// once, as the map of the JSON data model holds them.
pub open spec fn keys_ordered(v: JsonValue) -> bool
    decreases v,
{
    match v {
        JsonValue::Array(items) => items_keys_ordered(items@),
        JsonValue::Object(members) => keys_in_order(members@) && members_keys_ordered(members@),
        _ => true,
    }
}

/// Whether every item has its keys ordered throughout.
pub open spec fn items_keys_ordered(items: Seq<JsonValue>) -> bool
    decreases items,
{
    items.len() == 0 || (keys_ordered(items[0]) && items_keys_ordered(items.drop_first()))
}

/// Whether the value of every member has its keys ordered throughout.
pub open spec fn members_keys_ordered(members: Seq<(String, JsonValue)>) -> bool
    decreases members,
{
    members.len() == 0 || (keys_ordered(members[0].1) && members_keys_ordered(
        members.drop_first(),
    ))
}

proof fn lemma_items_keys_ordered(items: Seq<JsonValue>)
    ensures
        items_keys_ordered(items) <==> forall|i: int|
            0 <= i < items.len() ==> keys_ordered(#[trigger] items[i]),
    decreases items.len(),
{
    if items.len() > 0 {
        lemma_items_keys_ordered(items.drop_first());
        if forall|i: int| 0 <= i < items.drop_first().len() ==> keys_ordered(
            #[trigger] items.drop_first()[i],
        ) {
            assert forall|i: int| 0 < i < items.len() implies keys_ordered(#[trigger] items[i]) by {
                assert(items[i] == items.drop_first()[i - 1]);
            }
        }
        assert forall|i: int| 0 <= i < items.drop_first().len() && (forall|j: int|
            0 <= j < items.len() ==> keys_ordered(#[trigger] items[j])) implies keys_ordered(
            items.drop_first()[i],
        ) by {
            assert(items.drop_first()[i] == items[i + 1]);
        }
    }
}

proof fn lemma_members_keys_ordered(members: Seq<(String, JsonValue)>)
    ensures
        members_keys_ordered(members) <==> forall|i: int|
            0 <= i < members.len() ==> keys_ordered(#[trigger] members[i].1),
    decreases members.len(),
{
    if members.len() > 0 {
        lemma_members_keys_ordered(members.drop_first());
        if forall|i: int| 0 <= i < members.drop_first().len() ==> keys_ordered(
            #[trigger] members.drop_first()[i].1,
        ) {
            assert forall|i: int| 0 < i < members.len() implies keys_ordered(
                #[trigger] members[i].1,
            ) by {
                assert(members[i] == members.drop_first()[i - 1]);
            }
        }
        assert forall|i: int| 0 <= i < members.drop_first().len() && (forall|j: int|
            0 <= j < members.len() ==> keys_ordered(#[trigger] members[j].1)) implies keys_ordered(
            members.drop_first()[i].1,
        ) by {
            assert(members.drop_first()[i] == members[i + 1]);
        }
    }
}

/// The order of texts is transitive.
pub proof fn text_before_transitive(a: Seq<char>, b: Seq<char>, c: Seq<char>)
    requires
        text_before(a, b),
        text_before(b, c),
    ensures
        text_before(a, c),
    decreases a.len(),
{
    if a.len() > 0 && b.len() > 0 && c.len() > 0 && a[0] == b[0] && b[0] == c[0] {
        text_before_transitive(a.drop_first(), b.drop_first(), c.drop_first());
    }
}

proof fn lemma_adjacent_keys(members: Seq<(String, JsonValue)>)
    requires
        forall|k: int|
            0 <= k < members.len() - 1 ==> text_before(#[trigger] members[k].0@, members[k + 1].0@),
    ensures
        keys_in_order(members),
{
    assert forall|i: int, j: int| 0 <= i < j < members.len() implies text_before(
        #[trigger] members[i].0@,
        #[trigger] members[j].0@,
    ) by {
        lemma_adjacent_keys_from(members, i, j);
    }
}

proof fn lemma_adjacent_keys_from(members: Seq<(String, JsonValue)>, i: int, j: int)
    requires
        forall|k: int|
            0 <= k < members.len() - 1 ==> text_before(#[trigger] members[k].0@, members[k + 1].0@),
        0 <= i < j < members.len(),
    ensures
        text_before(members[i].0@, members[j].0@),
    decreases j - i,
{
    if j > i + 1 {
        lemma_adjacent_keys_from(members, i, j - 1);
        assert(text_before(members[j - 1].0@, members[j].0@));
        text_before_transitive(members[i].0@, members[j - 1].0@, members[j].0@);
    }
}

/// The characters of `s`.
fn chars_of(s: &str) -> (r: Vec<char>)
    ensures
        r@ == s@,
{
    let mut r: Vec<char> = Vec::new();
    let mut it = s.chars();
    let ghost t = s@;
    let ghost mut i: int = 0;
    loop
        invariant
            0 <= i <= t.len(),
            t == s@,
            it.remaining() == t.skip(i),
            r@ == t.take(i),
        ensures
            r@ == s@,
        decreases t.len() - i,
    {
        let next = it.next();
        match next {
            Some(c) => {
                r.push(c);
                proof {
                    i = i + 1;
                }
                assert(r@ =~= t.take(i));
                assert(it.remaining() =~= t.skip(i));
            },
            None => {
                assert(t.take(i) =~= t) by {
                    assert(t.skip(i).len() == 0);
                }
                break ;
            },
        }
    }
    r
}

proof fn lemma_text_before_skip(a: Seq<char>, b: Seq<char>, i: int)
    requires
        0 <= i < a.len(),
        i < b.len(),
        a[i] == b[i],
    ensures
        text_before(a.skip(i), b.skip(i)) == text_before(a.skip(i + 1), b.skip(i + 1)),
{
    assert(a.skip(i).drop_first() =~= a.skip(i + 1));
    assert(b.skip(i).drop_first() =~= b.skip(i + 1));
}

/// Whether the text `a` comes before the text `b`.
pub fn comes_before(a: &str, b: &str) -> (r: bool)
    ensures
        r == text_before(a@, b@),
{
    let x = chars_of(a);
    let y = chars_of(b);
    let mut i: usize = 0;
    assert(x@.skip(0) =~= x@);
    assert(y@.skip(0) =~= y@);
    while i < x.len() && i < y.len() && x[i] == y[i]
        invariant
            i <= x.len(),
            i <= y.len(),
            x@ == a@,
            y@ == b@,
            text_before(a@, b@) == text_before(x@.skip(i as int), y@.skip(i as int)),
        decreases x.len() - i,
    {
        proof {
            lemma_text_before_skip(x@, y@, i as int);
        }
        i = i + 1;
    }
    let ghost xs = x@.skip(i as int);
    let ghost ys = y@.skip(i as int);
    assert(xs.len() == x.len() - i);
    assert(ys.len() == y.len() - i);
    if i == x.len() {
        i < y.len()
    } else if i == y.len() {
        false
    } else {
        assert(xs[0] == x@[i as int]);
        assert(ys[0] == y@[i as int]);
        assert(xs[0] != ys[0]);
        (x[i] as u32) < (y[i] as u32)
    }
}

/// Whether every object in `v`, at any depth, has its members in key order, each key once.
pub fn has_ordered_keys(v: &JsonValue) -> (r: bool)
    ensures
        r == keys_ordered(*v),
    decreases v,
{
    match v {
        JsonValue::Array(items) => {
            proof {
                lemma_items_keys_ordered(items@);
            }
            let mut i: usize = 0;
            while i < items.len()
                invariant
                    i <= items.len(),
                    *v == JsonValue::Array(*items),
                    forall|j: int| 0 <= j < i ==> keys_ordered(#[trigger] items@[j]),
                decreases items.len() - i,
            {
                assert(decreases_to!(*v => items@[i as int])) by {
                    assert(decreases_to!(*v => v->Array_0));
                    assert(decreases_to!(*items => items@));
                    assert(decreases_to!(items@ => items@[i as int]));
                }
                if !has_ordered_keys(&items[i]) {
                    proof {
                        lemma_items_keys_ordered(items@);
                    }
                    assert(!keys_ordered(items@[i as int]));
                    return false;
                }
                i = i + 1;
            }
            true
        },
        JsonValue::Object(members) => {
            proof {
                lemma_members_keys_ordered(members@);
            }
            let mut i: usize = 0;
            while i < members.len()
                invariant
                    i <= members.len(),
                    *v == JsonValue::Object(*members),
                    forall|j: int| 0 <= j < i ==> keys_ordered(#[trigger] members@[j].1),
                    forall|k: int|
                        0 <= k < i - 1 ==> text_before(
                            #[trigger] members@[k].0@,
                            members@[k + 1].0@,
                        ),
                decreases members.len() - i,
            {
                assert(decreases_to!(*v => members@[i as int].1)) by {
                    assert(decreases_to!(*v => v->Object_0));
                    assert(decreases_to!(*members => members@));
                    assert(decreases_to!(members@ => members@[i as int]));
                    assert(decreases_to!(members@[i as int] => members@[i as int].1));
                }
                if i > 0 && !comes_before(members[i - 1].0.as_str(), members[i].0.as_str()) {
                    assert(!keys_in_order(members@)) by {
                        assert(!text_before(members@[i - 1].0@, members@[i as int].0@));
                    }
                    return false;
                }
                if !has_ordered_keys(&members[i].1) {
                    proof {
                        lemma_members_keys_ordered(members@);
                    }
                    assert(!keys_ordered(members@[i as int].1));
                    return false;
                }
                i = i + 1;
            }
            proof {
                lemma_adjacent_keys(members@);
            }
            true
        },
        _ => true,
    }
}

/// The value recorded in place of a field whose serialization failed with the error
/// text `detail`: an object whose `message` is `"serialization failed"` and whose
/// `inner` is the error text, its members in key order.
pub fn serialization_failure(detail: String) -> (r: JsonValue)
    ensures
        ({
            &&& r matches JsonValue::Object(m)
            &&& m@.len() == 2
            &&& m@[0].0@ == "inner"@
            &&& m@[0].1 matches JsonValue::String(s0)
            &&& s0@ == detail@
            &&& m@[1].0@ == "message"@
            &&& m@[1].1 matches JsonValue::String(s1)
            &&& s1@ == "serialization failed"@
            &&& keys_in_order(m@)
        }),
{
    let mut members: Vec<(String, JsonValue)> = Vec::new();
    members.push((String::from_str("inner"), JsonValue::String(detail)));
    members.push(
        (String::from_str("message"), JsonValue::String(String::from_str("serialization failed"))),
    );
    proof {
        reveal_strlit("inner");
        reveal_strlit("message");
        assert(text_before("inner"@, "message"@));
    }
    JsonValue::Object(members)
}

} // verus!
