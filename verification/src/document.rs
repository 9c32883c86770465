//! JSON documents as this library reads them: a value of its own type,
//! their compact text, and the members and elements the RPC logic reads.

use vstd::prelude::*;
use crate::codec::{json_string_literal, json_stringify};
use crate::text::{push_char, push_str, str_eq};

verus! {

/// A JSON value. A number is held as the text the `json` crate writes for it.
pub enum Json {
    Null,
    Boolean(bool),
    Number(String),
    Text(String),
    Array(Vec<Json>),
    Object(Vec<(String, Json)>),
}

/// A JSON value as a mathematical value.
pub enum JsonView {
    Null,
    Boolean(bool),
    Number(Seq<char>),
    Text(Seq<char>),
    Array(Seq<JsonView>),
    Object(Seq<(Seq<char>, JsonView)>),
}

impl Json {
    /// The value as a mathematical value.
    pub open spec fn model(&self) -> JsonView
        decreases self,
    {
        match self {
            Json::Null => JsonView::Null,
            Json::Boolean(b) => JsonView::Boolean(*b),
            Json::Number(n) => JsonView::Number(n@),
            Json::Text(t) => JsonView::Text(t@),
            Json::Array(v) => JsonView::Array(
                Seq::new(
                    v@.len(),
                    |i: int|
                        if 0 <= i < v@.len() {
                            v@[i].model()
                        } else {
                            JsonView::Null
                        },
                ),
            ),
            Json::Object(v) => JsonView::Object(
                Seq::new(
                    v@.len(),
                    |i: int|
                        if 0 <= i < v@.len() {
                            (v@[i].0@, v@[i].1.model())
                        } else {
                            (Seq::empty(), JsonView::Null)
                        },
                ),
            ),
        }
    }
}

impl View for Json {
    type V = JsonView;

    open spec fn view(&self) -> JsonView {
        self.model()
    }
}

/// The compact text of a value, as `JsonValue::dump` writes it: no white
/// space, strings and keys as JSON string literals, `,` between elements
/// and members, `:` between a key and its value.
pub open spec fn compact(v: JsonView) -> Seq<char>
    decreases v,
{
    match v {
        JsonView::Null => "null"@,
        JsonView::Boolean(b) => if b {
            "true"@
        } else {
            "false"@
        },
        JsonView::Number(n) => n,
        JsonView::Text(s) => json_string_literal(s),
        JsonView::Array(items) => seq!['['] + compact_items(items) + seq![']'],
        JsonView::Object(entries) => seq!['{'] + compact_entries(entries) + seq!['}'],
    }
}

/// The compact texts of some values, joined by `,`.
pub open spec fn compact_items(items: Seq<JsonView>) -> Seq<char>
    decreases items,
{
    if items.len() == 0 {
        seq![]
    } else if items.len() == 1 {
        compact(items[0])
    } else {
        compact_items(items.drop_last()) + seq![','] + compact(items.last())
    }
}

/// The compact texts of some members, each `key:value`, joined by `,`.
pub open spec fn compact_entries(entries: Seq<(Seq<char>, JsonView)>) -> Seq<char>
    decreases entries,
{
    if entries.len() == 0 {
        seq![]
    } else if entries.len() == 1 {
        json_string_literal(entries[0].0) + seq![':'] + compact(entries[0].1)
    } else {
        compact_entries(entries.drop_last()) + seq![','] + json_string_literal(entries.last().0)
            + seq![':'] + compact(entries.last().1)
    }
}

/// Appends the compact text of `j` to `out`.
pub fn push_compact(out: &mut String, j: &Json)
    ensures
        final(out)@ == old(out)@ + compact(j@),
    decreases j,
{
    match j {
        Json::Null => push_str(out, "null"),
        Json::Boolean(b) => if *b {
            push_str(out, "true")
        } else {
            push_str(out, "false")
        },
        Json::Number(n) => push_str(out, n.as_str()),
        Json::Text(t) => {
            let q = json_stringify(t.as_str());
            push_str(out, q.as_str());
        },
        Json::Array(v) => {
            let ghost items = j@->Array_0;
            let ghost start = out@;
            push_char(out, '[');
            let mut i: usize = 0;
            while i < v.len()
                invariant
                    *j == Json::Array(*v),
                    items == j@->Array_0,
                    i <= v@.len(),
                    items.len() == v@.len(),
                    forall|k: int| 0 <= k < v@.len() ==> #[trigger] items[k] == v@[k]@,
                    out@ == start + seq!['['] + compact_items(items.take(i as int)),
                decreases v@.len() - i,
            {
                let ghost before = out@;
                if i > 0 {
                    push_char(out, ',');
                }
                proof {
                    assert(decreases_to!(*j => *v));
                    assert(decreases_to!(*v => v@));
                    assert(decreases_to!(v@ => v@[i as int]));
                    assert(decreases_to!(j => v@[i as int]));
                }
                push_compact(out, &v[i]);
                proof {
                    assert(items.take(i + 1).drop_last() =~= items.take(i as int));
                    assert(items.take(i + 1).last() == v@[i as int]@);
                    if i == 0 {
                        assert(items.take(1) =~= seq![items[0]]);
                    }
                    assert(out@ =~= start + seq!['['] + compact_items(items.take(i + 1)));
                }
                i += 1;
            }
            push_char(out, ']');
            assert(items.take(v@.len() as int) =~= items);
            assert(out@ =~= start + compact(j@));
        },
        Json::Object(v) => {
            let ghost entries = j@->Object_0;
            let ghost start = out@;
            push_char(out, '{');
            let mut i: usize = 0;
            while i < v.len()
                invariant
                    *j == Json::Object(*v),
                    entries == j@->Object_0,
                    i <= v@.len(),
                    entries.len() == v@.len(),
                    forall|k: int|
                        0 <= k < v@.len() ==> #[trigger] entries[k] == (v@[k].0@, v@[k].1@),
                    out@ == start + seq!['{'] + compact_entries(entries.take(i as int)),
                decreases v@.len() - i,
            {
                if i > 0 {
                    push_char(out, ',');
                }
                let q = json_stringify(v[i].0.as_str());
                push_str(out, q.as_str());
                push_char(out, ':');
                proof {
                    assert(decreases_to!(*j => *v));
                    assert(decreases_to!(*v => v@));
                    assert(decreases_to!(v@ => v@[i as int]));
                    assert(decreases_to!(v@[i as int] => v@[i as int].1));
                    assert(decreases_to!(j => v@[i as int].1));
                }
                push_compact(out, &v[i].1);
                proof {
                    assert(entries.take(i + 1).drop_last() =~= entries.take(i as int));
                    assert(entries.take(i + 1).last() == (v@[i as int].0@, v@[i as int].1@));
                    if i == 0 {
                        assert(entries.take(1) =~= seq![entries[0]]);
                    }
                    assert(out@ =~= start + seq!['{'] + compact_entries(entries.take(i + 1)));
                }
                i += 1;
            }
            push_char(out, '}');
            assert(entries.take(v@.len() as int) =~= entries);
            assert(out@ =~= start + compact(j@));
        },
    }
}

/// The compact text of a value, as `JsonValue::dump` writes it.
pub fn dump(j: &Json) -> (r: String)
    ensures
        r@ == compact(j@),
{
    let mut r = String::new();
    push_compact(&mut r, j);
    assert(r@ =~= compact(j@));
    r
}

/// The value of the first member named `key`, if any.
pub open spec fn entry_value(entries: Seq<(Seq<char>, JsonView)>, key: Seq<char>) -> Option<JsonView>
    decreases entries.len(),
{
    if entries.len() == 0 {
        None
    } else if entries[0].0 == key {
        Some(entries[0].1)
    } else {
        entry_value(entries.drop_first(), key)
    }
}

/// The member of an object named `key`, as indexing a `JsonValue` by a
/// `&str` gives it: null when the value is not an object or has no such member.
pub open spec fn member(v: JsonView, key: Seq<char>) -> JsonView {
    match v {
        JsonView::Object(entries) => match entry_value(entries, key) {
            Some(x) => x,
            None => JsonView::Null,
        },
        _ => JsonView::Null,
    }
}

/// The elements of an array; none for any other value.
pub open spec fn elements(v: JsonView) -> Seq<JsonView> {
    match v {
        JsonView::Array(items) => items,
        _ => Seq::empty(),
    }
}

/// The text of a string value; `None` for any other value.
pub open spec fn text_of(v: JsonView) -> Option<Seq<char>> {
    match v {
        JsonView::Text(s) => Some(s),
        _ => None,
    }
}

/// The text of a string value, or the compact text of any other value.
pub open spec fn text_or_compact(v: JsonView) -> Seq<char> {
    match v {
        JsonView::Text(s) => s,
        _ => compact(v),
    }
}

/// The member of `j` named `key`; `None` stands for null.
pub fn get_member<'a>(j: &'a Json, key: &str) -> (r: Option<&'a Json>)
    ensures
        r matches Some(x) ==> x@ == member(j@, key@),
        r is None ==> member(j@, key@) == JsonView::Null,
{
    match j {
        Json::Object(v) => {
            let ghost entries = j@->Object_0;
            let mut i: usize = 0;
            assert(entries.skip(0) =~= entries);
            while i < v.len()
                invariant
                    *j == Json::Object(*v),
                    entries == j@->Object_0,
                    i <= v@.len(),
                    entries.len() == v@.len(),
                    forall|k: int|
                        0 <= k < v@.len() ==> #[trigger] entries[k] == (v@[k].0@, v@[k].1@),
                    entry_value(entries, key@) == entry_value(entries.skip(i as int), key@),
                decreases v@.len() - i,
            {
                assert(entries.skip(i as int)[0] == entries[i as int]);
                assert(entries.skip(i as int).drop_first() =~= entries.skip(i + 1));
                if str_eq(v[i].0.as_str(), key) {
                    assert(entry_value(entries.skip(i as int), key@) == Some(entries[i as int].1));
                    assert(j@ == JsonView::Object(entries));
                    return Some(&v[i].1);
                }
                i += 1;
            }
            assert(entries.skip(i as int).len() == 0);
            None
        },
        _ => None,
    }
}

/// Compact texts of two runs of values, one after the other, are joined by
/// one `,`.
proof fn lemma_compact_items_join(i1: Seq<JsonView>, i2: Seq<JsonView>)
    requires
        i1.len() > 0,
        i2.len() > 0,
    ensures
        compact_items(i1 + i2) == compact_items(i1) + seq![','] + compact_items(i2),
    decreases i2.len(),
{
    let both = i1 + i2;
    if i2.len() == 1 {
        assert(both.drop_last() =~= i1);
        assert(both.last() == i2[0]);
    } else {
        assert(both.drop_last() =~= i1 + i2.drop_last());
        assert(both.last() == i2.last());
        lemma_compact_items_join(i1, i2.drop_last());
        assert(compact_items(both) =~= compact_items(i1) + seq![','] + compact_items(i2));
    }
}

/// Compact texts of two runs of members, one after the other, are joined by
/// one `,`.
proof fn lemma_compact_entries_join(e1: Seq<(Seq<char>, JsonView)>, e2: Seq<(Seq<char>, JsonView)>)
    requires
        e1.len() > 0,
        e2.len() > 0,
    ensures
        compact_entries(e1 + e2) == compact_entries(e1) + seq![','] + compact_entries(e2),
    decreases e2.len(),
{
    let both = e1 + e2;
    if e2.len() == 1 {
        assert(both.drop_last() =~= e1);
        assert(both.last() == e2[0]);
        assert(compact_entries(both) =~= compact_entries(e1) + seq![','] + compact_entries(e2));
    } else {
        assert(both.drop_last() =~= e1 + e2.drop_last());
        assert(both.last() == e2.last());
        lemma_compact_entries_join(e1, e2.drop_last());
        assert(compact_entries(both) =~= compact_entries(e1) + seq![','] + compact_entries(e2));
    }
}

/// How a value is written compactly: `null`, `true` and `false` for those
/// values, a number as its text, a string as a JSON string literal; an
/// array as `[`, its elements and `]`, an object as `{`, its members each
/// `key:value`, and `}`; where the elements or members of one array or
/// object are those of two others one after the other, its text is theirs
/// with the inner brackets dropped and one `,` between. So every element
/// and every member is written, once, in order.
pub proof fn law_compact_text(
    b: bool,
    n: Seq<char>,
    s: Seq<char>,
    x: JsonView,
    k: Seq<char>,
    i1: Seq<JsonView>,
    i2: Seq<JsonView>,
    e1: Seq<(Seq<char>, JsonView)>,
    e2: Seq<(Seq<char>, JsonView)>,
)
    ensures
        compact(JsonView::Null) == seq!['n', 'u', 'l', 'l'],
        compact(JsonView::Boolean(b)) == if b {
            seq!['t', 'r', 'u', 'e']
        } else {
            seq!['f', 'a', 'l', 's', 'e']
        },
        compact(JsonView::Number(n)) == n,
        compact(JsonView::Text(s)) == json_string_literal(s),
        compact(JsonView::Array(Seq::empty())) == seq!['[', ']'],
        compact(JsonView::Array(seq![x])) == seq!['['] + compact(x) + seq![']'],
        compact(JsonView::Object(Seq::empty())) == seq!['{', '}'],
        compact(JsonView::Object(seq![(k, x)])) == seq!['{'] + json_string_literal(k) + seq![':']
            + compact(x) + seq!['}'],
        i1.len() > 0 && i2.len() > 0 ==> compact(JsonView::Array(i1 + i2)) == compact(
            JsonView::Array(i1),
        ).drop_last() + seq![','] + compact(JsonView::Array(i2)).drop_first(),
        e1.len() > 0 && e2.len() > 0 ==> compact(JsonView::Object(e1 + e2)) == compact(
            JsonView::Object(e1),
        ).drop_last() + seq![','] + compact(JsonView::Object(e2)).drop_first(),
{
    reveal_strlit("null");
    reveal_strlit("true");
    reveal_strlit("false");
    assert("null"@ =~= seq!['n', 'u', 'l', 'l']);
    assert("true"@ =~= seq!['t', 'r', 'u', 'e']);
    assert("false"@ =~= seq!['f', 'a', 'l', 's', 'e']);
    assert(compact(JsonView::Array(Seq::empty())) =~= seq!['[', ']']);
    assert(compact(JsonView::Object(Seq::empty())) =~= seq!['{', '}']);
    assert(compact(JsonView::Object(seq![(k, x)])) =~= seq!['{'] + json_string_literal(k) + seq![
        ':',
    ] + compact(x) + seq!['}']);
    if i1.len() > 0 && i2.len() > 0 {
        lemma_compact_items_join(i1, i2);
        let a1 = compact(JsonView::Array(i1));
        let a2 = compact(JsonView::Array(i2));
        assert(a1.drop_last() =~= seq!['['] + compact_items(i1));
        assert(a2.drop_first() =~= compact_items(i2) + seq![']']);
        assert(compact(JsonView::Array(i1 + i2)) =~= a1.drop_last() + seq![','] + a2.drop_first());
    }
    if e1.len() > 0 && e2.len() > 0 {
        lemma_compact_entries_join(e1, e2);
        let o1 = compact(JsonView::Object(e1));
        let o2 = compact(JsonView::Object(e2));
        assert(o1.drop_last() =~= seq!['{'] + compact_entries(e1));
        assert(o2.drop_first() =~= compact_entries(e2) + seq!['}']);
        assert(compact(JsonView::Object(e1 + e2)) =~= o1.drop_last() + seq![','] + o2.drop_first());
    }
}

/// A parameter that is a JSON string is passed on as its text; any other
/// value (null, a boolean, a number, an array, an object) as its compact
/// JSON text, so `true` stays `true` and `null` stays `null`.
pub proof fn law_text_or_compact(v: JsonView)
    ensures
        v is Text ==> text_or_compact(v) == v->Text_0,
        !(v is Text) ==> text_or_compact(v) == compact(v),
        v == JsonView::Null ==> text_or_compact(v) == seq!['n', 'u', 'l', 'l'],
        v == JsonView::Boolean(true) ==> text_or_compact(v) == seq!['t', 'r', 'u', 'e'],
        v == JsonView::Boolean(false) ==> text_or_compact(v) == seq!['f', 'a', 'l', 's', 'e'],
        v is Number ==> text_or_compact(v) == v->Number_0,
{
    let none: Seq<char> = Seq::empty();
    let no_items: Seq<JsonView> = Seq::empty();
    let no_entries: Seq<(Seq<char>, JsonView)> = Seq::empty();
    let n = match v {
        JsonView::Number(t) => t,
        _ => none,
    };
    law_compact_text(false, n, none, v, none, no_items, no_items, no_entries, no_entries);
    law_compact_text(true, n, none, v, none, no_items, no_items, no_entries, no_entries);
}

} // verus!
