//! Laws of values and dictionaries.
use vstd::prelude::*;
use crate::dict::{entries_map, with_key};
use crate::json::{lemma_array_view, lemma_object_view, Json, JsonView};
use crate::laws::expressions::kind_named;
use crate::value::{
    bool_of, float_equal, float_is_nan, kind_of, lemma_dict_view, lemma_list_view, values_equal,
    Value, ValueView,
};

verus! {

/// A value stands for what it holds: a list for its items in order, and a dictionary or a struct
/// for its entries, each under its key.
pub proof fn values_stand_for_what_they_hold(v: Value)
    ensures
        match v {
            Value::Null => v@ is Null,
            Value::Bool(b) => v@ == ValueView::Bool(b),
            Value::Int(i) => v@ == ValueView::Int(i),
            Value::Float(f) => v@ == ValueView::Float(f.bits),
            Value::String(s) => v@ == ValueView::String(s@),
            Value::Bytes(b) => v@ == ValueView::Bytes(b@),
            Value::List(l) => v@ matches ValueView::List(items) && items.len() == l@.len()
                && forall|i: int| 0 <= i < l@.len() ==> #[trigger] items[i] == l@[i]@,
            Value::Dict(d) => v@ matches ValueView::Dict(m) && m.dom() == d@.dom() && forall|
                k: Seq<char>,
            |
                d@.dom().contains(k) ==> #[trigger] m[k] == d@[k]@,
            Value::Struct { name, fields } => v@ matches ValueView::Struct { name: n, fields: m }
                && n == name@ && m.dom() == fields@.dom() && forall|k: Seq<char>|
                fields@.dom().contains(k) ==> #[trigger] m[k] == fields@[k]@,
        },
{
    match v {
        Value::List(l) => lemma_list_view(l@),
        Value::Dict(d) => lemma_dict_view(d),
        Value::Struct { name: _, fields } => lemma_dict_view(fields),
        _ => {},
    }
}

/// A document stands for what it holds, likewise.
pub proof fn documents_stand_for_what_they_hold(j: Json)
    ensures
        match j {
            Json::Null => j@ is Null,
            Json::Bool(b) => j@ == JsonView::Bool(b),
            Json::Number { whole, natural, float } => j@ == (JsonView::Number {
                whole,
                natural,
                float: float.bits,
            }),
            Json::String(s) => j@ == JsonView::String(s@),
            Json::Array(a) => j@ matches JsonView::Array(items) && items.len() == a@.len()
                && forall|i: int| 0 <= i < a@.len() ==> #[trigger] items[i] == a@[i]@,
            Json::Object(d) => j@ matches JsonView::Object(m) && m.dom() == d@.dom() && forall|
                k: Seq<char>,
            |
                d@.dom().contains(k) ==> #[trigger] m[k] == d@[k]@,
        },
{
    match j {
        Json::Array(a) => lemma_array_view(a@),
        Json::Object(d) => lemma_object_view(d),
        _ => {},
    }
}

/// Only truth values have a truth value, and it is theirs.
pub proof fn truth_values_are_their_own(v: ValueView, b: bool)
    ensures
        bool_of(v) == Some(b) <==> v == ValueView::Bool(b),
{
}

/// Each value is of its kind.
pub proof fn values_have_kinds(v: ValueView)
    ensures
        kind_named(v, kind_of(v)),
{
}

/// What is not a number equals nothing, zero equals negative zero, and other numbers equal those of
/// the same bit pattern.
pub proof fn floats_are_equal_as_numbers(a: u64, b: u64)
    ensures
        float_is_nan(a) ==> !float_equal(a, b) && !float_equal(b, a),
        float_equal(0, 0x8000_0000_0000_0000) && float_equal(0x8000_0000_0000_0000, 0),
        !float_is_nan(a) && !float_is_nan(b) && a != 0 && a != 0x8000_0000_0000_0000 ==> (
        float_equal(a, b) <==> a == b),
        float_is_nan(a) <==> (0x7ff0_0000_0000_0000 < a < 0x8000_0000_0000_0000 || a
            > 0xfff0_0000_0000_0000),
{
}

/// Values that are equal to the same value are equal.
pub proof fn equality_carries_over(a: ValueView, b: ValueView, c: ValueView)
    requires
        values_equal(a, b),
        values_equal(b, c),
    ensures
        values_equal(a, c),
    decreases a,
{
    match (a, b, c) {
        (ValueView::List(x), ValueView::List(y), ValueView::List(z)) => {
            assert forall|i: int| 0 <= i < x.len() implies values_equal(#[trigger] x[i], z[i]) by {
                assert(values_equal(x[i], y[i]) && values_equal(y[i], z[i]));
                equality_carries_over(x[i], y[i], z[i]);
            }
        },
        (ValueView::Dict(x), ValueView::Dict(y), ValueView::Dict(z)) => {
            assert forall|k: Seq<char>| x.dom().contains(k) implies values_equal(
                #[trigger] x[k],
                z[k],
            ) by {
                assert(y.dom().contains(k));
                assert(values_equal(x[k], y[k]) && values_equal(y[k], z[k]));
                equality_carries_over(x[k], y[k], z[k]);
            }
        },
        (
            ValueView::Struct { name: _, fields: x },
            ValueView::Struct { name: _, fields: y },
            ValueView::Struct { name: _, fields: z },
        ) => {
            assert forall|k: Seq<char>| x.dom().contains(k) implies values_equal(
                #[trigger] x[k],
                z[k],
            ) by {
                assert(y.dom().contains(k));
                assert(values_equal(x[k], y[k]) && values_equal(y[k], z[k]));
                equality_carries_over(x[k], y[k], z[k]);
            }
        },
        _ => {},
    }
}

/// A key that is set stays where it is, and comes last where it is new; the others stay where they
/// are.
pub proof fn keys_keep_their_places(keys: Seq<Seq<char>>, key: Seq<char>)
    ensures
        with_key(keys, key).contains(key),
        with_key(keys, key).take(keys.len() as int) == keys,
        keys.contains(key) ==> with_key(keys, key).len() == keys.len(),
        !keys.contains(key) ==> with_key(keys, key).len() == keys.len() + 1 && with_key(
            keys,
            key,
        ).last() == key,
{
    let after = with_key(keys, key);
    assert(after.take(keys.len() as int) =~= keys);
    if !keys.contains(key) {
        assert(after[keys.len() as int] == key);
    }
}

/// The map of a list of entries has the keys of the entries, and under each what the last entry of
/// that key holds.
pub proof fn last_entries_win<V>(entries: Seq<(String, V)>, i: int)
    requires
        0 <= i < entries.len(),
        forall|j: int| i < j < entries.len() ==> (#[trigger] entries[j]).0@ != entries[i].0@,
    ensures
        entries_map(entries).dom().contains(entries[i].0@),
        entries_map(entries)[entries[i].0@] == entries[i].1,
    decreases entries.len(),
{
    if i < entries.len() - 1 {
        let shorter = entries.drop_last();
        assert(entries[entries.len() - 1].0@ != entries[i].0@);
        assert forall|j: int| i < j < shorter.len() implies (#[trigger] shorter[j]).0@
            != shorter[i].0@ by {
            assert(shorter[j] == entries[j]);
        }
        last_entries_win(shorter, i);
    }
}

} // verus!
