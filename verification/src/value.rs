//! Runtime values.
use vstd::prelude::*;
use crate::dict::{entries_map, lemma_entry_in_map, lemma_key_has_entry, lemma_view, Dict};

verus! {

/// A double-precision number, held as its bit pattern.
#[derive(Clone, Copy, Debug)]
pub struct Float {
    pub bits: u64,
}

/// A dynamic value.
#[derive(Debug)]
pub enum Value {
    Null,
    Bool(bool),
    Int(i64),
    Float(Float),
    String(String),
    Bytes(Vec<u8>),
    List(Vec<Value>),
    Dict(Dict<Value>),
    Struct { name: String, fields: Dict<Value> },
}

/// What a value is, mathematically.
pub enum ValueView {
    Null,
    Bool(bool),
    Int(i64),
    Float(u64),
    String(Seq<char>),
    Bytes(Seq<u8>),
    List(Seq<ValueView>),
    Dict(Map<Seq<char>, ValueView>),
    Struct { name: Seq<char>, fields: Map<Seq<char>, ValueView> },
}

/// What the entries of a map of values are.
pub open spec fn value_views(m: Map<Seq<char>, Value>) -> Map<Seq<char>, ValueView> {
    m.map_values(|v: Value| value_view(v))
}

/// What a value is.
pub open spec fn value_view(v: Value) -> ValueView
    decreases v,
{
    match v {
        Value::Null => ValueView::Null,
        Value::Bool(b) => ValueView::Bool(b),
        Value::Int(i) => ValueView::Int(i),
        Value::Float(f) => ValueView::Float(f.bits),
        Value::String(s) => ValueView::String(s@),
        Value::Bytes(b) => ValueView::Bytes(b@),
        Value::List(l) => ValueView::List(list_view(l@)),
        Value::Dict(d) => ValueView::Dict(dict_view(d)),
        Value::Struct { name, fields } => ValueView::Struct { name: name@, fields: dict_view(fields) },
    }
}

/// What the items of a list are.
pub open spec fn list_view(s: Seq<Value>) -> Seq<ValueView>
    decreases s,
{
    if s.len() == 0 {
        Seq::empty()
    } else {
        list_view(s.drop_last()).push(value_view(s.last()))
    }
}

/// What the entries of a dictionary are.
pub closed spec fn dict_view(d: Dict<Value>) -> Map<Seq<char>, ValueView>
    decreases d,
{
    pairs_view(d.entries@)
}

spec fn pairs_view(s: Seq<(String, Value)>) -> Map<Seq<char>, ValueView>
    decreases s,
{
    if s.len() == 0 {
        Map::empty()
    } else {
        pairs_view(s.drop_last()).insert(s.last().0@, value_view(s.last().1))
    }
}

impl View for Value {
    type V = ValueView;

    open spec fn view(&self) -> ValueView {
        value_view(*self)
    }
}

proof fn lemma_pairs_view(s: Seq<(String, Value)>)
    ensures
        pairs_view(s) == value_views(entries_map(s)),
    decreases s.len(),
{
    if s.len() > 0 {
        lemma_pairs_view(s.drop_last());
    }
    assert(pairs_view(s) =~= value_views(entries_map(s)));
}

/// What the entries of a map are once one of them is set.
pub proof fn lemma_value_views_insert(m: Map<Seq<char>, Value>, k: Seq<char>, v: Value)
    ensures
        value_views(m.insert(k, v)) == value_views(m).insert(k, value_view(v)),
{
    assert(value_views(m.insert(k, v)) =~= value_views(m).insert(k, value_view(v)));
}

/// A dictionary of values stands for the map of what its values are.
pub broadcast proof fn lemma_dict_view(d: Dict<Value>)
    ensures
        #[trigger] dict_view(d) == value_views(d@),
{
    lemma_view(d);
    lemma_pairs_view(d.entries@);
}

/// The items of a list are what they are one by one.
pub proof fn lemma_list_view(s: Seq<Value>)
    ensures
        list_view(s).len() == s.len(),
        forall|i: int| 0 <= i < s.len() ==> #[trigger] list_view(s)[i] == value_view(s[i]),
    decreases s.len(),
{
    if s.len() > 0 {
        lemma_list_view(s.drop_last());
    }
}

/// Whether the bit pattern is that of something that is not a number.
pub open spec fn float_is_nan(bits: u64) -> bool {
    (bits as int) % 0x8000_0000_0000_0000 > 0x7ff0_0000_0000_0000
}

/// Equality of numbers by bit pattern: what is not a number equals nothing, and zero equals
/// negative zero.
pub open spec fn float_equal(a: u64, b: u64) -> bool {
    &&& !float_is_nan(a)
    &&& !float_is_nan(b)
    &&& a == b || ((a as int) % 0x8000_0000_0000_0000 == 0 && (b as int) % 0x8000_0000_0000_0000 == 0)
}

/// Equality of values: that of their contents, where the order of a dictionary's entries does
/// not count.
pub open spec fn values_equal(a: ValueView, b: ValueView) -> bool
    decreases a,
{
    match (a, b) {
        (ValueView::Null, ValueView::Null) => true,
        (ValueView::Bool(x), ValueView::Bool(y)) => x == y,
        (ValueView::Int(x), ValueView::Int(y)) => x == y,
        (ValueView::Float(x), ValueView::Float(y)) => float_equal(x, y),
        (ValueView::String(x), ValueView::String(y)) => x == y,
        (ValueView::Bytes(x), ValueView::Bytes(y)) => x == y,
        (ValueView::List(x), ValueView::List(y)) => x.len() == y.len() && forall|i: int|
            0 <= i < x.len() ==> values_equal(#[trigger] x[i], y[i]),
        (ValueView::Dict(x), ValueView::Dict(y)) => x.dom() == y.dom() && forall|k: Seq<char>|
            x.dom().contains(k) ==> values_equal(#[trigger] x[k], y[k]),
        (ValueView::Struct { name: n, fields: x }, ValueView::Struct { name: m, fields: y }) => n
            == m && x.dom() == y.dom() && forall|k: Seq<char>|
            x.dom().contains(k) ==> values_equal(#[trigger] x[k], y[k]),
        _ => false,
    }
}

/// What kind of value this is.
pub open spec fn kind_of(v: ValueView) -> Seq<char> {
    match v {
        ValueView::Null => "null"@,
        ValueView::Bool(_) => "bool"@,
        ValueView::Int(_) => "int"@,
        ValueView::Float(_) => "float"@,
        ValueView::String(_) => "string"@,
        ValueView::Bytes(_) => "bytes"@,
        ValueView::List(_) => "list"@,
        ValueView::Dict(_) => "map"@,
        ValueView::Struct { .. } => "struct"@,
    }
}

/// The truth value, of a boolean.
pub open spec fn bool_of(v: ValueView) -> Option<bool> {
    match v {
        ValueView::Bool(b) => Some(b),
        _ => None,
    }
}

impl Float {
    /// Whether this is not a number.
    pub fn is_nan(self) -> (r: bool)
        ensures
            r == float_is_nan(self.bits),
    {
        self.bits % 0x8000_0000_0000_0000 > 0x7ff0_0000_0000_0000
    }

    /// Equality of numbers: nothing equals what is not a number, and the two zeros are equal.
    pub fn same(self, other: Float) -> (r: bool)
        ensures
            r == float_equal(self.bits, other.bits),
    {
        !self.is_nan() && !other.is_nan() && (self.bits == other.bits || (self.bits
            % 0x8000_0000_0000_0000 == 0 && other.bits % 0x8000_0000_0000_0000 == 0))
    }
}

/// Whether two byte strings are equal.
fn same_bytes(a: &Vec<u8>, b: &Vec<u8>) -> (r: bool)
    ensures
        r == (a@ == b@),
{
    if a.len() != b.len() {
        return false;
    }
    let mut i: usize = 0;
    while i < a.len()
        invariant
            a@.len() == b@.len(),
            i <= a@.len(),
            forall|j: int| 0 <= j < i ==> a@[j] == b@[j],
        decreases a@.len() - i,
    {
        if a[i] != b[i] {
            return false;
        }
        i = i + 1;
    }
    assert(a@ =~= b@);
    true
}

/// Whether each entry of `a` has an equal one in `b`.
fn entries_within(a: &Dict<Value>, b: &Dict<Value>) -> (r: bool)
    ensures
        r == forall|k: Seq<char>| #[trigger]
            dict_view(*a).dom().contains(k) ==> dict_view(*b).dom().contains(k) && values_equal(
                dict_view(*a)[k],
                dict_view(*b)[k],
            ),
    decreases a, 0nat,
{
    broadcast use lemma_dict_view;

    proof {
        use_type_invariant(a);
        lemma_view(*a);
    }
    let mut i: usize = 0;
    while i < a.entries.len()
        invariant
            i <= a.entries@.len(),
            crate::dict::distinct_keys(a.entries@),
            a@ == entries_map(a.entries@),
            forall|j: int|
                0 <= j < i ==> dict_view(*b).dom().contains((#[trigger] a.entries@[j]).0@)
                    && values_equal(
                    value_view(a.entries@[j].1),
                    dict_view(*b)[a.entries@[j].0@],
                ),
        decreases a.entries@.len() - i,
    {
        let ghost k = a.entries@[i as int].0@;
        proof {
            lemma_dict_view(*a);
            lemma_dict_view(*b);
            lemma_entry_in_map(a.entries@, i as int);
            assert(dict_view(*a).dom().contains(k));
            assert(dict_view(*a)[k] == value_view(a.entries@[i as int].1));
        }
        match b.get(&a.entries[i].0) {
            Some(v) => {
                if !a.entries[i].1.same(v) {
                    return false;
                }
            },
            None => {
                return false;
            },
        }
        i = i + 1;
    }
    assert forall|k: Seq<char>| #[trigger] dict_view(*a).dom().contains(k) implies dict_view(
        *b,
    ).dom().contains(k) && values_equal(dict_view(*a)[k], dict_view(*b)[k]) by {
        lemma_key_has_entry(a.entries@, k);
        let j = choose|j: int| 0 <= j < a.entries@.len() && (#[trigger] a.entries@[j]).0@ == k;
        lemma_entry_in_map(a.entries@, j);
    }
    true
}

/// Whether each key of `a` is one of `b`.
fn keys_within(a: &Dict<Value>, b: &Dict<Value>) -> (r: bool)
    ensures
        r == dict_view(*a).dom().subset_of(dict_view(*b).dom()),
{
    broadcast use lemma_dict_view;

    proof {
        use_type_invariant(a);
        lemma_view(*a);
    }
    let mut i: usize = 0;
    while i < a.entries.len()
        invariant
            i <= a.entries@.len(),
            crate::dict::distinct_keys(a.entries@),
            a@ == entries_map(a.entries@),
            forall|j: int|
                0 <= j < i ==> dict_view(*b).dom().contains((#[trigger] a.entries@[j]).0@),
        decreases a.entries@.len() - i,
    {
        proof {
            lemma_dict_view(*a);
            lemma_dict_view(*b);
            lemma_entry_in_map(a.entries@, i as int);
            assert(dict_view(*a).dom().contains(a.entries@[i as int].0@));
        }
        if b.get(&a.entries[i].0).is_none() {
            return false;
        }
        i = i + 1;
    }
    assert forall|k: Seq<char>| #[trigger] dict_view(*a).dom().contains(k) implies dict_view(
        *b,
    ).dom().contains(k) by {
        lemma_key_has_entry(a.entries@, k);
    }
    true
}

/// Whether two dictionaries have the same keys, with equal values.
fn same_entries(a: &Dict<Value>, b: &Dict<Value>) -> (r: bool)
    ensures
        r == (dict_view(*a).dom() == dict_view(*b).dom() && forall|k: Seq<char>|
            dict_view(*a).dom().contains(k) ==> values_equal(
                #[trigger] dict_view(*a)[k],
                dict_view(*b)[k],
            )),
    decreases a, 1nat,
{
    let forward = entries_within(a, b);
    let backward = keys_within(b, a);
    proof {
        if forward && backward {
            assert(dict_view(*a).dom() =~= dict_view(*b).dom());
        }
    }
    forward && backward
}

/// Whether two lists have equal items at each place.
fn same_items(a: &Vec<Value>, b: &Vec<Value>) -> (r: bool)
    ensures
        r == values_equal(ValueView::List(list_view(a@)), ValueView::List(list_view(b@))),
    decreases a, 0nat,
{
    proof {
        lemma_list_view(a@);
        lemma_list_view(b@);
    }
    if a.len() != b.len() {
        return false;
    }
    let mut i: usize = 0;
    while i < a.len()
        invariant
            i <= a@.len(),
            a@.len() == b@.len(),
            forall|j: int|
                0 <= j < i ==> values_equal(#[trigger] list_view(a@)[j], list_view(b@)[j]),
        decreases a@.len() - i,
    {
        proof {
            lemma_list_view(a@);
            lemma_list_view(b@);
        }
        if !a[i].same(&b[i]) {
            assert(!values_equal(list_view(a@)[i as int], list_view(b@)[i as int]));
            return false;
        }
        i = i + 1;
    }
    true
}

impl Value {
    /// Equality of values.
    pub fn same(&self, other: &Value) -> (r: bool)
        ensures
            r == values_equal(self@, other@),
        decreases self, 0nat,
    {
        match (self, other) {
            (Value::Null, Value::Null) => true,
            (Value::Bool(x), Value::Bool(y)) => *x == *y,
            (Value::Int(x), Value::Int(y)) => *x == *y,
            (Value::Float(x), Value::Float(y)) => x.same(*y),
            (Value::String(x), Value::String(y)) => *x == *y,
            (Value::Bytes(x), Value::Bytes(y)) => same_bytes(x, y),
            (Value::List(x), Value::List(y)) => same_items(x, y),
            (Value::Dict(x), Value::Dict(y)) => same_entries(x, y),
            (
                Value::Struct { name: n, fields: x },
                Value::Struct { name: m, fields: y },
            ) => *n == *m && same_entries(x, y),
            _ => false,
        }
    }
}

/// Puts a value into a dictionary.
pub fn put(d: &mut Dict<Value>, key: String, value: Value)
    ensures
        dict_view(*final(d)) == dict_view(*old(d)).insert(key@, value@),
{
    proof {
        lemma_dict_view(*d);
        lemma_value_views_insert(d@, key@, value);
    }
    d.insert(key, value);
    proof {
        lemma_dict_view(*d);
    }
}

/// An empty dictionary of values.
pub fn no_entries() -> (r: Dict<Value>)
    ensures
        dict_view(r) == Map::<Seq<char>, ValueView>::empty(),
{
    let r: Dict<Value> = Dict::new();
    proof {
        lemma_dict_view(r);
        assert(dict_view(r) =~= Map::<Seq<char>, ValueView>::empty());
    }
    r
}

/// The value at a key of a dictionary.
pub fn look_up<'a>(d: &'a Dict<Value>, key: &String) -> (r: Option<&'a Value>)
    ensures
        match r {
            Some(v) => dict_view(*d).dom().contains(key@) && v@ == dict_view(*d)[key@],
            None => !dict_view(*d).dom().contains(key@),
        },
{
    proof {
        lemma_dict_view(*d);
    }
    d.get(key)
}

/// A copy of a list.
pub fn copy_list(l: &Vec<Value>) -> (r: Vec<Value>)
    ensures
        list_view(r@) == list_view(l@),
    decreases l, 0nat,
{
    let mut out: Vec<Value> = Vec::new();
    let mut i: usize = 0;
    while i < l.len()
        invariant
            i <= l@.len(),
            list_view(out@) == list_view(l@.take(i as int)),
        decreases l@.len() - i,
    {
        let ghost before = out@;
        out.push(l[i].copy());
        proof {
            assert(out@.drop_last() =~= before);
            assert(l@.take(i + 1).drop_last() =~= l@.take(i as int));
        }
        i = i + 1;
    }
    assert(l@.take(l@.len() as int) =~= l@);
    out
}

/// A copy of a dictionary.
pub fn copy_dict(d: &Dict<Value>) -> (r: Dict<Value>)
    ensures
        dict_view(r) == dict_view(*d),
    decreases d, 0nat,
{
    let mut out = no_entries();
    let mut i: usize = 0;
    while i < d.entries.len()
        invariant
            i <= d.entries@.len(),
            dict_view(out) == pairs_view(d.entries@.take(i as int)),
        decreases d.entries@.len() - i,
    {
        let copied = d.entries[i].1.copy();
        put(&mut out, d.entries[i].0.clone(), copied);
        assert(d.entries@.take(i + 1).drop_last() =~= d.entries@.take(i as int));
        i = i + 1;
    }
    assert(d.entries@.take(d.entries@.len() as int) =~= d.entries@);
    out
}

impl Value {
    /// A copy of a value.
    pub fn copy(&self) -> (r: Value)
        ensures
            r@ == self@,
        decreases self, 0nat,
    {
        match self {
            Value::Null => Value::Null,
            Value::Bool(b) => Value::Bool(*b),
            Value::Int(i) => Value::Int(*i),
            Value::Float(f) => Value::Float(*f),
            Value::String(s) => Value::String(s.clone()),
            Value::Bytes(b) => Value::Bytes(b.clone()),
            Value::List(l) => Value::List(copy_list(l)),
            Value::Dict(d) => Value::Dict(copy_dict(d)),
            Value::Struct { name, fields } => Value::Struct {
                name: name.clone(),
                fields: copy_dict(fields),
            },
        }
    }

    /// What kind of value this is.
    pub fn kind(&self) -> (r: &'static str)
        ensures
            r@ == kind_of(self@),
    {
        match self {
            Value::Null => "null",
            Value::Bool(_) => "bool",
            Value::Int(_) => "int",
            Value::Float(_) => "float",
            Value::String(_) => "string",
            Value::Bytes(_) => "bytes",
            Value::List(_) => "list",
            Value::Dict(_) => "map",
            Value::Struct { .. } => "struct",
        }
    }

    /// The truth value, of a boolean.
    pub fn as_bool(&self) -> (r: Option<bool>)
        ensures
            r == bool_of(self@),
    {
        match self {
            Value::Bool(b) => Some(*b),
            _ => None,
        }
    }
}

impl Clone for Value {
    fn clone(&self) -> (r: Self)
        ensures
            r@ == self@,
    {
        self.copy()
    }
}

impl PartialEq for Value {
    fn eq(&self, other: &Self) -> (r: bool) {
        self.same(other)
    }
}

impl vstd::std_specs::cmp::PartialEqSpecImpl for Value {
    open spec fn obeys_eq_spec() -> bool {
        true
    }

    open spec fn eq_spec(&self, other: &Self) -> bool {
        values_equal(self@, other@)
    }
}

/// Whether a value holds something that is not a number anywhere.
pub open spec fn holds_nan(v: ValueView) -> bool
    decreases v,
{
    match v {
        ValueView::Float(bits) => float_is_nan(bits),
        ValueView::List(l) => exists|i: int| 0 <= i < l.len() && holds_nan(#[trigger] l[i]),
        ValueView::Dict(m) => exists|k: Seq<char>|
            m.dom().contains(k) && holds_nan(#[trigger] m[k]),
        ValueView::Struct { name: _, fields } => exists|k: Seq<char>|
            fields.dom().contains(k) && holds_nan(#[trigger] fields[k]),
        _ => false,
    }
}

/// A value equals itself exactly where it holds nothing that is not a number.
pub proof fn equal_to_itself(v: ValueView)
    ensures
        values_equal(v, v) == !holds_nan(v),
    decreases v,
{
    match v {
        ValueView::List(l) => {
            assert forall|i: int| 0 <= i < l.len() implies values_equal(l[i], l[i]) == !holds_nan(
                #[trigger] l[i],
            ) by {
                equal_to_itself(l[i]);
            }
        },
        ValueView::Dict(m) => {
            assert forall|k: Seq<char>| m.dom().contains(k) implies values_equal(m[k], m[k])
                == !holds_nan(#[trigger] m[k]) by {
                equal_to_itself(m[k]);
            }
        },
        ValueView::Struct { name: _, fields } => {
            assert forall|k: Seq<char>| fields.dom().contains(k) implies values_equal(
                fields[k],
                fields[k],
            ) == !holds_nan(#[trigger] fields[k]) by {
                equal_to_itself(fields[k]);
            }
        },
        _ => {},
    }
}

/// Equality of values does not depend on their order.
pub proof fn equal_both_ways(a: ValueView, b: ValueView)
    ensures
        values_equal(a, b) == values_equal(b, a),
    decreases a,
{
    match (a, b) {
        (ValueView::List(x), ValueView::List(y)) => {
            if x.len() == y.len() {
                assert forall|i: int| 0 <= i < x.len() implies values_equal(#[trigger] x[i], y[i])
                    == values_equal(y[i], x[i]) by {
                    equal_both_ways(x[i], y[i]);
                }
                if values_equal(a, b) {
                    assert forall|i: int| 0 <= i < y.len() implies values_equal(
                        #[trigger] y[i],
                        x[i],
                    ) by {
                        assert(values_equal(x[i], y[i]));
                    }
                }
                if values_equal(b, a) {
                    assert forall|i: int| 0 <= i < x.len() implies values_equal(
                        #[trigger] x[i],
                        y[i],
                    ) by {
                        assert(values_equal(y[i], x[i]));
                    }
                }
            }
        },
        (ValueView::Dict(x), ValueView::Dict(y)) => {
            assert forall|k: Seq<char>| x.dom().contains(k) implies values_equal(
                #[trigger] x[k],
                y[k],
            ) == values_equal(y[k], x[k]) by {
                equal_both_ways(x[k], y[k]);
            }
            lemma_maps_both_ways(x, y);
        },
        (ValueView::Struct { name: _, fields: x }, ValueView::Struct { name: _, fields: y }) => {
            assert forall|k: Seq<char>| x.dom().contains(k) implies values_equal(
                #[trigger] x[k],
                y[k],
            ) == values_equal(y[k], x[k]) by {
                equal_both_ways(x[k], y[k]);
            }
            lemma_maps_both_ways(x, y);
        },
        _ => {},
    }
}

proof fn lemma_maps_both_ways(x: Map<Seq<char>, ValueView>, y: Map<Seq<char>, ValueView>)
    requires
        forall|k: Seq<char>|
            x.dom().contains(k) ==> values_equal(#[trigger] x[k], y[k]) == values_equal(y[k], x[k]),
    ensures
        x.dom() == y.dom() ==> ((forall|k: Seq<char>|
            x.dom().contains(k) ==> values_equal(#[trigger] x[k], y[k])) == (forall|k: Seq<char>|
            y.dom().contains(k) ==> values_equal(#[trigger] y[k], x[k]))),
{
    if x.dom() == y.dom() {
        if forall|k: Seq<char>| x.dom().contains(k) ==> values_equal(#[trigger] x[k], y[k]) {
            assert forall|k: Seq<char>| y.dom().contains(k) implies values_equal(
                #[trigger] y[k],
                x[k],
            ) by {
                assert(values_equal(x[k], y[k]));
            }
        }
        if forall|k: Seq<char>| y.dom().contains(k) ==> values_equal(#[trigger] y[k], x[k]) {
            assert forall|k: Seq<char>| x.dom().contains(k) implies values_equal(
                #[trigger] x[k],
                y[k],
            ) by {
                assert(values_equal(y[k], x[k]));
            }
        }
    }
}

} // verus!
