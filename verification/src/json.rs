//! The JSON-like value model: module arguments, argument specifications and
//! module results are all loosely typed documents of this shape.
use vstd::prelude::*;

verus! {

/// A JSON-like value.
///
/// Numbers mirror the three shapes a JSON number can take: a non-negative
/// integer (`Uint`), a negative integer (`Int`), or a floating-point number
/// (`Float`).  A floating-point number is carried as its decimal text, exactly
/// as a JSON emitter would print it, so that the library itself never computes
/// with floats; equality and rendering go by that text.
///
/// A `Dict` keeps its entries in insertion order.  Two dictionaries are equal
/// when their entries come in the same order; a reader that builds them from
/// JSON text in a canonical (sorted) order therefore gets JSON object
/// equality.
#[derive(Debug, PartialEq, Eq)]
pub enum JsonValue {
    Null,
    Bool(bool),
    Uint(u64),
    Int(i64),
    Float(String),
    Str(String),
    List(Vec<JsonValue>),
    Dict(Vec<(String, JsonValue)>),
}

/// The mathematical shape of a [`JsonValue`]: the same tree over `Seq`.
#[verifier::ext_equal]
pub enum JsonView {
    Null,
    Bool(bool),
    Uint(u64),
    Int(i64),
    Float(Seq<char>),
    Str(Seq<char>),
    List(Seq<JsonView>),
    Dict(Seq<(Seq<char>, JsonView)>),
}

pub open spec fn json_view(v: JsonValue) -> JsonView
    decreases v,
{
    match v {
        JsonValue::Null => JsonView::Null,
        JsonValue::Bool(b) => JsonView::Bool(b),
        JsonValue::Uint(n) => JsonView::Uint(n),
        JsonValue::Int(n) => JsonView::Int(n),
        JsonValue::Float(s) => JsonView::Float(s@),
        JsonValue::Str(s) => JsonView::Str(s@),
        JsonValue::List(items) => JsonView::List(json_view_seq(items@)),
        JsonValue::Dict(entries) => JsonView::Dict(json_view_entries(entries@)),
    }
}

pub open spec fn json_view_seq(items: Seq<JsonValue>) -> Seq<JsonView>
    decreases items,
{
    if items.len() == 0 {
        Seq::empty()
    } else {
        seq![json_view(items[0])] + json_view_seq(items.drop_first())
    }
}

pub open spec fn json_view_entries(entries: Seq<(String, JsonValue)>) -> Seq<(Seq<char>, JsonView)>
    decreases entries,
{
    if entries.len() == 0 {
        Seq::empty()
    } else {
        seq![(entries[0].0@, json_view(entries[0].1))] + json_view_entries(entries.drop_first())
    }
}

impl View for JsonValue {
    type V = JsonView;

    open spec fn view(&self) -> JsonView {
        json_view(*self)
    }
}

pub broadcast proof fn lemma_json_view_seq(items: Seq<JsonValue>)
    ensures
        (#[trigger] json_view_seq(items)).len() == items.len(),
        forall|i: int| 0 <= i < items.len() ==> json_view_seq(items)[i] == json_view(items[i]),
    decreases items,
{
    if items.len() > 0 {
        lemma_json_view_seq(items.drop_first());
    }
}

pub broadcast proof fn lemma_json_view_entries(entries: Seq<(String, JsonValue)>)
    ensures
        (#[trigger] json_view_entries(entries)).len() == entries.len(),
        forall|i: int| 0 <= i < entries.len() ==> json_view_entries(entries)[i] == (
        entries[i].0@,
        json_view(entries[i].1),
        ),
    decreases entries,
{
    if entries.len() > 0 {
        lemma_json_view_entries(entries.drop_first());
    }
}

impl JsonValue {
    /// A structural copy of the value.
    pub fn deep_copy(&self) -> (r: Self)
        ensures
            r@ == self@,
        decreases *self,
    {
        match self {
            JsonValue::Null => JsonValue::Null,
            JsonValue::Bool(b) => JsonValue::Bool(*b),
            JsonValue::Uint(n) => JsonValue::Uint(*n),
            JsonValue::Int(n) => JsonValue::Int(*n),
            JsonValue::Float(s) => JsonValue::Float(s.clone()),
            JsonValue::Str(s) => JsonValue::Str(s.clone()),
            JsonValue::List(items) => JsonValue::List(deep_copy_seq(items)),
            JsonValue::Dict(entries) => JsonValue::Dict(deep_copy_entries(entries)),
        }
    }
}

#[verifier::loop_isolation(false)]
fn deep_copy_seq(items: &Vec<JsonValue>) -> (r: Vec<JsonValue>)
    ensures
        json_view_seq(r@) == json_view_seq(items@),
    decreases *items,
{
    proof {
        lemma_json_view_seq(items@);
    }
    let mut out: Vec<JsonValue> = Vec::new();
    let mut i: usize = 0;
    while i < items.len()
        invariant
            i <= items@.len(),
            out@.len() == i as int,
            forall|j: int| 0 <= j < i as int ==> json_view(out@[j]) == json_view(items@[j]),
        decreases items@.len() - i,
    {
        out.push(items[i].deep_copy());
        i += 1;
    }
    proof {
        lemma_json_view_seq(out@);
        assert(json_view_seq(out@) =~= json_view_seq(items@));
    }
    out
}

#[verifier::loop_isolation(false)]
fn deep_copy_entries(entries: &Vec<(String, JsonValue)>) -> (r: Vec<(String, JsonValue)>)
    ensures
        json_view_entries(r@) == json_view_entries(entries@),
    decreases *entries,
{
    let mut out: Vec<(String, JsonValue)> = Vec::new();
    let mut i: usize = 0;
    while i < entries.len()
        invariant
            i <= entries@.len(),
            out@.len() == i as int,
            forall|j: int| 0 <= j < i as int ==> out@[j].0@ == entries@[j].0@ && json_view(
                out@[j].1,
            ) == json_view(entries@[j].1),
        decreases entries@.len() - i,
    {
        out.push((entries[i].0.clone(), entries[i].1.deep_copy()));
        i += 1;
    }
    proof {
        lemma_json_view_entries(out@);
        lemma_json_view_entries(entries@);
        assert(json_view_entries(out@) =~= json_view_entries(entries@));
    }
    out
}

impl Clone for JsonValue {
    fn clone(&self) -> (r: Self)
        ensures
            r@ == self@,
    {
        self.deep_copy()
    }
}

/// Deep equality of two values, deciding equality of their views.
pub fn json_eq(a: &JsonValue, b: &JsonValue) -> (r: bool)
    ensures
        r == (a@ == b@),
    decreases *a,
{
    match (a, b) {
        (JsonValue::Null, JsonValue::Null) => true,
        (JsonValue::Bool(x), JsonValue::Bool(y)) => *x == *y,
        (JsonValue::Uint(x), JsonValue::Uint(y)) => *x == *y,
        (JsonValue::Int(x), JsonValue::Int(y)) => *x == *y,
        (JsonValue::Float(x), JsonValue::Float(y)) => *x == *y,
        (JsonValue::Str(x), JsonValue::Str(y)) => *x == *y,
        (JsonValue::List(x), JsonValue::List(y)) => json_eq_seq(x, y),
        (JsonValue::Dict(x), JsonValue::Dict(y)) => json_eq_entries(x, y),
        _ => false,
    }
}

#[verifier::loop_isolation(false)]
fn json_eq_seq(x: &Vec<JsonValue>, y: &Vec<JsonValue>) -> (r: bool)
    ensures
        r == (json_view_seq(x@) == json_view_seq(y@)),
    decreases *x,
{
    proof {
        lemma_json_view_seq(x@);
        lemma_json_view_seq(y@);
    }

    if x.len() != y.len() {
        return false;
    }
    let mut i: usize = 0;
    while i < x.len()
        invariant
            i <= x@.len(),
            x@.len() == y@.len(),
            forall|j: int| 0 <= j < i as int ==> json_view(x@[j]) == json_view(y@[j]),
        decreases x@.len() - i,
    {
        if !json_eq(&x[i], &y[i]) {
            proof {
                assert(json_view_seq(x@)[i as int] == json_view(x@[i as int]));
                assert(json_view_seq(y@)[i as int] == json_view(y@[i as int]));
            }
            return false;
        }
        i += 1;
    }
    proof {
        assert(json_view_seq(x@) =~= json_view_seq(y@));
    }
    true
}

#[verifier::loop_isolation(false)]
fn json_eq_entries(x: &Vec<(String, JsonValue)>, y: &Vec<(String, JsonValue)>) -> (r: bool)
    ensures
        r == (json_view_entries(x@) == json_view_entries(y@)),
    decreases *x,
{
    proof {
        lemma_json_view_entries(x@);
        lemma_json_view_entries(y@);
    }

    if x.len() != y.len() {
        return false;
    }
    let mut i: usize = 0;
    while i < x.len()
        invariant
            i <= x@.len(),
            x@.len() == y@.len(),
            forall|j: int| 0 <= j < i as int ==> x@[j].0@ == y@[j].0@ && json_view(x@[j].1)
                == json_view(y@[j].1),
        decreases x@.len() - i,
    {
        let ghost xi = json_view_entries(x@)[i as int];
        let ghost yi = json_view_entries(y@)[i as int];
        if !(x[i].0 == y[i].0) {
            proof {
                assert(xi.0 == x@[i as int].0@ && yi.0 == y@[i as int].0@);
            }
            return false;
        }
        if !json_eq(&x[i].1, &y[i].1) {
            proof {
                assert(xi.1 == json_view(x@[i as int].1) && yi.1 == json_view(y@[i as int].1));
            }
            return false;
        }
        i += 1;
    }
    proof {
        assert(json_view_entries(x@) =~= json_view_entries(y@));
    }
    true
}

/// The value bound to the first entry with key `k`, if any.
pub open spec fn kv_lookup<X>(s: Seq<(Seq<char>, X)>, k: Seq<char>) -> Option<X>
    decreases s.len(),
{
    if s.len() == 0 {
        None
    } else if s[0].0 == k {
        Some(s[0].1)
    } else {
        kv_lookup(s.drop_first(), k)
    }
}

/// Whether some entry carries key `k`.
pub open spec fn kv_has<X>(s: Seq<(Seq<char>, X)>, k: Seq<char>) -> bool {
    exists|i: int| 0 <= i < s.len() && s[i].0 == k
}

pub broadcast proof fn lemma_kv_lookup_has<X>(s: Seq<(Seq<char>, X)>, k: Seq<char>)
    ensures
        (#[trigger] kv_lookup(s, k)) is Some <==> kv_has(s, k),
    decreases s.len(),
{
    if s.len() > 0 {
        lemma_kv_lookup_has(s.drop_first(), k);
        if s[0].0 != k && kv_has(s, k) {
            let i = choose|i: int| 0 <= i < s.len() && s[i].0 == k;
            assert(s.drop_first()[i - 1].0 == k);
        }
        if s[0].0 != k && kv_has(s.drop_first(), k) {
            let i = choose|i: int| 0 <= i < s.drop_first().len() && s.drop_first()[i].0 == k;
            assert(s[i + 1].0 == k);
        }
    }
}

/// Whether the dictionary entries hold the key `key`.
#[verifier::loop_isolation(false)]
pub fn entries_contain_key(entries: &Vec<(String, JsonValue)>, key: &String) -> (r: bool)
    ensures
        r == kv_has(json_view_entries(entries@), key@),
{
    proof {
        lemma_json_view_entries(entries@);
    }
    let mut i: usize = 0;
    while i < entries.len()
        invariant
            i <= entries@.len(),
            forall|j: int| 0 <= j < i as int ==> entries@[j].0@ != key@,
        decreases entries@.len() - i,
    {
        if entries[i].0 == *key {
            proof {
                assert(json_view_entries(entries@)[i as int].0 == key@);
            }
            return true;
        }
        i += 1;
    }
    proof {
        assert(forall|j: int|
            0 <= j < entries@.len() ==> json_view_entries(entries@)[j].0 == entries@[j].0@);
    }
    false
}

/// The value bound to the first dictionary entry with key `key`, if any.
pub fn entries_get<'a>(entries: &'a Vec<(String, JsonValue)>, key: &String) -> (r: Option<
    &'a JsonValue,
>)
    ensures
        match r {
            Some(v) => kv_lookup(json_view_entries(entries@), key@) == Some(v@),
            None => kv_lookup(json_view_entries(entries@), key@) is None,
        },
{
    proof {
        lemma_json_view_entries(entries@);
        assert(json_view_entries(entries@).subrange(0, entries@.len() as int) =~= json_view_entries(
            entries@,
        ));
    }
    entries_get_from(entries, key, 0)
}

fn entries_get_from<'a>(entries: &'a Vec<(String, JsonValue)>, key: &String, i: usize) -> (r:
    Option<&'a JsonValue>)
    requires
        i <= entries@.len(),
    ensures
        ({
            let tail = json_view_entries(entries@).subrange(
                i as int,
                entries@.len() as int,
            );
            match r {
                Some(v) => kv_lookup(tail, key@) == Some(v@),
                None => kv_lookup(tail, key@) is None,
            }
        }),
    decreases entries@.len() - i,
{
    broadcast use lemma_json_view_entries;

    let ghost full = json_view_entries(entries@);
    let ghost tail = full.subrange(i as int, entries@.len() as int);
    if i == entries.len() {
        None
    } else if entries[i].0 == *key {
        proof {
            assert(tail[0] == full[i as int]);
        }
        Some(&entries[i].1)
    } else {
        proof {
            assert(tail.drop_first() =~= full.subrange(i as int + 1, entries@.len() as int));
        }
        entries_get_from(entries, key, i + 1)
    }
}

} // verus!
