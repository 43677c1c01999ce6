//! JSON text: reading it into a document and writing a document out, through `serde_json`.
use crate::json::{
    distinct_keys, entry_trees, trees, Json, JsonNumber, JsonObject, JsonV,
};
use crate::text::is_blank;
use vstd::prelude::*;

verus! {

/// `serde_json::Value`, as its reader returns it and its writer takes it.
#[verifier::external_type_specification]
#[verifier::external_body]
pub struct ExValue(serde_json::Value);

/// What a `serde_json::Number` holds.
pub uninterp spec fn number_kind(n: serde_json::Number) -> JsonNumber;

/// The tree that a `serde_json::Value` holds.
pub uninterp spec fn value_tree(v: serde_json::Value) -> JsonV;

/// What `serde_json::from_str` reads from a text: the document, or the text of the error.
pub uninterp spec fn json_of_text(text: Seq<char>) -> Result<JsonV, Seq<char>>;

/// What `serde_json::from_slice` reads from bytes: the document, or the text of the error.
pub uninterp spec fn json_of_bytes(bytes: Seq<u8>) -> Result<JsonV, Seq<char>>;

/// The compact text that `serde_json` writes for a document.
pub uninterp spec fn json_text(t: JsonV) -> Seq<char>;

/// A signed integer as `serde_json` classes it.
pub open spec fn integer_kind(i: i64) -> JsonNumber {
    if i < 0 {
        JsonNumber::Negative(i)
    } else {
        JsonNumber::Unsigned(i as u64)
    }
}

/// The number as `serde_json` classes it.
pub open spec fn canonical_number(n: JsonNumber) -> JsonNumber {
    match n {
        JsonNumber::Unsigned(u) => JsonNumber::Unsigned(u),
        JsonNumber::Negative(i) => integer_kind(i),
        JsonNumber::Other(m) => number_kind(m),
    }
}

/// The document with every number as `serde_json` classes it.
pub open spec fn canonical(t: JsonV) -> JsonV
    decreases t,
{
    match t {
        JsonV::Number(n) => JsonV::Number(canonical_number(n)),
        JsonV::Array(items) => JsonV::Array(
            Seq::new(
                items.len(),
                |i: int|
                    if 0 <= i < items.len() {
                        canonical(items[i])
                    } else {
                        JsonV::Null
                    },
            ),
        ),
        JsonV::Object(fields) => JsonV::Object(
            Seq::new(
                fields.len(),
                |i: int|
                    if 0 <= i < fields.len() {
                        (fields[i].0, canonical(fields[i].1))
                    } else {
                        (Seq::empty(), JsonV::Null)
                    },
            ),
        ),
        _ => t,
    }
}

/// The text of a document, on one line.
pub open spec fn rendered(t: JsonV) -> Seq<char> {
    json_text(canonical(t))
}

/// How many arrays and objects enclose the deepest value, itself among them.
pub open spec fn nesting(t: JsonV) -> nat
    decreases t, 0nat,
{
    match t {
        JsonV::Array(items) => 1 + deepest(items, items.len()),
        JsonV::Object(fields) => 1 + deepest_field(fields, fields.len()),
        _ => 0,
    }
}

/// The deepest nesting among the first `n` items.
pub open spec fn deepest(items: Seq<JsonV>, n: nat) -> nat
    decreases items, n,
{
    if n == 0 || n > items.len() {
        0
    } else {
        let before = deepest(items, (n - 1) as nat);
        let here = nesting(items[n - 1]);
        if before > here {
            before
        } else {
            here
        }
    }
}

/// The deepest nesting among the first `n` fields.
pub open spec fn deepest_field(fields: Seq<(Seq<char>, JsonV)>, n: nat) -> nat
    decreases fields, n,
{
    if n == 0 || n > fields.len() {
        0
    } else {
        let before = deepest_field(fields, (n - 1) as nat);
        let here = nesting(fields[n - 1].1);
        if before > here {
            before
        } else {
            here
        }
    }
}

/// Every number is an integer of 64 bits.
pub open spec fn whole_numbers(t: JsonV) -> bool
    decreases t,
{
    match t {
        JsonV::Number(n) => match n {
            JsonNumber::Unsigned(_) => true,
            JsonNumber::Negative(i) => i < 0,
            JsonNumber::Other(_) => false,
        },
        JsonV::Array(items) => forall|i: int|
            0 <= i < items.len() ==> whole_numbers(#[trigger] items[i]),
        JsonV::Object(fields) => forall|i: int|
            0 <= i < fields.len() ==> whole_numbers((#[trigger] fields[i]).1),
        _ => true,
    }
}

/// The name by which the reader knows a raw value: an object whose first field has it is read
/// as what the text of that field holds.
pub const RAW_NAME: &'static str = "$serde_json::private::RawValue";

/// No object, at any level, would be read as a raw value.
pub open spec fn no_raw_values(t: JsonV) -> bool
    decreases t,
{
    match t {
        JsonV::Array(items) => forall|i: int|
            0 <= i < items.len() ==> no_raw_values(#[trigger] items[i]),
        JsonV::Object(fields) => {
            &&& fields.len() > 0 ==> fields[0].0 != RAW_NAME@
            &&& forall|i: int| 0 <= i < fields.len() ==> no_raw_values((#[trigger] fields[i]).1)
        },
        _ => true,
    }
}

/// A document that the reader takes back: not nested too deep for it, and without raw values.
pub open spec fn legible(t: JsonV) -> bool {
    nesting(t) <= 120 && no_raw_values(t)
}

/// A document that the reader takes back exactly: besides, it has no number but integers.
pub open spec fn readable(t: JsonV) -> bool {
    legible(t) && whole_numbers(t)
}

/// The two documents are the same, but that for a number that is no integer there may stand
/// another such number.
pub open spec fn alike(a: JsonV, b: JsonV) -> bool
    decreases a,
{
    match (a, b) {
        (JsonV::Number(x), JsonV::Number(y)) => x == y || (x is Other && y is Other),
        (JsonV::Array(xs), JsonV::Array(ys)) => {
            &&& xs.len() == ys.len()
            &&& forall|i: int| 0 <= i < xs.len() ==> alike(#[trigger] xs[i], ys[i])
        },
        (JsonV::Object(xs), JsonV::Object(ys)) => {
            &&& xs.len() == ys.len()
            &&& forall|i: int|
                0 <= i < xs.len() ==> (#[trigger] xs[i]).0 == ys[i].0 && alike(xs[i].1, ys[i].1)
        },
        _ => a == b,
    }
}

/// The two documents are the same, but that for a number there may stand another number.
pub open spec fn same_but_numbers(a: JsonV, b: JsonV) -> bool
    decreases a,
{
    match (a, b) {
        (JsonV::Number(_), JsonV::Number(_)) => true,
        (JsonV::Array(xs), JsonV::Array(ys)) => {
            &&& xs.len() == ys.len()
            &&& forall|i: int| 0 <= i < xs.len() ==> same_but_numbers(#[trigger] xs[i], ys[i])
        },
        (JsonV::Object(xs), JsonV::Object(ys)) => {
            &&& xs.len() == ys.len()
            &&& forall|i: int|
                0 <= i < xs.len() ==> (#[trigger] xs[i]).0 == ys[i].0 && same_but_numbers(
                    xs[i].1,
                    ys[i].1,
                )
        },
        _ => a == b,
    }
}

/// Integers are classed as they are.
proof fn lemma_whole_numbers_are_canonical(t: JsonV)
    requires
        whole_numbers(t),
    ensures
        canonical(t) == t,
    decreases t,
{
    match t {
        JsonV::Array(items) => {
            assert forall|i: int| 0 <= i < items.len() implies canonical(#[trigger] items[i])
                == items[i] by {
                assert(decreases_to!(t => t->Array_0));
                assert(decreases_to!(t->Array_0 => t->Array_0[i]));
                lemma_whole_numbers_are_canonical(items[i]);
            }
            assert(canonical(t)->Array_0 =~= items);
        },
        JsonV::Object(fields) => {
            assert forall|i: int| 0 <= i < fields.len() implies canonical(
                (#[trigger] fields[i]).1,
            ) == fields[i].1 by {
                assert(decreases_to!(t => t->Object_0));
                assert(decreases_to!(t->Object_0 => t->Object_0[i]));
                assert(decreases_to!(t->Object_0[i] => t->Object_0[i].1));
                lemma_whole_numbers_are_canonical(fields[i].1);
            }
            assert(canonical(t)->Object_0 =~= fields);
        },
        _ => {},
    }
}

/// A document of integers is like itself alone.
proof fn lemma_alike_whole_numbers(a: JsonV, b: JsonV)
    requires
        alike(a, b),
        whole_numbers(a),
    ensures
        a == b,
    decreases a,
{
    match (a, b) {
        (JsonV::Array(xs), JsonV::Array(ys)) => {
            assert forall|i: int| 0 <= i < xs.len() implies #[trigger] xs[i] == ys[i] by {
                assert(decreases_to!(a => a->Array_0));
                assert(decreases_to!(a->Array_0 => a->Array_0[i]));
                lemma_alike_whole_numbers(xs[i], ys[i]);
            }
            assert(xs =~= ys);
        },
        (JsonV::Object(xs), JsonV::Object(ys)) => {
            assert forall|i: int| 0 <= i < xs.len() implies #[trigger] xs[i] == ys[i] by {
                assert(decreases_to!(a => a->Object_0));
                assert(decreases_to!(a->Object_0 => a->Object_0[i]));
                assert(decreases_to!(a->Object_0[i] => a->Object_0[i].1));
                lemma_alike_whole_numbers(xs[i].1, ys[i].1);
            }
            assert(xs =~= ys);
        },
        _ => {},
    }
}

/// What is like the document with its numbers classed is the same as the document but for the
/// numbers.
proof fn lemma_alike_canonical(a: JsonV, b: JsonV)
    requires
        alike(canonical(a), b),
    ensures
        same_but_numbers(a, b),
    decreases a,
{
    let c = canonical(a);
    match (a, b) {
        (JsonV::Array(xs), JsonV::Array(ys)) => {
            assert forall|i: int| 0 <= i < xs.len() implies same_but_numbers(
                #[trigger] xs[i],
                ys[i],
            ) by {
                assert(decreases_to!(a => a->Array_0));
                assert(decreases_to!(a->Array_0 => a->Array_0[i]));
                assert(c->Array_0[i] == canonical(xs[i]));
                lemma_alike_canonical(xs[i], ys[i]);
            }
        },
        (JsonV::Object(xs), JsonV::Object(ys)) => {
            assert forall|i: int| 0 <= i < xs.len() implies (#[trigger] xs[i]).0 == ys[i].0
                && same_but_numbers(xs[i].1, ys[i].1) by {
                assert(decreases_to!(a => a->Object_0));
                assert(decreases_to!(a->Object_0 => a->Object_0[i]));
                assert(decreases_to!(a->Object_0[i] => a->Object_0[i].1));
                assert(c->Object_0[i] == (xs[i].0, canonical(xs[i].1)));
                lemma_alike_canonical(xs[i].1, ys[i].1);
            }
        },
        _ => {},
    }
}

proof fn lemma_canonical_nesting(t: JsonV)
    ensures
        nesting(canonical(t)) == nesting(t),
    decreases t, 0nat, 1nat,
{
    match t {
        JsonV::Array(items) => {
            assert(decreases_to!(t => t->Array_0));
            lemma_canonical_deepest(items, canonical(t)->Array_0, items.len());
        },
        JsonV::Object(fields) => {
            assert(decreases_to!(t => t->Object_0));
            lemma_canonical_deepest_field(fields, canonical(t)->Object_0, fields.len());
        },
        _ => {},
    }
}

proof fn lemma_canonical_deepest(items: Seq<JsonV>, classed: Seq<JsonV>, n: nat)
    requires
        n <= items.len(),
        classed.len() == items.len(),
        forall|i: int| 0 <= i < items.len() ==> #[trigger] classed[i] == canonical(items[i]),
    ensures
        deepest(classed, n) == deepest(items, n),
    decreases items, n, 0nat,
{
    if n > 0 {
        lemma_canonical_deepest(items, classed, (n - 1) as nat);
        assert(decreases_to!(items => items[n - 1]));
        lemma_canonical_nesting(items[n - 1]);
        assert(classed[n - 1] == canonical(items[n - 1]));
    }
}

proof fn lemma_canonical_deepest_field(
    fields: Seq<(Seq<char>, JsonV)>,
    classed: Seq<(Seq<char>, JsonV)>,
    n: nat,
)
    requires
        n <= fields.len(),
        classed.len() == fields.len(),
        forall|i: int|
            0 <= i < fields.len() ==> #[trigger] classed[i] == (fields[i].0, canonical(fields[i].1)),
    ensures
        deepest_field(classed, n) == deepest_field(fields, n),
    decreases fields, n, 0nat,
{
    if n > 0 {
        lemma_canonical_deepest_field(fields, classed, (n - 1) as nat);
        assert(decreases_to!(fields => fields[n - 1]));
        assert(decreases_to!(fields[n - 1] => fields[n - 1].1));
        lemma_canonical_nesting(fields[n - 1].1);
        assert(classed[n - 1] == (fields[n - 1].0, canonical(fields[n - 1].1)));
    }
}

proof fn lemma_canonical_has_no_raw_values(t: JsonV)
    requires
        no_raw_values(t),
    ensures
        no_raw_values(canonical(t)),
    decreases t,
{
    let c = canonical(t);
    match t {
        JsonV::Array(items) => {
            assert forall|i: int| 0 <= i < c->Array_0.len() implies no_raw_values(
                #[trigger] c->Array_0[i],
            ) by {
                assert(decreases_to!(t => t->Array_0));
                assert(decreases_to!(t->Array_0 => t->Array_0[i]));
                lemma_canonical_has_no_raw_values(items[i]);
            }
        },
        JsonV::Object(fields) => {
            assert forall|i: int| 0 <= i < c->Object_0.len() implies no_raw_values(
                (#[trigger] c->Object_0[i]).1,
            ) by {
                assert(decreases_to!(t => t->Object_0));
                assert(decreases_to!(t->Object_0 => t->Object_0[i]));
                assert(decreases_to!(t->Object_0[i] => t->Object_0[i].1));
                lemma_canonical_has_no_raw_values(fields[i].1);
            }
        },
        _ => {},
    }
}

/// One level of a `serde_json::Value`.
pub enum ValueParts {
    Null,
    Bool(bool),
    Number(serde_json::Number),
    Text(String),
    Array(Vec<serde_json::Value>),
    Object(Vec<(String, serde_json::Value)>),
}

/// The trees of a list of values.
pub open spec fn value_trees(items: Seq<serde_json::Value>) -> Seq<JsonV> {
    items.map_values(|v: serde_json::Value| value_tree(v))
}

/// The names and trees of a list of named values.
pub open spec fn field_trees(fields: Seq<(String, serde_json::Value)>) -> Seq<(Seq<char>, JsonV)> {
    fields.map_values(|f: (String, serde_json::Value)| (f.0@, value_tree(f.1)))
}

/// The tree whose top level is `p`.
pub open spec fn parts_tree(p: ValueParts) -> JsonV {
    match p {
        ValueParts::Null => JsonV::Null,
        ValueParts::Bool(b) => JsonV::Bool(b),
        ValueParts::Number(n) => JsonV::Number(number_kind(n)),
        ValueParts::Text(s) => JsonV::Text(s@),
        ValueParts::Array(items) => JsonV::Array(value_trees(items@)),
        ValueParts::Object(fields) => JsonV::Object(field_trees(fields@)),
    }
}

/// `serde_json::Number::as_u64` answers for a non-negative integer alone, and
/// `serde_json::Number::as_i64`, where that does not answer, for a negative one alone; any other
/// number is handed back as it is.
#[verifier::external_body]
fn class_of(n: serde_json::Number) -> (r: JsonNumber)
    ensures
        r == number_kind(n),
        r matches JsonNumber::Negative(i) ==> i < 0,
        r matches JsonNumber::Other(m) ==> m == n,
{
    match (n.as_u64(), n.as_i64()) {
        (Some(u), _) => JsonNumber::Unsigned(u),
        (None, Some(i)) => JsonNumber::Negative(i),
        (None, None) => JsonNumber::Other(n),
    }
}

/// `serde_json::Number::from` an unsigned integer gives the number that is this integer.
#[verifier::external_body]
fn integer(u: u64) -> (r: serde_json::Number)
    ensures
        number_kind(r) == JsonNumber::Unsigned(u),
{
    serde_json::Number::from(u)
}

/// `serde_json::Number::from` a signed integer gives the number that is this integer, among the
/// non-negative ones where it is one.
#[verifier::external_body]
fn signed_integer(i: i64) -> (r: serde_json::Number)
    ensures
        number_kind(r) == integer_kind(i),
{
    serde_json::Number::from(i)
}

/// The variants of `serde_json::Value`, told apart, with the fields of an object in the order
/// of `serde_json::Map::into_iter`. A map holds each name once.
#[verifier::external_body]
fn open_value(v: serde_json::Value) -> (r: ValueParts)
    ensures
        parts_tree(r) == value_tree(v),
        r matches ValueParts::Object(fields) ==> distinct_keys(field_trees(fields@)),
{
    match v {
        serde_json::Value::Null => ValueParts::Null,
        serde_json::Value::Bool(b) => ValueParts::Bool(b),
        serde_json::Value::Number(n) => ValueParts::Number(n),
        serde_json::Value::String(s) => ValueParts::Text(s),
        serde_json::Value::Array(items) => ValueParts::Array(items),
        serde_json::Value::Object(fields) => ValueParts::Object(fields.into_iter().collect()),
    }
}

/// The variants of `serde_json::Value`, built, the fields of an object by
/// `serde_json::Map::from_iter`, which keeps the order of distinct names.
#[verifier::external_body]
fn close_value(p: ValueParts) -> (r: serde_json::Value)
    requires
        p matches ValueParts::Object(fields) ==> distinct_keys(field_trees(fields@)),
    ensures
        value_tree(r) == parts_tree(p),
{
    match p {
        ValueParts::Null => serde_json::Value::Null,
        ValueParts::Bool(b) => serde_json::Value::Bool(b),
        ValueParts::Number(n) => serde_json::Value::Number(n),
        ValueParts::Text(s) => serde_json::Value::String(s),
        ValueParts::Array(items) => serde_json::Value::Array(items),
        ValueParts::Object(fields) => serde_json::Value::Object(fields.into_iter().collect()),
    }
}

/// `serde_json::from_str` reads one JSON document from a text, or fails with a message.
#[verifier::external_body]
fn read_text(text: &str) -> (r: Result<serde_json::Value, String>)
    ensures
        match r {
            Ok(v) => json_of_text(text@) == Ok::<JsonV, Seq<char>>(value_tree(v)),
            Err(e) => json_of_text(text@) == Err::<JsonV, Seq<char>>(e@),
        },
{
    serde_json::from_str(text).map_err(|e| e.to_string())
}

/// `serde_json::from_slice` reads one JSON document from bytes, or fails with a message.
#[verifier::external_body]
fn read_bytes(bytes: &[u8]) -> (r: Result<serde_json::Value, String>)
    ensures
        match r {
            Ok(v) => json_of_bytes(bytes@) == Ok::<JsonV, Seq<char>>(value_tree(v)),
            Err(e) => json_of_bytes(bytes@) == Err::<JsonV, Seq<char>>(e@),
        },
{
    serde_json::from_slice(bytes).map_err(|e| e.to_string())
}

/// `serde_json::Value::to_string` writes the compact text, in which a line feed occurs in
/// escaped form only, and which is never blank. `serde_json::from_str` reads that text back with
/// every name, text, integer, list and object as it was, as long as the document is not nested
/// deeper than the reader allows and no object begins with the name of a raw value. A number that
/// is no integer comes back as one that is none; it may be a neighbour of what was written.
#[verifier::external_body]
fn write_value(v: &serde_json::Value) -> (r: String)
    ensures
        r@ == json_text(value_tree(*v)),
        !r@.contains('\n'),
        !is_blank(r@),
        legible(value_tree(*v)) ==> json_of_text(r@) is Ok && alike(
            value_tree(*v),
            json_of_text(r@)->Ok_0,
        ),
{
    v.to_string()
}

impl JsonNumber {
    /// The number that a `serde_json::Number` holds.
    pub fn from_number(n: serde_json::Number) -> (r: JsonNumber)
        ensures
            r == number_kind(n),
    {
        class_of(n)
    }
}

/// The document that a value holds.
fn document(v: serde_json::Value) -> (r: Json)
    ensures
        r@ == value_tree(v),
    decreases value_tree(v),
{
    let ghost t = value_tree(v);
    match open_value(v) {
        ValueParts::Null => Json::Null,
        ValueParts::Bool(b) => Json::Bool(b),
        ValueParts::Number(n) => Json::Number(class_of(n)),
        ValueParts::Text(s) => Json::Text(s),
        ValueParts::Array(items) => {
            let mut out: Vec<Json> = Vec::new();
            for item in it: items
                invariant
                    t == value_tree(v),
                    t == JsonV::Array(value_trees(items@)),
                    it.seq() == items@,
                    out@.len() == it.index(),
                    forall|i: int|
                        0 <= i < out@.len() ==> (#[trigger] out@[i])@ == value_tree(items@[i]),
            {
                proof {
                    let k = it.index() as int;
                    assert(item == items@[k]);
                    assert(t->Array_0[k] == value_tree(item));
                    assert(decreases_to!(t => t->Array_0));
                    assert(decreases_to!(t->Array_0 => t->Array_0[k]));
                }
                out.push(document(item));
            }
            assert(trees(out@) =~= value_trees(items@));
            Json::array(out)
        },
        ValueParts::Object(fields) => {
            let mut out: Vec<(String, Json)> = Vec::new();
            for field in it: fields
                invariant
                    t == value_tree(v),
                    t == JsonV::Object(field_trees(fields@)),
                    it.seq() == fields@,
                    out@.len() == it.index(),
                    forall|i: int|
                        0 <= i < out@.len() ==> (#[trigger] out@[i]).0@ == fields@[i].0@
                            && out@[i].1@ == value_tree(fields@[i].1),
            {
                proof {
                    let k = it.index() as int;
                    assert(field == fields@[k]);
                    assert(t->Object_0[k].1 == value_tree(field.1));
                    assert(decreases_to!(t => t->Object_0));
                    assert(decreases_to!(t->Object_0 => t->Object_0[k]));
                    assert(decreases_to!(t->Object_0[k] => t->Object_0[k].1));
                }
                out.push((field.0, document(field.1)));
            }
            assert(entry_trees(out@) =~= field_trees(fields@));
            Json::Object(JsonObject::from_entries(out))
        },
    }
}

/// The value that holds a document.
fn value(j: &Json) -> (r: serde_json::Value)
    ensures
        value_tree(r) == canonical(j@),
    decreases j@,
{
    match j {
        Json::Null => close_value(ValueParts::Null),
        Json::Bool(b) => close_value(ValueParts::Bool(*b)),
        Json::Number(JsonNumber::Unsigned(u)) => close_value(ValueParts::Number(integer(*u))),
        Json::Number(JsonNumber::Negative(i)) => close_value(
            ValueParts::Number(signed_integer(*i)),
        ),
        Json::Number(JsonNumber::Other(n)) => close_value(ValueParts::Number(n.clone())),
        Json::Text(s) => close_value(ValueParts::Text(s.clone())),
        Json::Array(items) => {
            let mut out: Vec<serde_json::Value> = Vec::new();
            let mut i: usize = 0;
            while i < items.len()
                invariant
                    0 <= i <= items@.len(),
                    *j == Json::Array(*items),
                    out@.len() == i,
                    forall|k: int|
                        0 <= k < i ==> value_tree(#[trigger] out@[k]) == canonical(items@[k]@),
                decreases items.len() - i,
            {
                assert(j@->Array_0[i as int] == items@[i as int]@);
                assert(decreases_to!(j@ => j@->Array_0));
                assert(decreases_to!(j@->Array_0 => j@->Array_0[i as int]));
                out.push(value(&items[i]));
                i = i + 1;
            }
            assert(canonical(j@)->Array_0 =~= value_trees(out@));
            close_value(ValueParts::Array(out))
        },
        Json::Object(o) => {
            o.check_distinct();
            let mut out: Vec<(String, serde_json::Value)> = Vec::new();
            let mut i: usize = 0;
            while i < o.len()
                invariant
                    0 <= i <= o@.len(),
                    *j == Json::Object(*o),
                    out@.len() == i,
                    forall|k: int|
                        0 <= k < i ==> (#[trigger] out@[k]).0@ == o@[k].0 && value_tree(out@[k].1)
                            == canonical(o@[k].1),
                decreases o@.len() - i,
            {
                let name = o.key(i).to_owned();
                assert(decreases_to!(j@ => j@->Object_0));
                assert(decreases_to!(j@->Object_0 => j@->Object_0[i as int]));
                assert(decreases_to!(j@->Object_0[i as int] => j@->Object_0[i as int].1));
                out.push((name, value(o.value(i))));
                i = i + 1;
            }
            proof {
                assert(canonical(j@)->Object_0 =~= field_trees(out@));
                assert(distinct_keys(field_trees(out@)));
            }
            close_value(ValueParts::Object(out))
        },
    }
}

/// Reads a document from its text.
pub fn parse_json(text: &str) -> (r: Result<Json, String>)
    ensures
        match r {
            Ok(j) => json_of_text(text@) == Ok::<JsonV, Seq<char>>(j@),
            Err(e) => json_of_text(text@) == Err::<JsonV, Seq<char>>(e@),
        },
{
    match read_text(text) {
        Ok(v) => Ok(document(v)),
        Err(e) => Err(e),
    }
}

/// Reads a document from bytes.
pub fn parse_json_bytes(bytes: &[u8]) -> (r: Result<Json, String>)
    ensures
        match r {
            Ok(j) => json_of_bytes(bytes@) == Ok::<JsonV, Seq<char>>(j@),
            Err(e) => json_of_bytes(bytes@) == Err::<JsonV, Seq<char>>(e@),
        },
{
    match read_bytes(bytes) {
        Ok(v) => Ok(document(v)),
        Err(e) => Err(e),
    }
}

impl Json {
    /// The text of this document, on one line. It reads back as this document: exactly where all
    /// numbers are integers, else but for the fractions.
    pub fn to_text(&self) -> (r: String)
        ensures
            r@ == rendered(self@),
            !r@.contains('\n'),
            !is_blank(r@),
            legible(self@) ==> {
                &&& json_of_text(r@) is Ok
                &&& alike(canonical(self@), json_of_text(r@)->Ok_0)
                &&& same_but_numbers(self@, json_of_text(r@)->Ok_0)
            },
            readable(self@) ==> json_of_text(r@) == Ok::<JsonV, Seq<char>>(self@),
    {
        let r = write_value(&value(self));
        proof {
            if legible(self@) {
                lemma_canonical_nesting(self@);
                lemma_canonical_has_no_raw_values(self@);
                lemma_alike_canonical(self@, json_of_text(r@)->Ok_0);
                if readable(self@) {
                    lemma_whole_numbers_are_canonical(self@);
                    lemma_alike_whole_numbers(self@, json_of_text(r@)->Ok_0);
                }
            }
        }
        r
    }
}

/// What is written of a document is the document itself, but for how its numbers are classed:
/// every field and every item stands where it stood. A document of integers is written as it is.
pub proof fn law_writing_keeps_the_document(t: JsonV)
    ensures
        same_but_numbers(t, canonical(t)),
        rendered(t) == json_text(canonical(t)),
        whole_numbers(t) ==> rendered(t) == json_text(t),
    decreases t,
{
    if whole_numbers(t) {
        lemma_whole_numbers_are_canonical(t);
    }
    let c = canonical(t);
    match t {
        JsonV::Array(items) => {
            assert forall|i: int| 0 <= i < items.len() implies same_but_numbers(
                #[trigger] items[i],
                c->Array_0[i],
            ) by {
                assert(decreases_to!(t => t->Array_0));
                assert(decreases_to!(t->Array_0 => t->Array_0[i]));
                law_writing_keeps_the_document(items[i]);
            }
        },
        JsonV::Object(fields) => {
            assert forall|i: int| 0 <= i < fields.len() implies (#[trigger] fields[i]).0
                == c->Object_0[i].0 && same_but_numbers(fields[i].1, c->Object_0[i].1) by {
                assert(decreases_to!(t => t->Object_0));
                assert(decreases_to!(t->Object_0 => t->Object_0[i]));
                assert(decreases_to!(t->Object_0[i] => t->Object_0[i].1));
                law_writing_keeps_the_document(fields[i].1);
            }
        },
        _ => {},
    }
}

} // verus!
