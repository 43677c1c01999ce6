//! JSON documents: the mathematical tree, the value that holds one, and access to its parts.
use crate::text::{opt_view, same};
use vstd::prelude::*;

verus! {

/// `serde_json::Number`, carried through for the numbers that are no integers of 64 bits.
#[verifier::external_type_specification]
#[verifier::external_body]
pub struct ExNumber(serde_json::Number);

/// A JSON number: an integer of 64 bits, or any other number as `serde_json` holds it.
#[derive(Debug, PartialEq)]
pub enum JsonNumber {
    /// A non-negative integer of 64 bits.
    Unsigned(u64),
    /// A negative integer of 64 bits.
    Negative(i64),
    /// A number that has a fraction or an exponent, or is over 64 bits.
    Other(serde_json::Number),
}

/// A JSON document as a mathematical tree. The fields of an object keep their order.
pub enum JsonV {
    Null,
    Bool(bool),
    Number(JsonNumber),
    Text(Seq<char>),
    Array(Seq<JsonV>),
    Object(Seq<(Seq<char>, JsonV)>),
}

/// The position of the first field named `k`, or the number of fields where there is none.
pub open spec fn key_at(fields: Seq<(Seq<char>, JsonV)>, k: Seq<char>) -> int
    decreases fields.len(),
{
    if fields.len() == 0 || fields[0].0 == k {
        0
    } else {
        1 + key_at(fields.skip(1), k)
    }
}

/// The value of the field `k`.
pub open spec fn lookup(fields: Seq<(Seq<char>, JsonV)>, k: Seq<char>) -> Option<JsonV> {
    if 0 <= key_at(fields, k) < fields.len() {
        Some(fields[key_at(fields, k)].1)
    } else {
        None
    }
}

/// The fields after `k` was set to `v`: in place where `k` was there, at the end where not.
pub open spec fn put(fields: Seq<(Seq<char>, JsonV)>, k: Seq<char>, v: JsonV) -> Seq<
    (Seq<char>, JsonV),
> {
    if 0 <= key_at(fields, k) < fields.len() {
        fields.update(key_at(fields, k), (k, v))
    } else {
        fields.push((k, v))
    }
}

/// The fields after `k` was taken out: the last field takes its place.
pub open spec fn taken(fields: Seq<(Seq<char>, JsonV)>, k: Seq<char>) -> Seq<(Seq<char>, JsonV)> {
    let at = key_at(fields, k);
    if 0 <= at < fields.len() {
        fields.update(at, fields.last()).drop_last()
    } else {
        fields
    }
}

/// No name occurs twice.
pub open spec fn distinct_keys(fields: Seq<(Seq<char>, JsonV)>) -> bool {
    forall|i: int, j: int|
        0 <= i < j < fields.len() ==> (#[trigger] fields[i]).0 != (#[trigger] fields[j]).0
}

/// The text of an optional value, where it is one.
pub open spec fn text_in(v: Option<JsonV>) -> Option<Seq<char>> {
    match v {
        Some(JsonV::Text(s)) => Some(s),
        _ => None,
    }
}

/// `v`, or `d` where there is none.
pub open spec fn or_text(v: Option<Seq<char>>, d: Seq<char>) -> Seq<char> {
    match v {
        Some(s) => s,
        None => d,
    }
}

impl JsonV {
    /// An object without fields.
    pub open spec fn object() -> JsonV {
        JsonV::Object(Seq::empty())
    }

    /// The object with the field `k` set to `v`.
    pub open spec fn with(self, k: Seq<char>, v: JsonV) -> JsonV {
        match self {
            JsonV::Object(fields) => JsonV::Object(put(fields, k, v)),
            _ => self,
        }
    }

    /// The field `k`, for an object that has it.
    pub open spec fn get(self, k: Seq<char>) -> Option<JsonV> {
        match self {
            JsonV::Object(fields) => lookup(fields, k),
            _ => None,
        }
    }

    /// The field `b` of the field `a`.
    pub open spec fn get2(self, a: Seq<char>, b: Seq<char>) -> Option<JsonV> {
        match self.get(a) {
            Some(v) => v.get(b),
            None => None,
        }
    }

    /// The text of the field `k`, where it is one.
    pub open spec fn text_at(self, k: Seq<char>) -> Option<Seq<char>> {
        text_in(self.get(k))
    }

    /// The text of the field `k`, or `d`.
    pub open spec fn text_or(self, k: Seq<char>, d: Seq<char>) -> Seq<char> {
        or_text(self.text_at(k), d)
    }

    /// The items of the field `k`, none where it is no array.
    pub open spec fn items_at(self, k: Seq<char>) -> Seq<JsonV> {
        match self.get(k) {
            Some(JsonV::Array(items)) => items,
            _ => Seq::empty(),
        }
    }
}

/// A JSON document.
#[derive(Debug, PartialEq)]
pub enum Json {
    Null,
    Bool(bool),
    Number(JsonNumber),
    Text(String),
    Array(Vec<Json>),
    Object(JsonObject),
}

/// The fields of a JSON object in order, each name once.
#[derive(Debug, PartialEq)]
pub struct JsonObject {
    entries: Vec<(String, Json)>,
}

impl Json {
    /// The tree that this document is.
    pub open spec fn tree(self) -> JsonV
        decreases self,
    {
        match self {
            Json::Null => JsonV::Null,
            Json::Bool(b) => JsonV::Bool(b),
            Json::Number(n) => JsonV::Number(n),
            Json::Text(s) => JsonV::Text(s@),
            Json::Array(a) => JsonV::Array(
                Seq::new(
                    a@.len(),
                    |i: int|
                        if 0 <= i < a@.len() {
                            a@[i].tree()
                        } else {
                            JsonV::Null
                        },
                ),
            ),
            Json::Object(o) => JsonV::Object(o.fields()),
        }
    }
}

impl JsonObject {
    /// The names and values of the fields.
    pub closed spec fn fields(self) -> Seq<(Seq<char>, JsonV)>
        decreases self,
    {
        Seq::new(
            self.entries@.len(),
            |i: int|
                if 0 <= i < self.entries@.len() {
                    (self.entries@[i].0@, self.entries@[i].1.tree())
                } else {
                    (Seq::empty(), JsonV::Null)
                },
        )
    }

    #[verifier::type_invariant]
    spec fn wf(self) -> bool {
        distinct_keys(self.fields())
    }
}

impl View for Json {
    type V = JsonV;

    open spec fn view(&self) -> JsonV {
        self.tree()
    }
}

impl View for JsonObject {
    type V = Seq<(Seq<char>, JsonV)>;

    open spec fn view(&self) -> Seq<(Seq<char>, JsonV)> {
        self.fields()
    }
}

/// The trees of a list of documents.
pub open spec fn trees(items: Seq<Json>) -> Seq<JsonV> {
    items.map_values(|j: Json| j@)
}

/// The tree of an optional document.
pub open spec fn opt_tree(v: Option<&Json>) -> Option<JsonV> {
    match v {
        Some(j) => Some(j@),
        None => None,
    }
}

/// The field `k` of a document that may be missing.
pub open spec fn field(v: Option<JsonV>, k: Seq<char>) -> Option<JsonV> {
    match v {
        Some(v) => v.get(k),
        None => None,
    }
}

/// `key_at` is the first position of the name.
pub proof fn lemma_key_at(fields: Seq<(Seq<char>, JsonV)>, k: Seq<char>)
    ensures
        0 <= key_at(fields, k) <= fields.len(),
        key_at(fields, k) < fields.len() ==> fields[key_at(fields, k)].0 == k,
        forall|j: int| 0 <= j < key_at(fields, k) ==> (#[trigger] fields[j]).0 != k,
    decreases fields.len(),
{
    if fields.len() > 0 && fields[0].0 != k {
        let rest = fields.skip(1);
        lemma_key_at(rest, k);
        assert forall|j: int| 0 <= j < key_at(fields, k) implies (#[trigger] fields[j]).0 != k by {
            if j > 0 {
                assert(fields[j] == rest[j - 1]);
            }
        }
    }
}

/// A position before which the name does not occur, and where it occurs or the fields end,
/// is `key_at`.
pub proof fn lemma_key_at_unique(fields: Seq<(Seq<char>, JsonV)>, k: Seq<char>, at: int)
    requires
        0 <= at <= fields.len(),
        at < fields.len() ==> fields[at].0 == k,
        forall|j: int| 0 <= j < at ==> (#[trigger] fields[j]).0 != k,
    ensures
        key_at(fields, k) == at,
{
    lemma_key_at(fields, k);
    let f = key_at(fields, k);
    if f < at {
        assert(fields[f].0 != k);
    }
    if at < f {
        assert(fields[at].0 != k);
    }
}

/// Setting a field makes it readable and leaves every other field as it was.
pub proof fn law_put_then_get(fields: Seq<(Seq<char>, JsonV)>, k: Seq<char>, v: JsonV, q: Seq<char>)
    ensures
        lookup(put(fields, k, v), q) == (if q == k {
            Some(v)
        } else {
            lookup(fields, q)
        }),
{
    lemma_key_at(fields, k);
    lemma_key_at(fields, q);
    let new = put(fields, k, v);
    let at = key_at(fields, q);
    if q == k {
        lemma_key_at_unique(new, q, at);
    } else if at < fields.len() {
        assert(new[at] == fields[at]);
        lemma_key_at_unique(new, q, at);
    } else {
        lemma_key_at_unique(new, q, new.len() as int);
    }
}

/// Setting a field keeps the names distinct.
pub proof fn law_put_keeps_distinct(fields: Seq<(Seq<char>, JsonV)>, k: Seq<char>, v: JsonV)
    requires
        distinct_keys(fields),
    ensures
        distinct_keys(put(fields, k, v)),
{
    lemma_key_at(fields, k);
}

/// Taking a field out keeps the names distinct and removes that field alone.
pub proof fn law_taken(fields: Seq<(Seq<char>, JsonV)>, k: Seq<char>, q: Seq<char>)
    requires
        distinct_keys(fields),
    ensures
        distinct_keys(taken(fields, k)),
        lookup(taken(fields, k), q) == (if q == k {
            None
        } else {
            lookup(fields, q)
        }),
{
    lemma_key_at(fields, k);
    lemma_key_at(fields, q);
    let at = key_at(fields, k);
    let new = taken(fields, k);
    if at < fields.len() {
        let last = fields.len() - 1;
        assert forall|i: int, j: int| 0 <= i < j < new.len() implies (#[trigger] new[i]).0 != (
        #[trigger] new[j]).0 by {
            let a = if i == at { last } else { i };
            let b = if j == at { last } else { j };
            assert(fields[a].0 != fields[b].0) by {
                if a < b {
                    assert(fields[a].0 != fields[b].0);
                } else {
                    assert(fields[b].0 != fields[a].0);
                }
            }
        }
        let qa = key_at(fields, q);
        if q == k {
            assert forall|j: int| 0 <= j < new.len() implies (#[trigger] new[j]).0 != q by {
                let b = if j == at { last } else { j };
                if b < at {
                    assert(fields[b].0 != fields[at].0);
                } else {
                    assert(fields[at].0 != fields[b].0);
                }
            }
            lemma_key_at_unique(new, q, new.len() as int);
        } else if qa == fields.len() {
            assert forall|j: int| 0 <= j < new.len() implies (#[trigger] new[j]).0 != q by {
                let b = if j == at { last } else { j };
                assert(fields[b].0 != q);
            }
            lemma_key_at_unique(new, q, new.len() as int);
        } else {
            let pos = if qa == last { at } else { qa };
            assert(new[pos] == fields[qa]);
            assert forall|j: int| 0 <= j < pos implies (#[trigger] new[j]).0 != q by {
                let b = if j == at { last } else { j };
                if b < qa {
                    assert(fields[b].0 != fields[qa].0);
                } else {
                    assert(fields[qa].0 != fields[b].0);
                }
            }
            lemma_key_at_unique(new, q, pos);
        }
    } else {
        if q == k {
            lemma_key_at_unique(new, q, new.len() as int);
        }
    }
}

/// Setting a field of an object makes it readable and leaves every other field as it was.
pub proof fn law_with_then_get(v: JsonV, k: Seq<char>, x: JsonV, q: Seq<char>)
    requires
        v is Object,
    ensures
        v.with(k, x) is Object,
        v.with(k, x).get(q) == (if q == k {
            Some(x)
        } else {
            v.get(q)
        }),
{
    law_put_then_get(v->Object_0, k, x, q);
}

impl JsonObject {
    /// An object without fields.
    pub fn new() -> (r: JsonObject)
        ensures
            r@ == Seq::<(Seq<char>, JsonV)>::empty(),
    {
        let entries: Vec<(String, Json)> = Vec::new();
        let r = JsonObject { entries };
        assert(r@ =~= Seq::<(Seq<char>, JsonV)>::empty());
        r
    }

    /// The object with these fields, in this order.
    pub(crate) fn from_entries(entries: Vec<(String, Json)>) -> (r: JsonObject)
        requires
            distinct_keys(entry_trees(entries@)),
        ensures
            r@ == entry_trees(entries@),
    {
        proof {
            lemma_fields(entries@);
        }
        let r = JsonObject { entries };
        r
    }

    /// The number of fields.
    pub fn len(&self) -> (r: usize)
        ensures
            r == self@.len(),
    {
        self.entries.len()
    }

    /// The name of the field at `i`.
    pub fn key(&self, i: usize) -> (r: &str)
        requires
            i < self@.len(),
        ensures
            r@ == self@[i as int].0,
    {
        self.entries[i].0.as_str()
    }

    /// The value of the field at `i`.
    pub fn value(&self, i: usize) -> (r: &Json)
        requires
            i < self@.len(),
        ensures
            r@ == self@[i as int].1,
    {
        &self.entries[i].1
    }

    /// The names of an object are distinct.
    pub fn check_distinct(&self)
        ensures
            distinct_keys(self@),
    {
        proof {
            use_type_invariant(self);
        }
    }

    fn position(&self, k: &str) -> (r: usize)
        ensures
            r == key_at(self@, k@),
    {
        let mut i: usize = 0;
        while i < self.entries.len()
            invariant
                0 <= i <= self.entries@.len(),
                self.entries@.len() == self@.len(),
                forall|j: int| 0 <= j < i ==> (#[trigger] self@[j]).0 != k@,
            decreases self.entries.len() - i,
        {
            if same(self.entries[i].0.as_str(), k) {
                proof {
                    lemma_key_at_unique(self@, k@, i as int);
                }
                return i;
            }
            i = i + 1;
        }
        proof {
            lemma_key_at_unique(self@, k@, i as int);
        }
        i
    }

    /// The value of the field `k`.
    pub fn get(&self, k: &str) -> (r: Option<&Json>)
        ensures
            opt_tree(r) == lookup(self@, k@),
    {
        let i: usize = self.position(k);
        if i < self.entries.len() {
            Some(&self.entries[i].1)
        } else {
            None
        }
    }

    /// Sets the field `k`.
    pub fn put(self, k: &str, v: Json) -> (r: JsonObject)
        ensures
            r@ == put(self@, k@, v@),
    {
        proof {
            use_type_invariant(&self);
            law_put_keeps_distinct(self@, k@, v@);
            lemma_key_at(self@, k@);
        }
        let i: usize = self.position(k);
        let ghost before = self@;
        let mut entries = self.entries;
        if i < entries.len() {
            entries.set(i, (k.to_owned(), v));
        } else {
            entries.push((k.to_owned(), v));
        }
        proof {
            lemma_fields(entries@);
            assert(entry_trees(entries@) =~= put(before, k@, v@));
        }
        JsonObject { entries }
    }

    /// Takes the field `k` out, and says whether it was there.
    pub fn take(self, k: &str) -> (r: (JsonObject, bool))
        ensures
            r.0@ == taken(self@, k@),
            r.1 == lookup(self@, k@) is Some,
    {
        proof {
            use_type_invariant(&self);
            law_taken(self@, k@, k@);
            lemma_key_at(self@, k@);
        }
        let i: usize = self.position(k);
        let ghost before = self@;
        let mut entries = self.entries;
        if i < entries.len() {
            entries.swap_remove(i);
            proof {
                lemma_fields(entries@);
                assert(entry_trees(entries@) =~= taken(before, k@));
            }
            (JsonObject { entries }, true)
        } else {
            (JsonObject { entries }, false)
        }
    }
}

/// The names and trees of a list of entries.
pub open spec fn entry_trees(entries: Seq<(String, Json)>) -> Seq<(Seq<char>, JsonV)> {
    entries.map_values(|e: (String, Json)| (e.0@, e.1@))
}

proof fn lemma_fields(entries: Seq<(String, Json)>)
    ensures
        forall|o: JsonObject| o.entries@ == entries ==> #[trigger] o.fields() == entry_trees(entries),
{
    assert forall|o: JsonObject| o.entries@ == entries implies #[trigger] o.fields() == entry_trees(
        entries,
    ) by {
        assert(o.fields() =~= entry_trees(entries));
    }
}

impl Json {
    /// A text value.
    pub fn text(s: &str) -> (r: Json)
        ensures
            r@ == JsonV::Text(s@),
    {
        Json::Text(s.to_owned())
    }

    /// An array value.
    pub fn array(items: Vec<Json>) -> (r: Json)
        ensures
            r@ == JsonV::Array(trees(items@)),
    {
        let r = Json::Array(items);
        assert(r@->Array_0 =~= trees(items@));
        r
    }

    /// An object without fields.
    pub fn object() -> (r: Json)
        ensures
            r@ == JsonV::object(),
    {
        Json::Object(JsonObject::new())
    }

    /// The object with the field `k` set to `v`; a value that is no object stays as it is.
    pub fn with(self, k: &str, v: Json) -> (r: Json)
        ensures
            r@ == self@.with(k@, v@),
    {
        match self {
            Json::Object(o) => Json::Object(o.put(k, v)),
            other => other,
        }
    }

    /// The field `k`, for an object that has it.
    pub fn get(&self, k: &str) -> (r: Option<&Json>)
        ensures
            opt_tree(r) == self@.get(k@),
    {
        match self {
            Json::Object(o) => o.get(k),
            _ => None,
        }
    }

    /// The field `b` of the field `a`.
    pub fn get2(&self, a: &str, b: &str) -> (r: Option<&Json>)
        ensures
            opt_tree(r) == self@.get2(a@, b@),
    {
        match self.get(a) {
            Some(v) => v.get(b),
            None => None,
        }
    }

    /// The text of this value, where it is one.
    pub fn as_str(&self) -> (r: Option<&str>)
        ensures
            opt_view(r) == text_in(Some(self@)),
    {
        match self {
            Json::Text(s) => Some(s.as_str()),
            _ => None,
        }
    }

    /// The items of this value, where it is an array.
    pub fn as_array(&self) -> (r: Option<&Vec<Json>>)
        ensures
            match r {
                Some(items) => self@ == JsonV::Array(trees(items@)),
                None => !(self@ is Array),
            },
    {
        match self {
            Json::Array(items) => {
                assert(self@->Array_0 =~= trees(items@));
                Some(items)
            },
            _ => None,
        }
    }

    /// The non-negative integer that this value is.
    pub fn as_u64(&self) -> (r: Option<u64>)
        ensures
            r == unsigned_in(Some(self@)),
    {
        match self {
            Json::Number(JsonNumber::Unsigned(n)) => Some(*n),
            _ => None,
        }
    }

    /// The truth value that this value is.
    pub fn as_bool(&self) -> (r: Option<bool>)
        ensures
            r == bool_in(Some(self@)),
    {
        match self {
            Json::Bool(b) => Some(*b),
            _ => None,
        }
    }

    pub fn is_null(&self) -> (r: bool)
        ensures
            r == (self@ is Null),
    {
        match self {
            Json::Null => true,
            _ => false,
        }
    }

    pub fn is_object(&self) -> (r: bool)
        ensures
            r == (self@ is Object),
    {
        match self {
            Json::Object(_) => true,
            _ => false,
        }
    }

    /// The text of the field `k`, where it is one.
    pub fn text_at(&self, k: &str) -> (r: Option<&str>)
        ensures
            opt_view(r) == self@.text_at(k@),
    {
        match self.get(k) {
            Some(v) => v.as_str(),
            None => None,
        }
    }

    /// The text of the field `k`, or `d`.
    pub fn text_or<'a>(&'a self, k: &str, d: &'a str) -> (r: &'a str)
        ensures
            r@ == self@.text_or(k@, d@),
    {
        match self.text_at(k) {
            Some(s) => s,
            None => d,
        }
    }

    /// The items of the field `k`, where it is an array.
    pub fn array_at(&self, k: &str) -> (r: Option<&Vec<Json>>)
        ensures
            match r {
                Some(items) => self@.get(k@) == Some(JsonV::Array(trees(items@))),
                None => !(self@.get(k@) matches Some(JsonV::Array(_))),
            },
    {
        match self.get(k) {
            Some(v) => v.as_array(),
            None => None,
        }
    }
}

/// The field `k` of a document that may be missing.
pub fn field_of<'a>(v: Option<&'a Json>, k: &str) -> (r: Option<&'a Json>)
    ensures
        opt_tree(r) == field(opt_tree(v), k@),
{
    match v {
        Some(v) => v.get(k),
        None => None,
    }
}

/// The non-negative integer that an optional value is.
pub open spec fn unsigned_in(v: Option<JsonV>) -> Option<u64> {
    match v {
        Some(JsonV::Number(JsonNumber::Unsigned(n))) => Some(n),
        _ => None,
    }
}

/// The truth value that an optional value is.
pub open spec fn bool_in(v: Option<JsonV>) -> Option<bool> {
    match v {
        Some(JsonV::Bool(b)) => Some(b),
        _ => None,
    }
}

/// `Number::clone` copies the number.
pub assume_specification[ <serde_json::Number as Clone>::clone ](n: &serde_json::Number) -> (r:
    serde_json::Number)
    ensures
        r == *n,
;

impl Clone for JsonNumber {
    fn clone(&self) -> (r: Self)
        ensures
            r == *self,
    {
        match self {
            JsonNumber::Unsigned(n) => JsonNumber::Unsigned(*n),
            JsonNumber::Negative(n) => JsonNumber::Negative(*n),
            JsonNumber::Other(n) => JsonNumber::Other(n.clone()),
        }
    }
}

impl Clone for Json {
    fn clone(&self) -> (r: Self)
        ensures
            r@ == self@,
        decreases self,
    {
        match self {
            Json::Null => Json::Null,
            Json::Bool(b) => Json::Bool(*b),
            Json::Number(n) => Json::Number(n.clone()),
            Json::Text(s) => Json::Text(s.clone()),
            Json::Array(items) => {
                let mut out: Vec<Json> = Vec::new();
                let mut i: usize = 0;
                while i < items.len()
                    invariant
                        0 <= i <= items@.len(),
                        *self == Json::Array(*items),
                        out@.len() == i,
                        forall|j: int| 0 <= j < i ==> (#[trigger] out@[j])@ == items@[j]@,
                    decreases items.len() - i,
                {
                    let item = &items[i];
                    assert(decreases_to!(*self => self->Array_0));
                    assert(decreases_to!(items => items@));
                    assert(decreases_to!(items@ => items@[i as int]));
                    out.push(item.clone());
                    i = i + 1;
                }
                assert(trees(out@) =~= trees(items@));
                assert(self@->Array_0 =~= trees(items@));
                Json::array(out)
            },
            Json::Object(o) => {
                proof {
                    use_type_invariant(o);
                }
                let mut out: Vec<(String, Json)> = Vec::new();
                let mut i: usize = 0;
                while i < o.entries.len()
                    invariant
                        0 <= i <= o.entries@.len(),
                        *self == Json::Object(*o),
                        out@.len() == i,
                        forall|j: int|
                            0 <= j < i ==> (#[trigger] out@[j]).0@ == o.entries@[j].0@ && out@[j].1@
                                == o.entries@[j].1@,
                    decreases o.entries.len() - i,
                {
                    let name = o.entries[i].0.clone();
                    let item = &o.entries[i].1;
                    assert(decreases_to!(*self => self->Object_0));
                    assert(decreases_to!(o => o.entries));
                    assert(decreases_to!(o.entries => o.entries@));
                    assert(decreases_to!(o.entries@ => o.entries@[i as int]));
                    assert(decreases_to!(o.entries@[i as int] => o.entries@[i as int].1));
                    out.push((name, item.clone()));
                    i = i + 1;
                }
                proof {
                    assert(entry_trees(out@) =~= o@);
                }
                Json::Object(JsonObject::from_entries(out))
            },
        }
    }
}

/// Setting a field of an object makes it readable and leaves every other field as it was.
pub proof fn lemma_with_gets(v: JsonV, k: Seq<char>, x: JsonV)
    requires
        v is Object,
    ensures
        v.with(k, x) is Object,
        v.with(k, x).get(k) == Some(x),
        forall|q: Seq<char>| q != k ==> #[trigger] v.with(k, x).get(q) == v.get(q),
{
    law_with_then_get(v, k, x, k);
    assert forall|q: Seq<char>| q != k implies #[trigger] v.with(k, x).get(q) == v.get(q) by {
        law_with_then_get(v, k, x, q);
    }
}

/// What [`lemma_with_gets`] says, of every object and field.
pub proof fn lemma_with_gets_all()
    ensures
        forall|v: JsonV, k: Seq<char>, x: JsonV|
            v is Object ==> (#[trigger] v.with(k, x)) is Object && v.with(k, x).get(k) == Some(x),
        forall|v: JsonV, k: Seq<char>, x: JsonV, q: Seq<char>|
            v is Object && q != k ==> #[trigger] v.with(k, x).get(q) == v.get(q),
{
    assert forall|v: JsonV, k: Seq<char>, x: JsonV| v is Object implies (#[trigger] v.with(
        k,
        x,
    )) is Object && v.with(k, x).get(k) == Some(x) by {
        lemma_with_gets(v, k, x);
    }
    assert forall|v: JsonV, k: Seq<char>, x: JsonV, q: Seq<char>|
        v is Object && q != k implies #[trigger] v.with(k, x).get(q) == v.get(q) by {
        lemma_with_gets(v, k, x);
    }
}

} // verus!
