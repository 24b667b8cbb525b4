//! JSON values, and the text they are read from and written to.
//!
//! An object keeps its fields in a list. A lookup takes the first field of a
//! name, and storing a field replaces that one or appends.

use vstd::prelude::*;
use vstd::string::*;

use serde_json::Value;

use crate::text::{precedes, same};

verus! {

/// A JSON number. One that is no integer of 64 bits keeps its decimal text.
#[derive(Debug, PartialEq, Eq)]
pub enum Number {
    Unsigned(u64),
    Negative(i64),
    Decimal(String),
}

/// A JSON value.
#[derive(Debug, PartialEq, Eq)]
pub enum Json {
    Null,
    Bool(bool),
    Number(Number),
    Text(String),
    List(Vec<Json>),
    Object(Vec<(String, Json)>),
}

pub enum NumberView {
    Unsigned(u64),
    Negative(i64),
    Decimal(Seq<char>),
}

pub enum JsonView {
    Null,
    Bool(bool),
    Number(NumberView),
    Text(Seq<char>),
    List(Seq<JsonView>),
    Object(Seq<(Seq<char>, JsonView)>),
}

impl DeepView for Number {
    type V = NumberView;

    open spec fn deep_view(&self) -> NumberView {
        match *self {
            Number::Unsigned(n) => NumberView::Unsigned(n),
            Number::Negative(n) => NumberView::Negative(n),
            Number::Decimal(t) => NumberView::Decimal(t@),
        }
    }
}

/// The value that `j` stands for.
pub open spec fn json_view(j: Json) -> JsonView
    decreases j,
{
    match j {
        Json::Null => JsonView::Null,
        Json::Bool(b) => JsonView::Bool(b),
        Json::Number(n) => JsonView::Number(n.deep_view()),
        Json::Text(s) => JsonView::Text(s@),
        Json::List(v) => JsonView::List(
            Seq::new(
                v@.len(),
                |i: int|
                    if 0 <= i < v@.len() {
                        json_view(v@[i])
                    } else {
                        JsonView::Null
                    },
            ),
        ),
        Json::Object(v) => JsonView::Object(
            Seq::new(
                v@.len(),
                |i: int|
                    if 0 <= i < v@.len() {
                        (v@[i].0@, json_view(v@[i].1))
                    } else {
                        (Seq::empty(), JsonView::Null)
                    },
            ),
        ),
    }
}

impl DeepView for Json {
    type V = JsonView;

    open spec fn deep_view(&self) -> JsonView {
        json_view(*self)
    }
}

/// A list's view is the list of its elements' views.
pub broadcast proof fn lemma_list_view(v: Vec<Json>)
    ensures
        #[trigger] json_view(Json::List(v)) == JsonView::List(v.deep_view()),
{
    assert(json_view(Json::List(v))->List_0 =~= v.deep_view());
}

/// An object's view is the list of its fields' views.
pub broadcast proof fn lemma_object_view(v: Vec<(String, Json)>)
    ensures
        #[trigger] json_view(Json::Object(v)) == JsonView::Object(v.deep_view()),
{
    assert(json_view(Json::Object(v))->Object_0 =~= v.deep_view());
}

/// The value of the first field of name `key`.
pub open spec fn find(fields: Seq<(Seq<char>, JsonView)>, key: Seq<char>) -> Option<JsonView>
    decreases fields.len(),
{
    if fields.len() == 0 {
        None
    } else if fields[0].0 == key {
        Some(fields[0].1)
    } else {
        find(fields.drop_first(), key)
    }
}

/// The fields with `key` standing for `value`: in place of the first field of
/// that name, or at the end.
pub open spec fn put(
    fields: Seq<(Seq<char>, JsonView)>,
    key: Seq<char>,
    value: JsonView,
) -> Seq<(Seq<char>, JsonView)>
    decreases fields.len(),
{
    if fields.len() == 0 {
        seq![(key, value)]
    } else if fields[0].0 == key {
        fields.update(0, (key, value))
    } else {
        seq![fields[0]] + put(fields.drop_first(), key, value)
    }
}

/// Whether a field has another name.
pub open spec fn other_than(key: Seq<char>) -> spec_fn((Seq<char>, JsonView)) -> bool {
    |f: (Seq<char>, JsonView)| f.0 != key
}

/// The fields without any of name `key`.
pub open spec fn without(fields: Seq<(Seq<char>, JsonView)>, key: Seq<char>) -> Seq<
    (Seq<char>, JsonView),
> {
    fields.filter(other_than(key))
}

impl JsonView {
    /// The field `key` of an object.
    pub open spec fn get(self, key: Seq<char>) -> Option<JsonView> {
        match self {
            JsonView::Object(fields) => find(fields, key),
            _ => None,
        }
    }

    pub open spec fn as_str(self) -> Option<Seq<char>> {
        match self {
            JsonView::Text(s) => Some(s),
            _ => None,
        }
    }

    pub open spec fn as_u64(self) -> Option<u64> {
        match self {
            JsonView::Number(NumberView::Unsigned(n)) => Some(n),
            _ => None,
        }
    }

    pub open spec fn as_bool(self) -> Option<bool> {
        match self {
            JsonView::Bool(b) => Some(b),
            _ => None,
        }
    }

    pub open spec fn as_list(self) -> Option<Seq<JsonView>> {
        match self {
            JsonView::List(v) => Some(v),
            _ => None,
        }
    }

    /// The field `key` where it is a string.
    pub open spec fn str_at(self, key: Seq<char>) -> Option<Seq<char>> {
        match self.get(key) {
            Some(v) => v.as_str(),
            None => None,
        }
    }

    /// The field `key` where it is a number without sign or fraction.
    pub open spec fn u64_at(self, key: Seq<char>) -> Option<u64> {
        match self.get(key) {
            Some(v) => v.as_u64(),
            None => None,
        }
    }

    /// The field `key` where it is a list.
    pub open spec fn list_at(self, key: Seq<char>) -> Option<Seq<JsonView>> {
        match self.get(key) {
            Some(v) => v.as_list(),
            None => None,
        }
    }

    /// An object with one more field at its end; anything else as it is.
    pub open spec fn plus(self, key: Seq<char>, value: JsonView) -> JsonView {
        match self {
            JsonView::Object(fields) => JsonView::Object(fields.push((key, value))),
            _ => self,
        }
    }

    /// An object without its fields of name `key`; anything else as it is.
    pub open spec fn without(self, key: Seq<char>) -> JsonView {
        match self {
            JsonView::Object(fields) => JsonView::Object(without(fields, key)),
            _ => self,
        }
    }

    /// An object with `key` standing for `value`; anything else as it is.
    pub open spec fn with(self, key: Seq<char>, value: JsonView) -> JsonView {
        match self {
            JsonView::Object(fields) => JsonView::Object(put(fields, key, value)),
            _ => self,
        }
    }
}

/// Looking a field up after storing one: the stored value under its own name,
/// and under every other name what was there before.
pub proof fn law_find_put(
    fields: Seq<(Seq<char>, JsonView)>,
    key: Seq<char>,
    value: JsonView,
    other: Seq<char>,
)
    ensures
        find(put(fields, key, value), other) == if other == key {
            Some(value)
        } else {
            find(fields, other)
        },
    decreases fields.len(),
{
    let after = put(fields, key, value);
    if fields.len() == 0 {
        assert(find(after.drop_first(), other) is None);
    } else if fields[0].0 == key {
        assert(after.drop_first() =~= fields.drop_first());
    } else {
        law_find_put(fields.drop_first(), key, value, other);
        assert(after.drop_first() =~= put(fields.drop_first(), key, value));
        assert(after[0] == fields[0]);
    }
}

/// Looking a field up after dropping one: nothing under its name, and under
/// every other name what was there before.
pub proof fn law_find_without(
    fields: Seq<(Seq<char>, JsonView)>,
    key: Seq<char>,
    other: Seq<char>,
)
    ensures
        find(without(fields, key), other) == if other == key {
            None
        } else {
            find(fields, other)
        },
    decreases fields.len(),
{
    let keeps = other_than(key);
    if fields.len() == 0 {
        assert(without(fields, key) =~= fields) by {
            reveal(Seq::filter);
        }
    } else {
        let rest = fields.drop_first();
        law_find_without(rest, key, other);
        assert(fields =~= seq![fields[0]] + rest);
        Seq::filter_distributes_over_add(seq![fields[0]], rest, keeps);
        assert(seq![fields[0]].filter(keeps) =~= if keeps(fields[0]) {
            seq![fields[0]]
        } else {
            Seq::empty()
        }) by {
            reveal_with_fuel(Seq::filter, 2);
            assert(seq![fields[0]].drop_last() =~= Seq::empty());
        }
        if keeps(fields[0]) {
            assert(without(fields, key).drop_first() =~= without(rest, key));
        } else {
            assert(without(fields, key) =~= without(rest, key));
        }
    }
}

/// Storing a field twice under one name keeps the later value alone.
pub proof fn law_put_put(
    fields: Seq<(Seq<char>, JsonView)>,
    key: Seq<char>,
    first: JsonView,
    second: JsonView,
)
    ensures
        put(put(fields, key, first), key, second) == put(fields, key, second),
    decreases fields.len(),
{
    let after = put(fields, key, first);
    if fields.len() == 0 {
        assert(after.update(0, (key, second)) =~= seq![(key, second)]);
    } else if fields[0].0 == key {
        assert(after.update(0, (key, second)) =~= fields.update(0, (key, second)));
    } else {
        law_put_put(fields.drop_first(), key, first, second);
        assert(after.drop_first() =~= put(fields.drop_first(), key, first));
        assert(after[0] == fields[0]);
    }
}

impl Clone for Number {
    fn clone(&self) -> (r: Self)
        ensures
            r.deep_view() == self.deep_view(),
    {
        match self {
            Number::Unsigned(x) => Number::Unsigned(*x),
            Number::Negative(x) => Number::Negative(*x),
            Number::Decimal(t) => Number::Decimal(t.clone()),
        }
    }
}

impl Clone for Json {
    fn clone(&self) -> (r: Self)
        ensures
            r.deep_view() == self.deep_view(),
        decreases self,
    {
        match self {
            Json::Null => Json::Null,
            Json::Bool(b) => Json::Bool(*b),
            Json::Number(n) => Json::Number(n.clone()),
            Json::Text(s) => Json::Text(s.clone()),
            Json::List(v) => {
                let mut out: Vec<Json> = Vec::new();
                let mut i: usize = 0;
                while i < v.len()
                    invariant
                        i <= v@.len(),
                        *self == Json::List(*v),
                        out.deep_view() == v.deep_view().take(i as int),
                    decreases v@.len() - i,
                {
                    let ghost before = out.deep_view();
                    proof {
                        assert(decreases_to!(*self => self->List_0));
                        assert(decreases_to!(*v => v@));
                        assert(decreases_to!(v@ => v@[i as int]));
                    }
                    let x = v[i].clone();
                    out.push(x);
                    proof {
                        assert(out.deep_view() =~= before.push(x.deep_view()));
                        assert(v.deep_view().take(i + 1) =~= v.deep_view().take(i as int).push(
                            v@[i as int].deep_view(),
                        ));
                    }
                    i = i + 1;
                }
                proof {
                    broadcast use lemma_list_view;

                    assert(v.deep_view().take(v@.len() as int) =~= v.deep_view());
                }
                Json::List(out)
            },
            Json::Object(v) => {
                let mut out: Vec<(String, Json)> = Vec::new();
                let mut i: usize = 0;
                while i < v.len()
                    invariant
                        i <= v@.len(),
                        *self == Json::Object(*v),
                        out.deep_view() == v.deep_view().take(i as int),
                    decreases v@.len() - i,
                {
                    let ghost before = out.deep_view();
                    let k = v[i].0.clone();
                    proof {
                        assert(decreases_to!(*self => self->Object_0));
                        assert(decreases_to!(*v => v@));
                        assert(decreases_to!(v@ => v@[i as int]));
                        assert(decreases_to!(v@[i as int] => v@[i as int].1));
                    }
                    let x = v[i].1.clone();
                    let f = (k, x);
                    out.push(f);
                    proof {
                        assert(out.deep_view() =~= before.push(f.deep_view()));
                        assert(v.deep_view().take(i + 1) =~= v.deep_view().take(i as int).push(
                            v@[i as int].deep_view(),
                        ));
                    }
                    i = i + 1;
                }
                proof {
                    broadcast use lemma_object_view;

                    assert(v.deep_view().take(v@.len() as int) =~= v.deep_view());
                }
                Json::Object(out)
            },
        }
    }
}

/// Whether fields stand in the order of their names, each name once.
pub open spec fn ascending(fields: Seq<(Seq<char>, JsonView)>) -> bool {
    forall|i: int, j: int|
        0 <= i < j < fields.len() ==> precedes((#[trigger] fields[i]).0, (#[trigger] fields[j]).0)
}

/// The name by which `serde_json` marks an object that stands for raw JSON text.
pub open spec fn raw_mark() -> Seq<char> {
    "$serde_json::private::RawValue"@
}

/// Whether an object stands for raw JSON text: the mark is its first name.
pub open spec fn raw(fields: Seq<(Seq<char>, JsonView)>) -> bool {
    fields.len() > 0 && fields[0].0 == raw_mark()
}

/// Whether a value is read back from its text as it is: its objects have their
/// fields in order, none of them stands for raw text, its numbers are whole, and it
/// is nested no deeper than `n`.
pub open spec fn neat(v: JsonView, n: nat) -> bool
    decreases n,
{
    match v {
        JsonView::Null => true,
        JsonView::Bool(_) => true,
        JsonView::Text(_) => true,
        JsonView::Number(NumberView::Unsigned(_)) => true,
        JsonView::Number(NumberView::Negative(i)) => i < 0,
        JsonView::Number(NumberView::Decimal(_)) => false,
        JsonView::List(items) => n > 0 && forall|i: int|
            0 <= i < items.len() ==> neat(#[trigger] items[i], (n - 1) as nat),
        JsonView::Object(fields) => n > 0 && ascending(fields) && !raw(fields) && forall|i: int|
            0 <= i < fields.len() ==> neat((#[trigger] fields[i]).1, (n - 1) as nat),
    }
}

/// What is neat stays neat under a greater bound.
pub proof fn lemma_neat_more(v: JsonView, n: nat, m: nat)
    requires
        neat(v, n),
        n <= m,
    ensures
        neat(v, m),
    decreases n,
{
    match v {
        JsonView::List(items) => {
            assert forall|i: int| 0 <= i < items.len() implies neat(
                #[trigger] items[i],
                (m - 1) as nat,
            ) by {
                lemma_neat_more(items[i], (n - 1) as nat, (m - 1) as nat);
            }
        },
        JsonView::Object(fields) => {
            assert forall|i: int| 0 <= i < fields.len() implies neat(
                (#[trigger] fields[i]).1,
                (m - 1) as nat,
            ) by {
                lemma_neat_more(fields[i].1, (n - 1) as nat, (m - 1) as nat);
            }
        },
        _ => {},
    }
}

/// The outside type behind JSON text: a tree of values.
#[verifier::external_type_specification]
#[verifier::external_body]
pub struct ExValue(serde_json::Value);

/// What a `serde_json::Value` holds.
pub uninterp spec fn value_of(v: serde_json::Value) -> JsonView;

/// The value that `serde_json` keeps for one of ours: object fields by name,
/// the last one of each name.
pub uninterp spec fn stored(value: JsonView) -> JsonView;

/// What a string of JSON text says, by `serde_json`: its value, or the message
/// of the error.
pub uninterp spec fn parsed(text: Seq<char>) -> Result<JsonView, Seq<char>>;

/// What bytes of JSON text say, by `serde_json`: their value, or the message of
/// the error.
pub uninterp spec fn parsed_slice(bytes: Seq<u8>) -> Result<JsonView, Seq<char>>;

/// The compact JSON text that `serde_json` writes for a value.
pub uninterp spec fn written(value: JsonView) -> Seq<char>;

/// Whether a text says a value.
pub open spec fn reads_as(text: Seq<char>, value: JsonView) -> bool {
    parsed(text) == Ok::<JsonView, Seq<char>>(value)
}

/// What is left of a parse when only its views are kept.
pub open spec fn outcome_view(r: Result<Json, String>) -> Result<JsonView, Seq<char>> {
    match r {
        Ok(j) => Ok(j.deep_view()),
        Err(e) => Err(e@),
    }
}

/// Turns a `serde_json::Value` into a [`Json`] of the same shape, variant by
/// variant. A number that is no 64-bit integer is kept as the text that
/// `serde_json::Number` displays.
#[verifier::external_body]
fn from_value(v: Value) -> (r: Json)
    ensures
        r.deep_view() == value_of(v),
{
    match v {
        Value::Null => Json::Null,
        Value::Bool(b) => Json::Bool(b),
        Value::Number(n) => Json::Number(match (n.as_u64(), n.as_i64()) {
            (Some(u), _) => Number::Unsigned(u),
            (None, Some(i)) => Number::Negative(i),
            (None, None) => Number::Decimal(n.to_string()),
        }),
        Value::String(s) => Json::Text(s),
        Value::Array(a) => Json::List(a.into_iter().map(from_value).collect()),
        Value::Object(o) => Json::Object(o.into_iter().map(|f| (f.0, from_value(f.1))).collect()),
    }
}

/// Turns a [`Json`] into a `serde_json::Value` of the same shape, variant by
/// variant, by `serde_json`'s own conversions. What is kept is named by
/// [`stored`]; decimal text that is no JSON number becomes null. A `serde_json`
/// map keeps its fields in the order of their names, so that a neat value is
/// kept as it is.
#[verifier::external_body]
fn to_value(j: &Json) -> (r: Value)
    ensures
        value_of(r) == stored(j.deep_view()),
        neat(j.deep_view(), 127) ==> value_of(r) == j.deep_view(),
{
    match j {
        Json::Null => Value::Null,
        Json::Bool(b) => Value::Bool(*b),
        Json::Number(Number::Unsigned(u)) => Value::from(*u),
        Json::Number(Number::Negative(i)) => Value::from(*i),
        Json::Number(Number::Decimal(t)) => t.parse::<serde_json::Number>().map_or(Value::Null, Value::Number),
        Json::Text(s) => Value::String(s.clone()),
        Json::List(v) => Value::Array(v.iter().map(to_value).collect()),
        Json::Object(v) => v.iter().map(|f| (f.0.clone(), to_value(&f.1))).collect(),
    }
}

/// Calls `serde_json::from_str`. The result is named by [`parsed`]: a value, or
/// the text of the error.
#[verifier::external_body]
fn value_from_str(text: &str) -> (r: Result<serde_json::Value, String>)
    ensures
        parsed(text@) == (match r {
            Ok(v) => Ok::<JsonView, Seq<char>>(value_of(v)),
            Err(e) => Err(e@),
        }),
{
    serde_json::from_str::<serde_json::Value>(text).map_err(|e| e.to_string())
}

/// Calls `serde_json::from_slice`. The result is named by [`parsed_slice`]: a
/// value, or the text of the error.
#[verifier::external_body]
fn value_from_slice(bytes: &[u8]) -> (r: Result<serde_json::Value, String>)
    ensures
        parsed_slice(bytes@) == (match r {
            Ok(v) => Ok::<JsonView, Seq<char>>(value_of(v)),
            Err(e) => Err(e@),
        }),
{
    serde_json::from_slice::<serde_json::Value>(bytes).map_err(|e| e.to_string())
}

/// Writes a `serde_json::Value` with its `Display`, which is compact JSON text.
/// The result is named by [`written`]. Whole numbers, texts and their nesting, up
/// to the depth that `serde_json::from_str` reads, come back from it, unless an
/// object in it begins with the name that `serde_json` keeps for raw text.
#[verifier::external_body]
fn value_text(v: &serde_json::Value) -> (r: String)
    ensures
        r@ == written(value_of(*v)),
        neat(value_of(*v), 127) ==> reads_as(r@, value_of(*v)),
{
    v.to_string()
}

/// The value that a string of JSON text says, or the message of the error.
pub fn parse_text(text: &str) -> (r: Result<Json, String>)
    ensures
        outcome_view(r) == parsed(text@),
{
    match value_from_str(text) {
        Ok(v) => Ok(from_value(v)),
        Err(e) => Err(e),
    }
}

/// The value that bytes of JSON text say, or the message of the error.
pub fn parse_slice(bytes: &[u8]) -> (r: Result<Json, String>)
    ensures
        outcome_view(r) == parsed_slice(bytes@),
{
    match value_from_slice(bytes) {
        Ok(v) => Ok(from_value(v)),
        Err(e) => Err(e),
    }
}

/// The JSON text of a value as it is sent.
pub open spec fn json_text(value: JsonView) -> Seq<char> {
    written(stored(value))
}

/// The value as compact JSON text. A neat value is read back from it as it is.
pub fn write_text(j: &Json) -> (r: String)
    ensures
        r@ == json_text(j.deep_view()),
        neat(j.deep_view(), 127) ==> reads_as(r@, j.deep_view()),
{
    let v = to_value(j);
    value_text(&v)
}


/// `find` and `put` by position.
proof fn lemma_field_index(fields: Seq<(Seq<char>, JsonView)>, key: Seq<char>, n: int)
    requires
        0 <= n <= fields.len(),
        forall|i: int| 0 <= i < n ==> (#[trigger] fields[i]).0 != key,
        n < fields.len() ==> fields[n].0 == key,
    ensures
        find(fields, key) == (if n < fields.len() {
            Some(fields[n].1)
        } else {
            None
        }),
        forall|value: JsonView|
            #[trigger] put(fields, key, value) == (if n < fields.len() {
                fields.update(n, (key, value))
            } else {
                fields.push((key, value))
            }),
    decreases n,
{
    let rest = fields.drop_first();
    if n > 0 {
        assert(forall|i: int| 0 <= i < n - 1 ==> rest[i] == fields[i + 1]);
        lemma_field_index(rest, key, n - 1);
        assert(fields[0].0 != key);
    }
    assert forall|value: JsonView|
        #[trigger] put(fields, key, value) == (if n < fields.len() {
            fields.update(n, (key, value))
        } else {
            fields.push((key, value))
        }) by {
        if n > 0 {
            let tail = put(rest, key, value);
            assert(put(fields, key, value) =~= (if n < fields.len() {
                fields.update(n, (key, value))
            } else {
                fields.push((key, value))
            }));
        } else if fields.len() == 0 {
            assert(seq![(key, value)] =~= fields.push((key, value)));
        }
    }
}

/// The position of the first field of name `key`, or the number of fields.
fn position(fields: &Vec<(String, Json)>, key: &str) -> (n: usize)
    ensures
        n <= fields@.len(),
        forall|i: int| 0 <= i < n ==> (#[trigger] fields.deep_view()[i]).0 != key@,
        n < fields@.len() ==> fields.deep_view()[n as int].0 == key@,
{
    let mut i: usize = 0;
    while i < fields.len()
        invariant
            i <= fields@.len(),
            forall|j: int| 0 <= j < i ==> (#[trigger] fields.deep_view()[j]).0 != key@,
        decreases fields@.len() - i,
    {
        if same(fields[i].0.as_str(), key) {
            return i;
        }
        i = i + 1;
    }
    i
}

impl Json {
    /// The field `key` of an object.
    pub fn get(&self, key: &str) -> (r: Option<&Json>)
        ensures
            r is Some <==> self.deep_view().get(key@) is Some,
            r is Some ==> r->0.deep_view() == self.deep_view().get(key@)->0,
    {
        broadcast use lemma_object_view;

        match self {
            Json::Object(fields) => {
                let n: usize = position(fields, key);
                proof {
                    lemma_field_index(fields.deep_view(), key@, n as int);
                }
                if n < fields.len() {
                    Some(&fields[n].1)
                } else {
                    None
                }
            },
            _ => None,
        }
    }

    /// The characters of a string.
    pub fn as_str(&self) -> (r: Option<&str>)
        ensures
            r is Some <==> self.deep_view().as_str() is Some,
            r is Some ==> r->0@ == self.deep_view().as_str()->0,
    {
        match self {
            Json::Text(s) => Some(s.as_str()),
            _ => None,
        }
    }

    /// A number without sign or fraction.
    pub fn as_u64(&self) -> (r: Option<u64>)
        ensures
            r == self.deep_view().as_u64(),
    {
        match self {
            Json::Number(Number::Unsigned(n)) => Some(*n),
            _ => None,
        }
    }

    pub fn as_bool(&self) -> (r: Option<bool>)
        ensures
            r == self.deep_view().as_bool(),
    {
        match self {
            Json::Bool(b) => Some(*b),
            _ => None,
        }
    }

    /// The elements of a list.
    pub fn as_list(&self) -> (r: Option<&Vec<Json>>)
        ensures
            r is Some <==> self.deep_view().as_list() is Some,
            r is Some ==> r->0.deep_view() == self.deep_view().as_list()->0,
    {
        broadcast use lemma_list_view;

        match self {
            Json::List(v) => Some(v),
            _ => None,
        }
    }

    pub fn is_null(&self) -> (r: bool)
        ensures
            r == (self.deep_view() is Null),
    {
        match self {
            Json::Null => true,
            _ => false,
        }
    }

    /// A copy of the field `key` where it is a string.
    pub fn str_at(&self, key: &str) -> (r: Option<String>)
        ensures
            r.deep_view() == self.deep_view().str_at(key@),
    {
        match self.get(key) {
            Some(v) => match v.as_str() {
                Some(s) => Some(s.to_owned()),
                None => None,
            },
            None => None,
        }
    }

    /// The field `key` where it is a number without sign or fraction.
    pub fn u64_at(&self, key: &str) -> (r: Option<u64>)
        ensures
            r == self.deep_view().u64_at(key@),
    {
        match self.get(key) {
            Some(v) => v.as_u64(),
            None => None,
        }
    }

    /// The field `key` where it is a list.
    pub fn list_at(&self, key: &str) -> (r: Option<&Vec<Json>>)
        ensures
            r is Some <==> self.deep_view().list_at(key@) is Some,
            r is Some ==> r->0.deep_view() == self.deep_view().list_at(key@)->0,
    {
        match self.get(key) {
            Some(v) => v.as_list(),
            None => None,
        }
    }

    /// An object with `key` standing for `value`; anything else as it is.
    pub fn with(self, key: &str, value: Json) -> (r: Json)
        ensures
            r.deep_view() == self.deep_view().with(key@, value.deep_view()),
    {
        broadcast use lemma_object_view;

        match self {
            Json::Object(mut fields) => {
                let n: usize = position(&fields, key);
                let ghost before = fields.deep_view();
                let ghost v = value.deep_view();
                proof {
                    lemma_field_index(before, key@, n as int);
                }
                let field = (key.to_owned(), value);
                if n < fields.len() {
                    fields.set(n, field);
                    proof {
                        assert(fields.deep_view() =~= before.update(n as int, (key@, v)));
                    }
                } else {
                    fields.push(field);
                    proof {
                        assert(fields.deep_view() =~= before.push((key@, v)));
                    }
                }
                Json::Object(fields)
            },
            other => other,
        }
    }

    /// An object without its fields of name `key`; anything else as it is.
    pub fn without(self, key: &str) -> (r: Json)
        ensures
            r.deep_view() == self.deep_view().without(key@),
    {
        broadcast use lemma_object_view;

        match self {
            Json::Object(fields) => {
                let mut out: Vec<(String, Json)> = Vec::new();
                let mut i: usize = 0;
                let ghost all = fields.deep_view();
                while i < fields.len()
                    invariant
                        i <= fields@.len(),
                        all == fields.deep_view(),
                        out.deep_view() == without(all.take(i as int), key@),
                    decreases fields@.len() - i,
                {
                    let ghost before = out.deep_view();
                    proof {
                        assert(all.take(i + 1).drop_last() =~= all.take(i as int));
                        reveal(Seq::filter);
                    }
                    if !same(fields[i].0.as_str(), key) {
                        let f = (fields[i].0.clone(), fields[i].1.clone());
                        out.push(f);
                        proof {
                            assert(out.deep_view() =~= before.push(all[i as int]));
                        }
                    }
                    i = i + 1;
                }
                proof {
                    assert(all.take(all.len() as int) =~= all);
                }
                Json::Object(out)
            },
            other => other,
        }
    }

    /// A string.
    pub fn text(s: &str) -> (r: Json)
        ensures
            r.deep_view() == JsonView::Text(s@),
    {
        Json::Text(s.to_owned())
    }

    /// A number without sign or fraction.
    pub fn unsigned(n: u64) -> (r: Json)
        ensures
            r.deep_view() == JsonView::Number(NumberView::Unsigned(n)),
    {
        Json::Number(Number::Unsigned(n))
    }

    /// A list.
    pub fn list(v: Vec<Json>) -> (r: Json)
        ensures
            r.deep_view() == JsonView::List(v.deep_view()),
    {
        broadcast use lemma_list_view;

        Json::List(v)
    }

    /// An object without fields.
    pub fn object() -> (r: Json)
        ensures
            r.deep_view() == JsonView::Object(Seq::empty()),
    {
        broadcast use lemma_object_view;

        let fields: Vec<(String, Json)> = Vec::new();
        proof {
            assert(fields.deep_view() =~= Seq::empty());
        }
        Json::Object(fields)
    }

    /// An object with one more field at its end; anything else as it is.
    pub fn plus(self, key: &str, value: Json) -> (r: Json)
        ensures
            r.deep_view() == self.deep_view().plus(key@, value.deep_view()),
    {
        broadcast use lemma_object_view;

        match self {
            Json::Object(mut fields) => {
                let ghost before = fields.deep_view();
                let ghost v = value.deep_view();
                fields.push((key.to_owned(), value));
                proof {
                    assert(fields.deep_view() =~= before.push((key@, v)));
                }
                Json::Object(fields)
            },
            other => other,
        }
    }
}

/// A value is read as what it is, and as nothing else.
pub proof fn law_values_are_read(v: JsonView, s: Seq<char>, n: u64, b: bool, l: Seq<JsonView>)
    ensures
        v.as_str() == Some(s) <==> v == JsonView::Text(s),
        v.as_u64() == Some(n) <==> v == JsonView::Number(NumberView::Unsigned(n)),
        v.as_bool() == Some(b) <==> v == JsonView::Bool(b),
        v.as_list() == Some(l) <==> v == JsonView::List(l),
{
}

/// A field is looked up in an object, and what is read there is what it holds.
pub proof fn law_fields_are_read(
    fields: Seq<(Seq<char>, JsonView)>,
    i: int,
    key: Seq<char>,
    s: Seq<char>,
    n: u64,
    l: Seq<JsonView>,
)
    requires
        0 <= i < fields.len(),
        fields[i].0 == key,
        forall|j: int| 0 <= j < i ==> (#[trigger] fields[j]).0 != key,
    ensures
        JsonView::Object(fields).get(key) == Some(fields[i].1),
        fields[i].1 == JsonView::Text(s) ==> JsonView::Object(fields).str_at(key) == Some(s),
        fields[i].1 == JsonView::Number(NumberView::Unsigned(n)) ==> JsonView::Object(
            fields,
        ).u64_at(key) == Some(n),
        fields[i].1 == JsonView::List(l) ==> JsonView::Object(fields).list_at(key) == Some(l),
    decreases fields.len(),
{
    if i > 0 {
        let rest = fields.drop_first();
        assert(fields[0].0 != key);
        assert forall|j: int| 0 <= j < i - 1 implies (#[trigger] rest[j]).0 != key by {
            assert(fields[j + 1].0 != key);
        }
        law_fields_are_read(rest, i - 1, key, s, n, l);
    }
}

/// A field that no name leads to is not found.
pub proof fn law_unknown_field(fields: Seq<(Seq<char>, JsonView)>, key: Seq<char>)
    requires
        forall|j: int| 0 <= j < fields.len() ==> (#[trigger] fields[j]).0 != key,
    ensures
        JsonView::Object(fields).get(key) is None,
    decreases fields.len(),
{
    if fields.len() > 0 {
        let rest = fields.drop_first();
        assert(fields[0].0 != key);
        assert forall|j: int| 0 <= j < rest.len() implies (#[trigger] rest[j]).0 != key by {
            assert(fields[j + 1].0 != key);
        }
        law_unknown_field(rest, key);
    }
}

} // verus!
