//! JSON documents, by way of serde_json.
//!
//! A document is a [`serde_json::Value`]. Contracts speak of the tree it stands for.
use crate::text::before;
use vstd::prelude::*;

verus! {

/// A JSON number: an integer, or a floating-point one by its IEEE 754 bits.
pub enum JsonNumber {
    Integer(int),
    Real(u64),
}

/// What a JSON document says.
pub enum JsonTree {
    Null,
    Bool(bool),
    Number(JsonNumber),
    Text(Seq<char>),
    List(Seq<JsonTree>),
    Object(Map<Seq<char>, JsonTree>),
}

#[verifier::external_type_specification]
#[verifier::external_body]
pub struct ExValue(serde_json::Value);

#[verifier::external_type_specification]
#[verifier::external_body]
#[verifier::reject_recursive_types(K)]
#[verifier::reject_recursive_types(V)]
pub struct ExMap<K, V>(serde_json::Map<K, V>);

/// An object of serde_json: members by name.
pub type JsonObject = serde_json::Map<String, serde_json::Value>;

/// The tree a document holds.
pub uninterp spec fn tree_of(v: serde_json::Value) -> JsonTree;

/// The members an object holds, by name.
pub uninterp spec fn members_of(m: JsonObject) -> Map<Seq<char>, JsonTree>;

/// The compact text serde_json writes for a tree: members by name, ascending.
pub uninterp spec fn rendered_text(t: JsonTree) -> Seq<char>;

/// The tree serde_json reads in a text, or what it says is wrong with it.
pub uninterp spec fn reading(text: Seq<char>) -> Result<JsonTree, Seq<char>>;

/// The floating-point number serde_json takes an integer for: the nearest.
pub uninterp spec fn nearest_real(i: int) -> u64;

/// A number as a floating-point number: one that is one already is itself.
pub open spec fn real_of(n: JsonNumber) -> u64 {
    match n {
        JsonNumber::Integer(i) => nearest_real(i),
        JsonNumber::Real(x) => x,
    }
}

/// The trees of a list of documents.
pub open spec fn trees(items: Seq<serde_json::Value>) -> Seq<JsonTree> {
    items.map_values(|v: serde_json::Value| tree_of(v))
}

/// Whether a tree is a value of its own, and neither a list nor an object.
pub open spec fn plain(t: JsonTree) -> bool {
    match t {
        JsonTree::Null => true,
        JsonTree::Bool(_) => true,
        JsonTree::Number(JsonNumber::Integer(i)) => i64::MIN <= i <= u64::MAX,
        JsonTree::Number(JsonNumber::Real(_)) => true,
        JsonTree::Text(_) => true,
        _ => false,
    }
}

/// Whether a tree is an object of plain values.
pub open spec fn flat(t: JsonTree) -> bool {
    t matches JsonTree::Object(m) && forall|k: Seq<char>| #[trigger]
        m.contains_key(k) ==> plain(m[k])
}

/// The reading of a text that spells a tree.
pub open spec fn reads_as(t: JsonTree) -> Result<JsonTree, Seq<char>> {
    Ok(t)
}

/// No members at all.
pub open spec fn no_members() -> Map<Seq<char>, JsonTree> {
    Map::empty()
}

/// `Value::Null`.
#[verifier::external_body]
pub(crate) fn json_null() -> (r: serde_json::Value)
    ensures
        tree_of(r) == JsonTree::Null,
{
    serde_json::Value::Null
}

/// `Value::from` of a `bool`: that boolean.
#[verifier::external_body]
pub(crate) fn json_bool(b: bool) -> (r: serde_json::Value)
    ensures
        tree_of(r) == JsonTree::Bool(b),
{
    serde_json::Value::from(b)
}

/// `Value::from` of an `i64`: that integer.
#[verifier::external_body]
pub(crate) fn json_i64(i: i64) -> (r: serde_json::Value)
    ensures
        tree_of(r) == JsonTree::Number(JsonNumber::Integer(i as int)),
{
    serde_json::Value::from(i)
}

/// `Value::from` of a `u64`: that integer.
#[verifier::external_body]
pub(crate) fn json_u64(u: u64) -> (r: serde_json::Value)
    ensures
        tree_of(r) == JsonTree::Number(JsonNumber::Integer(u as int)),
{
    serde_json::Value::from(u)
}

/// `Value::from` of a `&str`: that text.
#[verifier::external_body]
pub(crate) fn json_text(s: &str) -> (r: serde_json::Value)
    ensures
        tree_of(r) == JsonTree::Text(s@),
{
    serde_json::Value::from(s)
}

/// `Value::from` of a list of documents: the list of their trees.
#[verifier::external_body]
pub(crate) fn json_list(items: Vec<serde_json::Value>) -> (r: serde_json::Value)
    ensures
        tree_of(r) == JsonTree::List(trees(items@)),
{
    serde_json::Value::from(items)
}

/// `Value::from` of an object: an object with the same members.
#[verifier::external_body]
pub(crate) fn json_object(m: JsonObject) -> (r: serde_json::Value)
    ensures
        tree_of(r) == JsonTree::Object(members_of(m)),
{
    serde_json::Value::from(m)
}

/// `Map::new`: an object without members.
#[verifier::external_body]
pub(crate) fn empty_object() -> (r: JsonObject)
    ensures
        members_of(r) == no_members(),
{
    serde_json::Map::new()
}

/// `Map::insert`: the member has that value afterwards, whatever it had before.
#[verifier::external_body]
pub(crate) fn put(m: &mut JsonObject, name: &str, value: serde_json::Value)
    ensures
        members_of(*final(m)) == members_of(*old(m)).insert(name@, tree_of(value)),
{
    m.insert(name.to_string(), value);
}

/// `Value::clone`: the same tree.
#[verifier::external_body]
pub(crate) fn copy_value(v: &serde_json::Value) -> (r: serde_json::Value)
    ensures
        tree_of(r) == tree_of(*v),
{
    v.clone()
}

/// `Value`'s `Display`: compact JSON. An object of plain values reads back as it was written.
/// That holds of a floating-point number too, which is finite in a `Value`: it is written with
/// as many digits as tell it apart, and a point or an exponent, and with the feature
/// `float_roundtrip` it is read to the nearest number. Nothing is said of anything nested.
#[verifier::external_body]
pub(crate) fn rendered(v: &serde_json::Value) -> (r: String)
    ensures
        r@ == rendered_text(tree_of(*v)),
        flat(tree_of(*v)) ==> reading(r@) == reads_as(tree_of(*v)),
{
    v.to_string()
}

/// `serde_json::from_str`: the tree a text spells, or the message of the error.
#[verifier::external_body]
pub(crate) fn read_json(text: &str) -> (r: Result<serde_json::Value, String>)
    ensures
        match (r, reading(text@)) {
            (Ok(v), Ok(tree)) => tree_of(v) == tree,
            (Err(e), Err(message)) => e@ == message,
            _ => false,
        },
{
    serde_json::from_str(text).map_err(|e: serde_json::Error| e.to_string())
}

/// What kind of value a document is.
#[derive(Clone, Copy, Debug, PartialEq, Eq, Structural)]
pub enum JsonKind {
    Null,
    Bool,
    Number,
    Text,
    List,
    Object,
}

/// What kind of value a tree is.
pub open spec fn kind_of_tree(t: JsonTree) -> JsonKind {
    match t {
        JsonTree::Null => JsonKind::Null,
        JsonTree::Bool(_) => JsonKind::Bool,
        JsonTree::Number(_) => JsonKind::Number,
        JsonTree::Text(_) => JsonKind::Text,
        JsonTree::List(_) => JsonKind::List,
        JsonTree::Object(_) => JsonKind::Object,
    }
}

/// The variants of `Value`, told apart.
#[verifier::external_body]
pub(crate) fn kind_of(v: &serde_json::Value) -> (r: JsonKind)
    ensures
        r == kind_of_tree(tree_of(*v)),
{
    match v {
        serde_json::Value::Null => JsonKind::Null,
        serde_json::Value::Bool(_) => JsonKind::Bool,
        serde_json::Value::Number(_) => JsonKind::Number,
        serde_json::Value::String(_) => JsonKind::Text,
        serde_json::Value::Array(_) => JsonKind::List,
        serde_json::Value::Object(_) => JsonKind::Object,
    }
}

/// `Value::as_bool`: the boolean, if the document is one.
#[verifier::external_body]
pub(crate) fn as_bool(v: &serde_json::Value) -> (r: Option<bool>)
    ensures
        r == (match tree_of(*v) {
            JsonTree::Bool(b) => Some(b),
            _ => None,
        }),
{
    v.as_bool()
}

/// `Value::as_i64`: the integer, if the document is one and 64 signed bits reach it.
#[verifier::external_body]
pub(crate) fn as_i64(v: &serde_json::Value) -> (r: Option<i64>)
    ensures
        r == (match tree_of(*v) {
            JsonTree::Number(JsonNumber::Integer(i)) => if i64::MIN <= i <= i64::MAX {
                Some(i as i64)
            } else {
                None
            },
            _ => None,
        }),
{
    v.as_i64()
}

/// `Value::as_f64`, as a document again: every number has a floating-point number, and one that
/// is one already is its own.
#[verifier::external_body]
pub(crate) fn as_real(v: &serde_json::Value) -> (r: Option<serde_json::Value>)
    ensures
        match (r, tree_of(*v)) {
            (Some(f), JsonTree::Number(JsonNumber::Integer(i))) => tree_of(f) == JsonTree::Number(
                JsonNumber::Real(nearest_real(i)),
            ),
            (Some(f), JsonTree::Number(JsonNumber::Real(x))) => tree_of(f) == JsonTree::Number(
                JsonNumber::Real(x),
            ),
            (None, JsonTree::Number(_)) => false,
            (Some(_), _) => false,
            (None, _) => true,
        },
{
    v.as_f64().map(serde_json::Value::from)
}

/// `Value::as_str`: the text, if the document is one.
#[verifier::external_body]
pub(crate) fn as_text(v: &serde_json::Value) -> (r: Option<String>)
    ensures
        match (r, tree_of(*v)) {
            (Some(s), JsonTree::Text(t)) => s@ == t,
            (None, JsonTree::Text(_)) => false,
            (Some(_), _) => false,
            (None, _) => true,
        },
{
    v.as_str().map(|s| s.to_string())
}

/// Whether a list of members is exactly an object's, by name and ascending.
pub open spec fn lists_members(
    entries: Seq<(String, serde_json::Value)>,
    m: Map<Seq<char>, JsonTree>,
) -> bool {
    &&& forall|i: int|
        0 <= i < entries.len() ==> m.contains_key((#[trigger] entries[i]).0@)
            && m[entries[i].0@] == tree_of(entries[i].1)
    &&& forall|k: Seq<char>| #[trigger]
        m.contains_key(k) ==> exists|i: int|
            0 <= i < entries.len() && (#[trigger] entries[i]).0@ == k
    &&& forall|i: int, j: int|
        #![trigger entries[i], entries[j]]
        0 <= i < j < entries.len() ==> before(entries[i].0@, entries[j].0@)
}

/// The members of an object, moved out of serde_json's `Map` in the order it keeps them,
/// which is ascending by name; `None` for a document that is no object.
#[verifier::external_body]
pub(crate) fn members(v: serde_json::Value) -> (r: Option<Vec<(String, serde_json::Value)>>)
    ensures
        match (r, tree_of(v)) {
            (Some(entries), JsonTree::Object(m)) => lists_members(entries@, m),
            (None, JsonTree::Object(_)) => false,
            (Some(_), _) => false,
            (None, _) => true,
        },
{
    match v {
        serde_json::Value::Object(m) => Some(m.into_iter().collect()),
        _ => None,
    }
}

} // verus!
