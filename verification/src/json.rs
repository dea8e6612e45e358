//! JSON values: what they hold, and the calls into `serde_json` that read, change and print them.

use vstd::prelude::*;

verus! {

/// How many levels of nesting `serde_json` reads.
pub const MAX_DEPTH: usize = 127;

/// What a JSON value holds.
pub enum Tree {
    Null,
    Bool(bool),
    /// A natural number that fits in 64 bits.
    Count(nat),
    /// Any other number, by its printed form.
    Number(Seq<char>),
    Text(Seq<char>),
    List(Seq<Tree>),
    Fields(Map<Seq<char>, Tree>),
}

/// What comes of reading a text as JSON.
pub enum Parsed {
    Value(Tree),
    Error(Seq<char>),
}

/// A JSON value of `serde_json`.
#[verifier::external_type_specification]
#[verifier::external_body]
pub struct ExValue(serde_json::Value);

/// A JSON object of `serde_json`: an ordered map from member names to values.
#[verifier::external_type_specification]
#[verifier::external_body]
#[verifier::reject_recursive_types(K)]
#[verifier::reject_recursive_types(V)]
pub struct ExMap<K, V>(serde_json::Map<K, V>);

/// What a value holds.
pub uninterp spec fn tree(v: serde_json::Value) -> Tree;

/// What an object holds.
pub uninterp spec fn fields(m: serde_json::Map<String, serde_json::Value>) -> Map<Seq<char>, Tree>;

/// What `serde_json::from_str` makes of a text: a value, or the error's message.
pub uninterp spec fn json_parsed(text: Seq<char>) -> Parsed;

/// What `serde_json::from_reader` makes of bytes: a value, or the error's message.
pub uninterp spec fn json_read(bytes: Seq<u8>) -> Parsed;

/// What the `Display` of a value writes.
pub uninterp spec fn json_printed(t: Tree) -> Seq<char>;

/// Within `depth` levels of nesting and free of numbers other than naturals.
pub open spec fn readable(t: Tree, depth: nat) -> bool
    decreases depth,
{
    match t {
        Tree::Null | Tree::Bool(_) | Tree::Text(_) => true,
        Tree::Count(n) => n <= u64::MAX,
        Tree::Number(_) => false,
        Tree::List(items) => depth > 0 && forall|i: int|
            0 <= i < items.len() ==> readable(#[trigger] items[i], (depth - 1) as nat),
        Tree::Fields(m) => depth > 0 && forall|k: Seq<char>|
            m.contains_key(k) ==> readable(#[trigger] m[k], (depth - 1) as nat),
    }
}

/// No members.
pub open spec fn no_fields() -> Map<Seq<char>, Tree> {
    Map::empty()
}

/// What the values of a vector hold.
pub open spec fn trees(v: Seq<serde_json::Value>) -> Seq<Tree> {
    Seq::new(v.len(), |i: int| tree(v[i]))
}

/// No control character below the space.
pub open spec fn control_free(s: Seq<char>) -> bool {
    forall|i: int| 0 <= i < s.len() ==> #[trigger] s[i] >= ' '
}

/// The member `key` of an object, and null for anything else.
pub open spec fn at_key(t: Tree, key: Seq<char>) -> Tree {
    match t {
        Tree::Fields(f) => if f.contains_key(key) {
            f[key]
        } else {
            Tree::Null
        },
        _ => Tree::Null,
    }
}

/// The item at position `i` of a list, and null for anything else.
pub open spec fn at_index(t: Tree, i: int) -> Tree {
    match t {
        Tree::List(items) => if 0 <= i < items.len() {
            items[i]
        } else {
            Tree::Null
        },
        _ => Tree::Null,
    }
}

/// Calls `serde_json::from_str` for a `Value`, and the `Display` of its error. What comes out is
/// named by `json_parsed`, and depends on the text alone.
#[verifier::external_body]
pub(crate) fn parse_json(text: &str) -> (r: Result<serde_json::Value, String>)
    ensures
        match r {
            Ok(v) => json_parsed(text@) == Parsed::Value(tree(v)),
            Err(e) => json_parsed(text@) == Parsed::Error(e@),
        },
{
    serde_json::from_str::<serde_json::Value>(text).map_err(|e| e.to_string())
}

/// Calls `serde_json::from_reader` for a `Value` on bytes that are in memory, and the `Display` of
/// its error. What comes out is named by `json_read`, and depends on the bytes alone.
#[verifier::external_body]
pub(crate) fn read_json(bytes: &[u8]) -> (r: Result<serde_json::Value, String>)
    ensures
        match r {
            Ok(v) => json_read(bytes@) == Parsed::Value(tree(v)),
            Err(e) => json_read(bytes@) == Parsed::Error(e@),
        },
{
    serde_json::from_reader::<&[u8], serde_json::Value>(bytes).map_err(|e| e.to_string())
}

/// Calls the `Display` of `serde_json::Value`, which writes compact JSON. What it writes is named
/// by `json_printed`. It escapes control characters, so none is left in the text; and
/// `serde_json::from_str` reads the text back as the same value, as long as the nesting stays
/// within what that function accepts. Of values with other numbers than naturals the latter is
/// not claimed.
#[verifier::external_body]
pub(crate) fn print_json(v: &serde_json::Value) -> (r: String)
    ensures
        r@ == json_printed(tree(*v)),
        readable(tree(*v), MAX_DEPTH as nat) ==> json_parsed(r@) == Parsed::Value(tree(*v)),
        control_free(r@),
{
    v.to_string()
}

/// Calls `Index<&str>` on a value: the member of an object, or null.
#[verifier::external_body]
pub(crate) fn member<'a>(v: &'a serde_json::Value, key: &str) -> (r: &'a serde_json::Value)
    ensures
        tree(*r) == at_key(tree(*v), key@),
{
    &v[key]
}

/// Calls `Index<usize>` on a value: the item of a list, or null.
#[verifier::external_body]
pub(crate) fn item(v: &serde_json::Value, i: usize) -> (r: &serde_json::Value)
    ensures
        tree(*r) == at_index(tree(*v), i as int),
{
    &v[i]
}

/// Calls `Value::as_str`: the text of a string, and nothing for any other value.
#[verifier::external_body]
pub(crate) fn as_text(v: &serde_json::Value) -> (r: Option<&str>)
    ensures
        match r {
            Some(s) => tree(*v) == Tree::Text(s@),
            None => !(tree(*v) is Text),
        },
{
    v.as_str()
}

/// Calls `Value::get_mut` with a key: access to the member of an object, where it has it.
#[verifier::external_body]
pub(crate) fn member_mut<'a>(v: &'a mut serde_json::Value, key: &str) -> (r: Option<
    &'a mut serde_json::Value,
>)
    ensures
        match r {
            Some(m) => tree(*old(v)) matches Tree::Fields(f) && f.contains_key(key@) && tree(*m)
                == f[key@] && tree(*final(v)) == Tree::Fields(f.insert(key@, tree(*final(m)))),
            None => (tree(*old(v)) matches Tree::Fields(f) ==> !f.contains_key(key@))
                && *final(v) == *old(v),
        },
{
    v.get_mut(key)
}

/// Calls `Value::as_object_mut`: access to what an object holds, and nothing for any other value.
#[verifier::external_body]
pub(crate) fn object_mut<'a>(v: &'a mut serde_json::Value) -> (r: Option<
    &'a mut serde_json::Map<String, serde_json::Value>,
>)
    ensures
        match r {
            Some(m) => tree(*old(v)) == Tree::Fields(fields(*m)) && tree(*final(v)) == Tree::Fields(
                fields(*final(m)),
            ),
            None => !(tree(*old(v)) is Fields) && *final(v) == *old(v),
        },
{
    v.as_object_mut()
}

/// Calls `Map::remove`: the member is gone, the others are left.
#[verifier::external_body]
pub(crate) fn remove_member(m: &mut serde_json::Map<String, serde_json::Value>, key: &str)
    ensures
        fields(*final(m)) == fields(*old(m)).remove(key@),
{
    m.remove(key);
}

/// Calls `Map::new`: an object without members.
#[verifier::external_body]
pub(crate) fn new_object() -> (r: serde_json::Map<String, serde_json::Value>)
    ensures
        fields(r) == no_fields(),
{
    serde_json::Map::new()
}

/// Calls `Map::insert`: the member has the new value, whether or not it was there.
#[verifier::external_body]
pub(crate) fn insert_member(
    m: &mut serde_json::Map<String, serde_json::Value>,
    key: String,
    v: serde_json::Value,
)
    ensures
        fields(*final(m)) == fields(*old(m)).insert(key@, tree(v)),
{
    m.insert(key, v);
}

/// Calls `Value::from` on a string.
#[verifier::external_body]
pub(crate) fn text_value(s: String) -> (r: serde_json::Value)
    ensures
        tree(r) == Tree::Text(s@),
{
    serde_json::Value::from(s)
}

/// Calls `Value::from` on an unsigned number.
#[verifier::external_body]
pub(crate) fn count_value(n: u64) -> (r: serde_json::Value)
    ensures
        tree(r) == Tree::Count(n as nat),
{
    serde_json::Value::from(n)
}

/// Calls `Value::from` on a truth value.
#[verifier::external_body]
pub(crate) fn flag_value(b: bool) -> (r: serde_json::Value)
    ensures
        tree(r) == Tree::Bool(b),
{
    serde_json::Value::from(b)
}

/// Calls `Value::from` on a vector of values.
#[verifier::external_body]
pub(crate) fn list_value(items: Vec<serde_json::Value>) -> (r: serde_json::Value)
    ensures
        tree(r) == Tree::List(trees(items@)),
{
    serde_json::Value::from(items)
}

/// Calls `Value::from` on an object.
#[verifier::external_body]
pub(crate) fn object_value(m: serde_json::Map<String, serde_json::Value>) -> (r: serde_json::Value)
    ensures
        tree(r) == Tree::Fields(fields(m)),
{
    serde_json::Value::from(m)
}

} // verus!
