//! JSON values.
use vstd::prelude::*;
use crate::text::{opt_str, text_eq, texts};

verus! {

/// A JSON value.
#[derive(Debug)]
pub enum Json {
    Null,
    Bool(bool),
    /// A number; where it is none of `i64`, only that it is a number.
    Number(Option<i64>),
    /// A number of single precision, by its bits.
    Real(u32),
    Text(String),
    Array(Vec<Json>),
    Object(Vec<(String, Json)>),
}

/// A JSON value over mathematical sequences.
pub enum JsonTree {
    Null,
    Bool(bool),
    Number(Option<i64>),
    Real(u32),
    Text(Seq<char>),
    Array(Seq<JsonTree>),
    Object(Seq<(Seq<char>, JsonTree)>),
}

/// The value without its representation.
pub open spec fn tree(j: Json) -> JsonTree
    decreases j,
{
    match j {
        Json::Null => JsonTree::Null,
        Json::Bool(b) => JsonTree::Bool(b),
        Json::Number(n) => JsonTree::Number(n),
        Json::Real(bits) => JsonTree::Real(bits),
        Json::Text(s) => JsonTree::Text(s@),
        Json::Array(v) => JsonTree::Array(
            Seq::new(
                v@.len(),
                |i: int|
                    if 0 <= i < v@.len() {
                        tree(v@[i])
                    } else {
                        JsonTree::Null
                    },
            ),
        ),
        Json::Object(v) => JsonTree::Object(
            Seq::new(
                v@.len(),
                |i: int|
                    if 0 <= i < v@.len() {
                        (v@[i].0@, tree(v@[i].1))
                    } else {
                        (Seq::empty(), JsonTree::Null)
                    },
            ),
        ),
    }
}

impl View for Json {
    type V = JsonTree;

    open spec fn view(&self) -> JsonTree {
        tree(*self)
    }
}

/// The position of a member of an object.
pub open spec fn member_at(pairs: Seq<(Seq<char>, JsonTree)>, key: Seq<char>) -> Option<int>
    decreases pairs.len(),
{
    if pairs.len() == 0 {
        None
    } else {
        match member_at(pairs.drop_last(), key) {
            Some(i) => Some(i),
            None => if pairs.last().0 == key {
                Some(pairs.len() - 1)
            } else {
                None
            },
        }
    }
}

/// The member of an object with this key.
pub open spec fn member(j: JsonTree, key: Seq<char>) -> Option<JsonTree> {
    match j {
        JsonTree::Object(pairs) => match member_at(pairs, key) {
            Some(i) => Some(pairs[i].1),
            None => None,
        },
        _ => None,
    }
}

/// A member of an optional value.
pub open spec fn member_of(j: Option<JsonTree>, key: Seq<char>) -> Option<JsonTree> {
    match j {
        Some(v) => member(v, key),
        None => None,
    }
}

/// The text that a value is.
pub open spec fn text_of_tree(j: Option<JsonTree>) -> Option<Seq<char>> {
    match j {
        Some(JsonTree::Text(s)) => Some(s),
        _ => None,
    }
}

/// The number that a value is.
pub open spec fn number_of_tree(j: Option<JsonTree>) -> Option<i64> {
    match j {
        Some(JsonTree::Number(n)) => n,
        _ => None,
    }
}

/// The elements that a value has.
pub open spec fn items_of_tree(j: Option<JsonTree>) -> Option<Seq<JsonTree>> {
    match j {
        Some(JsonTree::Array(items)) => Some(items),
        _ => None,
    }
}

/// The first value, else the second.
pub open spec fn or_tree(a: Option<JsonTree>, b: Option<JsonTree>) -> Option<JsonTree> {
    if a is Some {
        a
    } else {
        b
    }
}

/// The view of an optional value.
pub open spec fn opt_tree(j: Option<&Json>) -> Option<JsonTree> {
    match j {
        Some(v) => Some(v@),
        None => None,
    }
}

/// The member of an object with this key.
pub fn get<'a>(j: &'a Json, key: &str) -> (r: Option<&'a Json>)
    ensures
        opt_tree(r) == member(j@, key@),
{
    match j {
        Json::Object(v) => {
            let ghost pairs = j@->Object_0;
            for i in 0..v.len()
                invariant
                    pairs == j@->Object_0,
                    *j == Json::Object(*v),
                    pairs.len() == v@.len(),
                    forall|k: int|
                        0 <= k < pairs.len() ==> #[trigger] pairs[k] == (v@[k].0@, v@[k].1@),
                    member_at(pairs.take(i as int), key@) is None,
            {
                assert(pairs.take(i + 1).drop_last() =~= pairs.take(i as int));
                assert(pairs[i as int] == (v@[i as int].0@, v@[i as int].1@));
                if text_eq(&v[i].0, key) {
                    proof {
                        lemma_member_at(pairs, key@, i + 1);
                    }
                    return Some(&v[i].1);
                }
            }
            assert(pairs.take(v@.len() as int) =~= pairs);
            None
        },
        _ => None,
    }
}

/// A member found in a front part is the one found in the whole.
proof fn lemma_member_at(pairs: Seq<(Seq<char>, JsonTree)>, key: Seq<char>, n: int)
    requires
        0 <= n <= pairs.len(),
        member_at(pairs.take(n), key) is Some,
    ensures
        member_at(pairs, key) == member_at(pairs.take(n), key),
    decreases pairs.len() - n,
{
    if n == pairs.len() {
        assert(pairs.take(n) =~= pairs);
    } else {
        assert(pairs.take(n + 1).drop_last() =~= pairs.take(n));
        lemma_member_at(pairs, key, n + 1);
    }
}

/// The first member with a key is the one found.
pub proof fn law_first_member(pairs: Seq<(Seq<char>, JsonTree)>, key: Seq<char>, i: int)
    requires
        0 <= i < pairs.len(),
        pairs[i].0 == key,
        forall|j: int| 0 <= j < i ==> (#[trigger] pairs[j]).0 != key,
    ensures
        member_at(pairs, key) == Some(i),
    decreases pairs.len(),
{
    let front = pairs.drop_last();
    if i < front.len() {
        assert(front[i] == pairs[i]);
        law_first_member(front, key, i);
    } else {
        law_no_member(front, key);
    }
}

/// A key that no member has is not found.
pub proof fn law_no_member(pairs: Seq<(Seq<char>, JsonTree)>, key: Seq<char>)
    requires
        forall|j: int| 0 <= j < pairs.len() ==> (#[trigger] pairs[j]).0 != key,
    ensures
        member_at(pairs, key) is None,
    decreases pairs.len(),
{
    if pairs.len() > 0 {
        let front = pairs.drop_last();
        assert forall|j: int| 0 <= j < front.len() implies (#[trigger] front[j]).0 != key by {
            assert(front[j] == pairs[j]);
        }
        law_no_member(front, key);
        assert(pairs[pairs.len() - 1].0 != key);
    }
}

/// A member of an optional value.
pub fn get_in<'a>(j: Option<&'a Json>, key: &str) -> (r: Option<&'a Json>)
    ensures
        opt_tree(r) == member_of(opt_tree(j), key@),
{
    match j {
        Some(v) => get(v, key),
        None => None,
    }
}

/// The first value, else the second.
pub fn or<'a>(a: Option<&'a Json>, b: Option<&'a Json>) -> (r: Option<&'a Json>)
    ensures
        opt_tree(r) == or_tree(opt_tree(a), opt_tree(b)),
{
    match a {
        Some(v) => Some(v),
        None => b,
    }
}

/// The text that a value is.
pub fn as_text<'a>(j: Option<&'a Json>) -> (r: Option<&'a str>)
    ensures
        opt_str(r) == text_of_tree(opt_tree(j)),
{
    match j {
        Some(Json::Text(s)) => Some(s.as_str()),
        _ => None,
    }
}

/// The number that a value is.
pub fn as_number(j: Option<&Json>) -> (r: Option<i64>)
    ensures
        r == number_of_tree(opt_tree(j)),
{
    match j {
        Some(Json::Number(n)) => *n,
        _ => None,
    }
}

/// The views of JSON values.
pub open spec fn trees(s: Seq<Json>) -> Seq<JsonTree> {
    Seq::new(s.len(), |i: int| s[i]@)
}

/// The elements that a value has.
pub fn as_items<'a>(j: Option<&'a Json>) -> (r: Option<&'a Vec<Json>>)
    ensures
        match r {
            Some(v) => items_of_tree(opt_tree(j)) == Some(trees(v@)),
            None => items_of_tree(opt_tree(j)) is None,
        },
{
    match j {
        Some(Json::Array(v)) => {
            assert(opt_tree(j)->0->Array_0 =~= trees(v@));
            Some(v)
        },
        _ => None,
    }
}

/// The members of an object without its representation.
pub open spec fn pair_trees(s: Seq<(String, Json)>) -> Seq<(Seq<char>, JsonTree)> {
    Seq::new(s.len(), |i: int| (s[i].0@, s[i].1@))
}

/// The members that a value has.
pub open spec fn members_of_tree(j: Option<JsonTree>) -> Option<Seq<(Seq<char>, JsonTree)>> {
    match j {
        Some(JsonTree::Object(pairs)) => Some(pairs),
        _ => None,
    }
}

/// The members that a value has.
pub fn as_members<'a>(j: Option<&'a Json>) -> (r: Option<&'a Vec<(String, Json)>>)
    ensures
        match r {
            Some(v) => members_of_tree(opt_tree(j)) == Some(pair_trees(v@)),
            None => members_of_tree(opt_tree(j)) is None,
        },
{
    match j {
        Some(Json::Object(v)) => {
            assert(opt_tree(j)->0->Object_0 =~= pair_trees(v@));
            Some(v)
        },
        _ => None,
    }
}

/// A text as a value.
pub fn text_value(s: &str) -> (r: Json)
    ensures
        r@ == JsonTree::Text(s@),
{
    Json::Text(s.to_owned())
}

/// A list as a value.
pub fn array_value(items: Vec<Json>) -> (r: Json)
    ensures
        r@ == JsonTree::Array(trees(items@)),
{
    let r = Json::Array(items);
    assert(r@->Array_0 =~= trees(items@));
    r
}

/// Members as a value.
pub fn object_value(pairs: Vec<(String, Json)>) -> (r: Json)
    ensures
        r@ == JsonTree::Object(pair_trees(pairs@)),
{
    let r = Json::Object(pairs);
    assert(r@->Object_0 =~= pair_trees(pairs@));
    r
}

/// Adds a member.
pub fn add_member(pairs: &mut Vec<(String, Json)>, key: &str, value: Json)
    ensures
        pair_trees(final(pairs)@) == pair_trees(old(pairs)@).push((key@, value@)),
{
    pairs.push((key.to_owned(), value));
    assert(pair_trees(pairs@) =~= pair_trees(old(pairs)@).push((key@, value@)));
}

// ---------------------------------------------------------------------------
// Text
// ---------------------------------------------------------------------------

/// `serde_json::Value`.
#[verifier::external_type_specification]
#[verifier::external_body]
pub struct ExValue(serde_json::Value);

/// What a `serde_json::Value` holds.
pub uninterp spec fn held(v: serde_json::Value) -> JsonTree;

/// What `serde_json::from_str` reads from a text, or what it says of the fault.
pub uninterp spec fn json_read(text: Seq<char>) -> Result<JsonTree, Seq<char>>;

/// The value that a text is; nothing where it is none.
pub open spec fn json_of(text: Seq<char>) -> Option<JsonTree> {
    match json_read(text) {
        Ok(j) => Some(j),
        Err(_) => None,
    }
}

/// `serde_json::from_str` into a `serde_json::Value`, with the text of its
/// error. What it accepts, gives and says has a name and depends on the text
/// alone; the syntax is not stated.
#[verifier::external_body]
fn read_value(text: &str) -> (r: Result<serde_json::Value, String>)
    ensures
        match r {
            Ok(v) => json_read(text@) == Ok::<JsonTree, Seq<char>>(held(v)),
            Err(e) => json_read(text@) == Err::<JsonTree, Seq<char>>(e@),
        },
{
    serde_json::from_str::<serde_json::Value>(text).map_err(|e| e.to_string())
}

/// The variants of `serde_json::Value` one for one, with `Number::as_i64` for a
/// number and the members of an object in the order in which
/// `serde_json::Map` hands them out. What the value holds has a name.
#[verifier::external_body]
fn from_value(value: serde_json::Value) -> (r: Json)
    ensures
        r@ == held(value),
{
    match value {
        serde_json::Value::Null => Json::Null,
        serde_json::Value::Bool(b) => Json::Bool(b),
        serde_json::Value::Number(n) => Json::Number(n.as_i64()),
        serde_json::Value::String(s) => Json::Text(s),
        serde_json::Value::Array(v) => Json::Array(v.into_iter().map(from_value).collect()),
        serde_json::Value::Object(m) => Json::Object(
            m.into_iter().map(|(k, v)| (k, from_value(v))).collect(),
        ),
    }
}

/// The JSON value that a text is, or what is wrong with the text.
pub fn try_parse(text: &str) -> (r: Result<Json, String>)
    ensures
        match r {
            Ok(j) => json_read(text@) == Ok::<JsonTree, Seq<char>>(j@),
            Err(e) => json_read(text@) == Err::<JsonTree, Seq<char>>(e@),
        },
{
    match read_value(text) {
        Ok(v) => Ok(from_value(v)),
        Err(e) => Err(e),
    }
}

/// The JSON value that a text is.
pub fn parse(text: &str) -> (r: Option<Json>)
    ensures
        match r {
            Some(j) => json_of(text@) == Some(j@),
            None => json_of(text@) is None,
        },
{
    match try_parse(text) {
        Ok(j) => Some(j),
        Err(_) => None,
    }
}

/// What `serde_json::to_string` writes for a list of texts.
pub uninterp spec fn texts_json(list: Seq<Seq<char>>) -> Seq<char>;

/// What `serde_json::from_str` reads as a list of texts; nothing where it fails.
pub uninterp spec fn texts_of_json(text: Seq<char>) -> Option<Seq<Seq<char>>>;

/// `serde_json::to_string` of a list of texts, which cannot fail. What it
/// writes has a name and depends on the list alone.
#[verifier::external_body]
pub(crate) fn write_texts(list: &Vec<String>) -> (r: String)
    ensures
        r@ == texts_json(texts(list@)),
{
    serde_json::to_string(list).unwrap_or_default()
}

/// The view of an optional list of texts.
pub open spec fn opt_texts(list: Option<Vec<String>>) -> Option<Seq<Seq<char>>> {
    match list {
        Some(v) => Some(texts(v@)),
        None => None,
    }
}

/// `serde_json::from_str` into a list of texts. What it accepts and gives has a
/// name and depends on the text alone; it gives back what
/// `serde_json::to_string` wrote.
#[verifier::external_body]
pub(crate) fn read_texts(text: &str) -> (r: Option<Vec<String>>)
    ensures
        opt_texts(r) == texts_of_json(text@),
        forall|list: Seq<Seq<char>>|
            text@ == #[trigger] texts_json(list) ==> opt_texts(r) == Some(list),
{
    serde_json::from_str::<Vec<String>>(text).ok()
}

} // verus!
