//! JSON documents, read and written.
use crate::text::same_text;
use vstd::prelude::*;

verus! {

/// A JSON number: the three ways in which it may be read.
#[derive(Clone, Copy, Debug, PartialEq, Eq, Structural)]
pub struct JsonNumber {
    /// The value, where it is an integer from zero up to `u64::MAX`.
    pub unsigned: Option<u64>,
    /// The value, where it is an integer from `i64::MIN` up to `i64::MAX`.
    pub signed: Option<i64>,
    /// The IEEE 754 binary64 pattern of the value, where it has one.
    pub double: Option<u64>,
}

/// A JSON value: what it holds, without the order of an object's members.
pub ghost enum JsonTree {
    Null,
    Bool(bool),
    Number(JsonNumber),
    Text(Seq<char>),
    Array(Seq<JsonTree>),
    Object(Map<Seq<char>, JsonTree>),
}

/// A JSON value.
#[derive(Debug)]
pub enum Json {
    Null,
    Bool(bool),
    Number(JsonNumber),
    Text(String),
    Array(Vec<Json>),
    /// Members in some order; of members with one name the last counts.
    Object(Vec<(String, Json)>),
}

impl Json {
    /// What this value holds.
    pub open spec fn tree(self) -> JsonTree
        decreases self,
    {
        match self {
            Json::Null => JsonTree::Null,
            Json::Bool(b) => JsonTree::Bool(b),
            Json::Number(n) => JsonTree::Number(n),
            Json::Text(s) => JsonTree::Text(s@),
            Json::Array(v) => JsonTree::Array(item_trees(v@)),
            Json::Object(v) => JsonTree::Object(member_trees(v@)),
        }
    }
}

/// The items of an array.
pub open spec fn item_trees(s: Seq<Json>) -> Seq<JsonTree>
    decreases s,
{
    if s.len() == 0 {
        Seq::empty()
    } else {
        item_trees(s.drop_last()).push(s.last().tree())
    }
}

/// The members of an object.
pub open spec fn member_trees(s: Seq<(String, Json)>) -> Map<Seq<char>, JsonTree>
    decreases s,
{
    if s.len() == 0 {
        Map::empty()
    } else {
        member_trees(s.drop_last()).insert(s.last().0@, s.last().1.tree())
    }
}

/// The tree under an optional value.
pub open spec fn tree_of(json: Option<&Json>) -> Option<JsonTree> {
    match json {
        Some(json) => Some(json.tree()),
        None => None,
    }
}

/// The member of an object under a name; nothing for other values.
pub open spec fn member(tree: Option<JsonTree>, name: Seq<char>) -> Option<JsonTree> {
    match tree {
        Some(JsonTree::Object(members)) => if members.dom().contains(name) {
            Some(members[name])
        } else {
            None
        },
        _ => None,
    }
}

/// The item of an array at an index; nothing for other values.
pub open spec fn element(tree: Option<JsonTree>, index: int) -> Option<JsonTree> {
    match tree {
        Some(JsonTree::Array(items)) => if 0 <= index < items.len() {
            Some(items[index])
        } else {
            None
        },
        _ => None,
    }
}

/// The number that a value is, where it is an unsigned integer.
pub open spec fn whole(tree: Option<JsonTree>) -> Option<u64> {
    match tree {
        Some(JsonTree::Number(n)) => n.unsigned,
        _ => None,
    }
}

/// The binary64 pattern of the number that a value is.
pub open spec fn double(tree: Option<JsonTree>) -> Option<u64> {
    match tree {
        Some(JsonTree::Number(n)) => n.double,
        _ => None,
    }
}

/// The text that a value is.
pub open spec fn text(tree: Option<JsonTree>) -> Option<Seq<char>> {
    match tree {
        Some(JsonTree::Text(s)) => Some(s),
        _ => None,
    }
}

/// The binary64 patterns of the numbers among some values, in order.
pub open spec fn doubles(items: Seq<JsonTree>) -> Seq<u64>
    decreases items.len(),
{
    if items.len() == 0 {
        Seq::empty()
    } else {
        match double(Some(items.last())) {
            Some(bits) => doubles(items.drop_last()).push(bits),
            None => doubles(items.drop_last()),
        }
    }
}

/// Trees and items of an array have the same indices.
pub proof fn lemma_item_trees(s: Seq<Json>)
    ensures
        item_trees(s).len() == s.len(),
        forall|i: int| 0 <= i < s.len() ==> #[trigger] item_trees(s)[i] == s[i].tree(),
    decreases s.len(),
{
    if s.len() > 0 {
        lemma_item_trees(s.drop_last());
        assert forall|i: int| 0 <= i < s.len() implies #[trigger] item_trees(s)[i] == s[i].tree() by {
            if i < s.len() - 1 {
                assert(item_trees(s)[i] == item_trees(s.drop_last())[i]);
                assert(s[i] == s.drop_last()[i]);
            }
        }
    }
}

/// The member under `name`, if there is one.
pub fn get_member<'a>(json: Option<&'a Json>, name: &str) -> (r: Option<&'a Json>)
    ensures
        tree_of(r) == member(tree_of(json), name@),
{
    let members = match json {
        Some(Json::Object(members)) => members,
        _ => {
            return None;
        },
    };
    let wanted = name.to_owned();
    let mut n: usize = members.len();
    assert(members@.take(n as int) =~= members@);
    while n > 0
        invariant
            n <= members.len(),
            wanted@ == name@,
            tree_of(json) == Some(JsonTree::Object(member_trees(members@))),
            member(tree_of(json), name@) == member(
                Some(JsonTree::Object(member_trees(members@.take(n as int)))),
                name@,
            ),
        decreases n,
    {
        assert(members@.take(n as int).drop_last() =~= members@.take(n - 1));
        n = n - 1;
        if members[n].0 == wanted {
            return Some(&members[n].1);
        }
    }
    None
}

/// The item at `index`, if there is one.
pub fn get_element<'a>(json: Option<&'a Json>, index: usize) -> (r: Option<&'a Json>)
    ensures
        tree_of(r) == element(tree_of(json), index as int),
{
    match json {
        Some(Json::Array(items)) => {
            proof {
                lemma_item_trees(items@);
            }
            if index < items.len() {
                Some(&items[index])
            } else {
                None
            }
        },
        _ => None,
    }
}

/// The unsigned integer that the value is, if it is one.
pub fn as_whole(json: Option<&Json>) -> (r: Option<u64>)
    ensures
        r == whole(tree_of(json)),
{
    match json {
        Some(Json::Number(n)) => n.unsigned,
        _ => None,
    }
}

/// The binary64 pattern of the number that the value is, if it is one.
pub fn as_double(json: Option<&Json>) -> (r: Option<u64>)
    ensures
        r == double(tree_of(json)),
{
    match json {
        Some(Json::Number(n)) => n.double,
        _ => None,
    }
}

/// The text that the value is, if it is one.
pub fn as_text<'a>(json: Option<&'a Json>) -> (r: Option<&'a String>)
    ensures
        match r {
            Some(s) => text(tree_of(json)) == Some(s@),
            None => text(tree_of(json)) is None,
        },
{
    match json {
        Some(Json::Text(s)) => Some(s),
        _ => None,
    }
}

/// The binary64 patterns of the numbers among `items`, in order.
pub fn collect_doubles(items: &Vec<Json>) -> (r: Vec<u64>)
    ensures
        r@ == doubles(item_trees(items@)),
{
    let mut out: Vec<u64> = Vec::new();
    let mut i: usize = 0;
    while i < items.len()
        invariant
            i <= items.len(),
            out@ == doubles(item_trees(items@.take(i as int))),
        decreases items.len() - i,
    {
        proof {
            let upto = items@.take(i + 1);
            assert(upto.drop_last() =~= items@.take(i as int));
            assert(item_trees(upto).drop_last() =~= item_trees(upto.drop_last()));
        }
        match as_double(Some(&items[i])) {
            Some(bits) => out.push(bits),
            None => {},
        }
        i = i + 1;
    }
    assert(items@.take(i as int) =~= items@);
    out
}

/// `serde_json::Value`, a JSON document in memory.
#[verifier::external_type_specification]
#[verifier::external_body]
pub struct ExValue(serde_json::Value);

/// What a `serde_json::Value` holds.
pub uninterp spec fn json_content(value: serde_json::Value) -> JsonTree;

/// What `serde_json::from_str` reads in a text; nothing where it reports an error.
pub uninterp spec fn json_text(text: Seq<char>) -> Option<JsonTree>;

/// One level of a `serde_json::Value`.
pub(crate) enum JsonNode<'a> {
    Null,
    Bool(bool),
    Number(JsonNumber),
    Text(String),
    Array(Vec<&'a serde_json::Value>),
    Object(Vec<(String, &'a serde_json::Value)>),
}

/// The members of an object that is opened one level deep.
pub(crate) open spec fn content_members(s: Seq<(String, &serde_json::Value)>) -> Map<
    Seq<char>,
    JsonTree,
>
    decreases s.len(),
{
    if s.len() == 0 {
        Map::empty()
    } else {
        content_members(s.drop_last()).insert(s.last().0@, json_content(*s.last().1))
    }
}

/// No two members have one name.
pub(crate) open spec fn distinct_names(s: Seq<(String, &serde_json::Value)>) -> bool {
    forall|i: int, j: int| 0 <= i < j < s.len() ==> #[trigger] s[i].0@ != #[trigger] s[j].0@
}

/// What one level of a document says of all of it.
pub(crate) open spec fn node_tree(node: JsonNode<'_>) -> JsonTree {
    match node {
        JsonNode::Null => JsonTree::Null,
        JsonNode::Bool(b) => JsonTree::Bool(b),
        JsonNode::Number(n) => JsonTree::Number(n),
        JsonNode::Text(s) => JsonTree::Text(s@),
        JsonNode::Array(v) => JsonTree::Array(
            v@.map_values(|x: &serde_json::Value| json_content(*x)),
        ),
        JsonNode::Object(v) => JsonTree::Object(content_members(v@)),
    }
}

/// `serde_json::from_str::<serde_json::Value>`: reads a JSON document.
///
/// The outcome depends on the text alone: `json_text` names it. Nothing is said of which
/// texts are documents, nor of what is read in one.
#[verifier::external_body]
fn parse_value(text: &str) -> (r: Option<serde_json::Value>)
    ensures
        match r {
            Some(value) => json_text(text@) == Some(json_content(value)),
            None => json_text(text@) is None,
        },
{
    serde_json::from_str(text).ok()
}

/// Looks one level into a `serde_json::Value`: its variant, what `Number::as_u64`,
/// `Number::as_i64` and `Number::as_f64` answer, the items of its array, the members of its object.
///
/// The level together with what the items and members hold is what the value holds. A
/// `serde_json::Map` has each name once. The order of the members is left open.
#[verifier::external_body]
fn open_value(value: &serde_json::Value) -> (r: JsonNode<'_>)
    ensures
        node_tree(r) == json_content(*value),
        r is Object ==> distinct_names(r->Object_0@),
{
    match value {
        serde_json::Value::Null => JsonNode::Null,
        serde_json::Value::Bool(b) => JsonNode::Bool(*b),
        serde_json::Value::Number(n) => {
            let double = n.as_f64().map(|x| x.to_bits());
            JsonNode::Number(JsonNumber { unsigned: n.as_u64(), signed: n.as_i64(), double })
        },
        serde_json::Value::String(s) => JsonNode::Text(s.clone()),
        serde_json::Value::Array(v) => JsonNode::Array(v.iter().collect()),
        serde_json::Value::Object(m) => JsonNode::Object(
            m.iter().map(|m| (m.0.clone(), m.1)).collect(),
        ),
    }
}

/// A member of an opened object is found under its name.
proof fn lemma_content_members(s: Seq<(String, &serde_json::Value)>, i: int)
    requires
        distinct_names(s),
        0 <= i < s.len(),
    ensures
        content_members(s).dom().contains(s[i].0@),
        content_members(s)[s[i].0@] == json_content(*s[i].1),
    decreases s.len(),
{
    let front = s.drop_last();
    if i < s.len() - 1 {
        assert(front[i] == s[i]);
        assert forall|a: int, b: int| 0 <= a < b < front.len() implies #[trigger] front[a].0@
            != #[trigger] front[b].0@ by {
            assert(s[a].0@ != s[b].0@);
        }
        lemma_content_members(front, i);
        assert(s[i].0@ != s[s.len() - 1].0@);
    }
}

/// An opened object has finitely many members.
proof fn lemma_content_finite(s: Seq<(String, &serde_json::Value)>)
    ensures
        content_members(s).dom().finite(),
    decreases s.len(),
{
    if s.len() > 0 {
        lemma_content_finite(s.drop_last());
    }
}

/// The document as plain values.
fn json_of_value(value: &serde_json::Value) -> (r: Json)
    ensures
        r.tree() == json_content(*value),
    decreases json_content(*value),
{
    match open_value(value) {
        JsonNode::Null => Json::Null,
        JsonNode::Bool(b) => Json::Bool(b),
        JsonNode::Number(n) => Json::Number(n),
        JsonNode::Text(s) => Json::Text(s),
        JsonNode::Array(items) => {
            let ghost content = |x: &serde_json::Value| json_content(*x);
            let mut out: Vec<Json> = Vec::new();
            let mut i: usize = 0;
            while i < items.len()
                invariant
                    i <= items.len(),
                    content == (|x: &serde_json::Value| json_content(*x)),
                    json_content(*value) == JsonTree::Array(items@.map_values(content)),
                    item_trees(out@) == items@.take(i as int).map_values(content),
                decreases items.len() - i,
            {
                let ghost before = out@;
                assert(json_content(*value)->Array_0[i as int] == json_content(*items@[i as int]));
                let item = json_of_value(items[i]);
                out.push(item);
                i = i + 1;
                assert(out@.drop_last() =~= before);
                assert(item_trees(out@) =~= items@.take(i as int).map_values(content));
            }
            assert(items@.take(i as int) =~= items@);
            Json::Array(out)
        },
        JsonNode::Object(members) => {
            let mut out: Vec<(String, Json)> = Vec::new();
            let mut i: usize = 0;
            while i < members.len()
                invariant
                    i <= members.len(),
                    distinct_names(members@),
                    json_content(*value) == JsonTree::Object(content_members(members@)),
                    member_trees(out@) == content_members(members@.take(i as int)),
                decreases members.len() - i,
            {
                let ghost before = out@;
                proof {
                    lemma_content_members(members@, i as int);
                    lemma_content_finite(members@);
                    let whole = json_content(*value)->Object_0;
                    assert(decreases_to!(whole => whole[members@[i as int].0@]));
                }
                let item = json_of_value(members[i].1);
                out.push((members[i].0.clone(), item));
                i = i + 1;
                assert(out@.drop_last() =~= before);
                assert(members@.take(i as int).drop_last() =~= members@.take(i as int - 1));
            }
            assert(members@.take(i as int) =~= members@);
            Json::Object(out)
        },
    }
}

/// Reads a JSON document; nothing where the text is none.
pub fn parse_json(text: &str) -> (r: Option<Json>)
    ensures
        match r {
            Some(json) => json_text(text@) == Some(json.tree()),
            None => json_text(text@) is None,
        },
{
    match parse_value(text) {
        Some(value) => Some(json_of_value(&value)),
        None => None,
    }
}

/// The IEEE 754 binary64 pattern that `serde_json::Number::as_f64` gives of an integer.
pub uninterp spec fn rounded(n: int) -> u64;

/// The text that `serde_json::to_string` writes for a document.
pub uninterp spec fn json_printed(tree: JsonTree) -> Seq<char>;

/// An integer as a JSON number.
pub open spec fn whole_number(n: int, double: u64) -> JsonNumber {
    JsonNumber {
        unsigned: if 0 <= n <= u64::MAX {
            Some(n as u64)
        } else {
            None
        },
        signed: if i64::MIN <= n <= i64::MAX {
            Some(n as i64)
        } else {
            None
        },
        double: Some(double),
    }
}

/// What a list of documents holds.
pub open spec fn item_contents(s: Seq<serde_json::Value>) -> Seq<JsonTree> {
    s.map_values(|x: serde_json::Value| json_content(x))
}

/// What a list of named documents holds.
pub open spec fn member_contents(s: Seq<(String, serde_json::Value)>) -> Map<Seq<char>, JsonTree>
    decreases s.len(),
{
    if s.len() == 0 {
        Map::empty()
    } else {
        member_contents(s.drop_last()).insert(s.last().0@, json_content(s.last().1))
    }
}

/// No two named documents have one name.
pub open spec fn distinct_members(s: Seq<(String, serde_json::Value)>) -> bool {
    forall|i: int, j: int| 0 <= i < j < s.len() ==> #[trigger] s[i].0@ != #[trigger] s[j].0@
}

/// `serde_json::Value::from` on a `String`: a JSON string with these characters.
#[verifier::external_body]
pub(crate) fn text_value(text: String) -> (r: serde_json::Value)
    ensures
        json_content(r) == JsonTree::Text(text@),
{
    serde_json::Value::from(text)
}

/// `serde_json::Value::from` on a `bool`: the JSON literal for it.
#[verifier::external_body]
pub(crate) fn bool_value(b: bool) -> (r: serde_json::Value)
    ensures
        json_content(r) == JsonTree::Bool(b),
{
    serde_json::Value::from(b)
}

/// `serde_json::Value::from` on an `i64`: a JSON number, which is kept as this integer.
#[verifier::external_body]
pub(crate) fn signed_value(n: i64) -> (r: serde_json::Value)
    ensures
        json_content(r) == JsonTree::Number(whole_number(n as int, rounded(n as int))),
{
    serde_json::Value::from(n)
}

/// `serde_json::Value::from` on a `u64`: a JSON number, which is kept as this integer.
#[verifier::external_body]
pub(crate) fn unsigned_value(n: u64) -> (r: serde_json::Value)
    ensures
        json_content(r) == JsonTree::Number(whole_number(n as int, rounded(n as int))),
{
    serde_json::Value::from(n)
}

/// `serde_json::to_value` on a list of documents: a JSON array of them, in order. That never
/// fails.
#[verifier::external_body]
pub(crate) fn array_value(items: Vec<serde_json::Value>) -> (r: Option<serde_json::Value>)
    ensures
        r is Some,
        json_content(r->0) == JsonTree::Array(item_contents(items@)),
{
    serde_json::to_value(items).ok()
}

/// `serde_json::to_value` on a map of documents: a JSON object with them as its members. That
/// never fails.
#[verifier::external_body]
pub(crate) fn object_value(members: Vec<(String, serde_json::Value)>) -> (r: Option<
    serde_json::Value,
>)
    requires
        distinct_members(members@),
    ensures
        r is Some,
        json_content(r->0) == JsonTree::Object(member_contents(members@)),
{
    serde_json::to_value(
        members.into_iter().collect::<std::collections::HashMap<String, serde_json::Value>>(),
    ).ok()
}

/// `serde_json::to_string` on a document: writes it out, which never fails.
///
/// The text depends on what the document holds alone, members being written in the order of
/// their names: `json_printed` names it. Nothing is said of the text itself.
#[verifier::external_body]
pub(crate) fn print_value(value: &serde_json::Value) -> (r: Option<String>)
    ensures
        r is Some,
        r->0@ == json_printed(json_content(*value)),
{
    serde_json::to_string(value).ok()
}

/// A named document that takes the place of another with its name changes what is under that
/// name.
proof fn lemma_member_replaced(s: Seq<(String, serde_json::Value)>, i: int, value: serde_json::Value)
    requires
        distinct_members(s),
        0 <= i < s.len(),
    ensures
        distinct_members(s.update(i, (s[i].0, value))),
        member_contents(s.update(i, (s[i].0, value))) == member_contents(s).insert(
            s[i].0@,
            json_content(value),
        ),
    decreases s.len(),
{
    let t = s.update(i, (s[i].0, value));
    assert forall|a: int, b: int| 0 <= a < b < t.len() implies #[trigger] t[a].0@
        != #[trigger] t[b].0@ by {
        assert(s[a].0@ != s[b].0@);
    }
    let front = s.drop_last();
    if i < s.len() - 1 {
        assert forall|a: int, b: int| 0 <= a < b < front.len() implies #[trigger] front[a].0@
            != #[trigger] front[b].0@ by {
            assert(s[a].0@ != s[b].0@);
        }
        lemma_member_replaced(front, i, value);
        assert(t.drop_last() =~= front.update(i, (front[i].0, value)));
        assert(s[i].0@ != s[s.len() - 1].0@);
        assert(member_contents(t) =~= member_contents(s).insert(s[i].0@, json_content(value)));
    } else {
        assert(t.drop_last() =~= front);
        assert(member_contents(t) =~= member_contents(s).insert(s[i].0@, json_content(value)));
    }
}

/// Puts a named document in a list, in the place of one that has its name.
pub(crate) fn set_member(
    members: &mut Vec<(String, serde_json::Value)>,
    name: String,
    value: serde_json::Value,
)
    requires
        distinct_members(old(members)@),
    ensures
        distinct_members(final(members)@),
        member_contents(final(members)@) == member_contents(old(members)@).insert(
            name@,
            json_content(value),
        ),
{
    let ghost before = members@;
    let mut i: usize = 0;
    while i < members.len()
        invariant
            i <= members.len(),
            members@ == before,
            forall|j: int| 0 <= j < i ==> (#[trigger] before[j]).0@ != name@,
        ensures
            i < members.len() ==> before[i as int].0@ == name@,
        decreases members.len() - i,
    {
        if same_text(members[i].0.as_str(), name.as_str()) {
            break;
        }
        i = i + 1;
    }
    if i < members.len() {
        proof {
            lemma_member_replaced(before, i as int, value);
        }
        let kept = members[i].0.clone();
        members.set(i, (kept, value));
    } else {
        members.push((name, value));
        assert(members@.drop_last() =~= before);
    }
}

/// A value is found under a name in an object that has this member, and nowhere else.
pub proof fn lemma_members(tree: JsonTree, name: Seq<char>, found: JsonTree)
    ensures
        member(Some(tree), name) == Some(found) <==> (tree matches JsonTree::Object(members)
            && members.dom().contains(name) && members[name] == found),
        member(None, name) is None,
{
}

/// A value is found at an index in an array that has it there, and nowhere else.
pub proof fn lemma_elements(tree: JsonTree, index: int, found: JsonTree)
    ensures
        element(Some(tree), index) == Some(found) <==> (tree matches JsonTree::Array(items) && 0
            <= index < items.len() && items[index] == found),
        element(None, index) is None,
{
}

/// Numbers answer what they are, as an unsigned integer and in binary64; strings are their
/// characters; no other value is a number or a string.
pub proof fn lemma_leaves(tree: JsonTree, n: u64, s: Seq<char>)
    ensures
        whole(Some(tree)) == Some(n) <==> (tree matches JsonTree::Number(k) && k.unsigned == Some(
            n,
        )),
        double(Some(tree)) == Some(n) <==> (tree matches JsonTree::Number(k) && k.double == Some(
            n,
        )),
        text(Some(tree)) == Some(s) <==> (tree matches JsonTree::Text(t) && t == s),
        whole(None) is None,
        double(None) is None,
        text(None) is None,
{
}

/// The numbers among some values are those of its parts, one after the other; a value alone
/// gives its number, or none. Where all values are numbers, each has its place.
pub proof fn lemma_numbers_in_order(a: Seq<JsonTree>, b: Seq<JsonTree>)
    ensures
        doubles(a + b) == doubles(a) + doubles(b),
        forall|tree: JsonTree|
            (tree matches JsonTree::Number(k) && k.double is Some ==> #[trigger] doubles(
                seq![tree],
            ) == seq![tree->Number_0.double->0]) && (!(tree matches JsonTree::Number(k)
                && k.double is Some) ==> doubles(seq![tree]).len() == 0),
        (forall|i: int|
            0 <= i < a.len() ==> (#[trigger] a[i]) is Number && a[i]->Number_0.double is Some)
            ==> doubles(a).len() == a.len() && forall|i: int|
            0 <= i < a.len() ==> Some(#[trigger] doubles(a)[i]) == a[i]->Number_0.double,
    decreases b.len(), a.len(),
{
    assert forall|tree: JsonTree|
        (tree matches JsonTree::Number(k) && k.double is Some ==> #[trigger] doubles(seq![tree])
            == seq![tree->Number_0.double->0]) && (!(tree matches JsonTree::Number(k) && k.double
            is Some) ==> doubles(seq![tree]).len() == 0) by {
        let front = seq![tree].drop_last();
        assert(front.len() == 0);
        assert(doubles(front) =~= Seq::empty());
        if tree is Number && tree->Number_0.double is Some {
            assert(doubles(seq![tree]) =~= seq![tree->Number_0.double->0]);
        }
    }
    if b.len() > 0 {
        lemma_numbers_in_order(a, b.drop_last());
        assert((a + b).drop_last() =~= a + b.drop_last());
        assert(doubles(a + b) =~= doubles(a) + doubles(b));
    } else {
        assert(a + b =~= a);
        assert(doubles(a) + doubles(b) =~= doubles(a));
        if a.len() > 0 {
            let front = a.drop_last();
            lemma_numbers_in_order(front, b);
            if forall|i: int|
                0 <= i < a.len() ==> (#[trigger] a[i]) is Number && a[i]->Number_0.double
                    is Some {
                assert forall|i: int| 0 <= i < front.len() implies (
                #[trigger] front[i]) is Number && front[i]->Number_0.double is Some by {
                    assert(a[i] is Number && a[i]->Number_0.double is Some);
                }
                assert(a[a.len() - 1] is Number);
                assert forall|i: int| 0 <= i < a.len() implies Some(#[trigger] doubles(a)[i])
                    == a[i]->Number_0.double by {
                    if i < front.len() {
                        assert(doubles(a)[i] == doubles(front)[i]);
                        assert(front[i] == a[i]);
                    }
                }
            }
        }
    }
}

/// A value holds what its variant says; arrays hold their items in place, and objects what the
/// last member of each name holds.
pub proof fn lemma_trees(
    b: bool,
    n: JsonNumber,
    s: String,
    items: Vec<Json>,
    members: Vec<(String, Json)>,
    name: Seq<char>,
)
    ensures
        Json::Null.tree() == JsonTree::Null,
        Json::Bool(b).tree() == JsonTree::Bool(b),
        Json::Number(n).tree() == JsonTree::Number(n),
        Json::Text(s).tree() == JsonTree::Text(s@),
        Json::Array(items).tree() matches JsonTree::Array(t) && t.len() == items@.len()
            && forall|i: int| 0 <= i < t.len() ==> #[trigger] t[i] == items@[i].tree(),
        Json::Object(members).tree() matches JsonTree::Object(t) && (t.dom().contains(name)
            <==> exists|i: int| 0 <= i < members@.len() && (#[trigger] members@[i]).0@ == name)
            && forall|i: int|
            0 <= i < members@.len() && (#[trigger] members@[i]).0@ == name && (forall|j: int|
                i < j < members@.len() ==> (#[trigger] members@[j]).0@ != name) ==> t[name]
                == members@[i].1.tree(),
{
    lemma_item_trees(items@);
    lemma_member_trees(members@, name);
}

proof fn lemma_member_trees(s: Seq<(String, Json)>, name: Seq<char>)
    ensures
        member_trees(s).dom().contains(name) <==> exists|i: int|
            0 <= i < s.len() && (#[trigger] s[i]).0@ == name,
        forall|i: int|
            0 <= i < s.len() && (#[trigger] s[i]).0@ == name && (forall|j: int|
                i < j < s.len() ==> (#[trigger] s[j]).0@ != name) ==> member_trees(s)[name]
                == s[i].1.tree(),
    decreases s.len(),
{
    if s.len() > 0 {
        let front = s.drop_last();
        let n = s.len() - 1;
        lemma_member_trees(front, name);
        assert(forall|i: int| 0 <= i < n ==> front[i] == #[trigger] s[i]);
        if exists|i: int| 0 <= i < s.len() && (#[trigger] s[i]).0@ == name {
            let i = choose|i: int| 0 <= i < s.len() && (#[trigger] s[i]).0@ == name;
            if i < n {
                assert(front[i].0@ == name);
            }
        }
        if member_trees(front).dom().contains(name) {
            let i = choose|i: int| 0 <= i < front.len() && (#[trigger] front[i]).0@ == name;
            assert(s[i].0@ == name);
        }
        assert forall|i: int|
            0 <= i < s.len() && (#[trigger] s[i]).0@ == name && (forall|j: int|
                i < j < s.len() ==> (#[trigger] s[j]).0@ != name) implies member_trees(s)[name]
            == s[i].1.tree() by {
            if i < n {
                assert(front[i].0@ == name);
                assert(s[n].0@ != name);
                assert forall|j: int| i < j < front.len() implies (
                #[trigger] front[j]).0@ != name by {
                    assert(s[j].0@ != name);
                }
            }
        }
    }
}

/// One level of a document says its variant and what it holds.
pub(crate) proof fn lemma_nodes(
    b: bool,
    n: JsonNumber,
    s: String,
    items: Vec<&serde_json::Value>,
    members: Vec<(String, &serde_json::Value)>,
)
    ensures
        node_tree(JsonNode::Null) == JsonTree::Null,
        node_tree(JsonNode::Bool(b)) == JsonTree::Bool(b),
        node_tree(JsonNode::Number(n)) == JsonTree::Number(n),
        node_tree(JsonNode::Text(s)) == JsonTree::Text(s@),
        node_tree(JsonNode::Array(items)) matches JsonTree::Array(t) && t.len() == items@.len()
            && forall|i: int| 0 <= i < t.len() ==> #[trigger] t[i] == json_content(*items@[i]),
        distinct_names(members@) ==> (node_tree(JsonNode::Object(members)) matches JsonTree::Object(
            t,
        ) && forall|i: int|
            0 <= i < members@.len() ==> t.dom().contains((#[trigger] members@[i]).0@)
                && t[members@[i].0@] == json_content(*members@[i].1)),
{
    if distinct_names(members@) {
        assert forall|i: int| 0 <= i < members@.len() implies content_members(
            members@,
        ).dom().contains((#[trigger] members@[i]).0@) && content_members(
            members@,
        )[members@[i].0@] == json_content(*members@[i].1) by {
            lemma_content_members(members@, i);
        }
    }
}

/// An integer answers itself, signed and unsigned, as far as it fits.
pub proof fn lemma_integers(n: int, double: u64)
    ensures
        0 <= n <= u64::MAX ==> whole_number(n, double).unsigned == Some(n as u64),
        !(0 <= n <= u64::MAX) ==> whole_number(n, double).unsigned is None,
        i64::MIN <= n <= i64::MAX ==> whole_number(n, double).signed == Some(n as i64),
        !(i64::MIN <= n <= i64::MAX) ==> whole_number(n, double).signed is None,
        whole_number(n, double).double == Some(double),
{
}

} // verus!
