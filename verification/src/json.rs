use serde_json::Error as JsonError;
use vstd::prelude::*;

use crate::text::same_text;

verus! {

#[verifier::external_type_specification]
#[verifier::external_body]
pub struct ExJsonValue(serde_json::Value);

#[verifier::external_type_specification]
#[verifier::external_body]
pub struct ExJsonNumber(serde_json::Number);

#[verifier::external_type_specification]
#[verifier::external_body]
pub struct ExJsonError(JsonError);

/// A JSON document. Where an object names a member twice, the later one counts.
pub enum Json {
    Null,
    Bool(bool),
    Number(serde_json::Number),
    Text(String),
    List(Vec<Json>),
    Object(Vec<(String, Json)>),
}

/// What a JSON document says.
pub enum JsonView {
    Null,
    Bool(bool),
    Number(serde_json::Number),
    Text(Seq<char>),
    List(Seq<JsonView>),
    Object(Map<Seq<char>, JsonView>),
}

/// What the items of a list say.
pub open spec fn items_view(items: Seq<Json>) -> Seq<JsonView>
    decreases items,
{
    if items.len() == 0 {
        Seq::empty()
    } else {
        items_view(items.drop_last()).push(items.last()@)
    }
}

/// What the members of an object say.
pub open spec fn members_view(members: Seq<(String, Json)>) -> Map<Seq<char>, JsonView>
    decreases members,
{
    if members.len() == 0 {
        Map::empty()
    } else {
        members_view(members.drop_last()).insert(members.last().0@, members.last().1@)
    }
}

impl Json {
    pub open spec fn view(&self) -> JsonView
        decreases self,
    {
        match self {
            Json::Null => JsonView::Null,
            Json::Bool(b) => JsonView::Bool(*b),
            Json::Number(n) => JsonView::Number(*n),
            Json::Text(s) => JsonView::Text(s@),
            Json::List(items) => JsonView::List(items_view(items@)),
            Json::Object(members) => JsonView::Object(members_view(members@)),
        }
    }
}

/// What a parsed value holds.
pub uninterp spec fn json_contents(value: serde_json::Value) -> JsonView;

/// The document that a text holds; none where it is no JSON.
pub uninterp spec fn json_parsed(bytes: Seq<u8>) -> Option<JsonView>;

/// The bytes that a document is written as.
pub uninterp spec fn json_rendered(document: JsonView) -> Seq<u8>;

/// Whether a document is an object whose members are all texts, none of them under a name that
/// starts with `$`.
pub open spec fn is_text_record(document: JsonView) -> bool {
    document matches JsonView::Object(members) && forall|key: Seq<char>|
        members.contains_key(key) ==> (#[trigger] members[key]) is Text && key.len() > 0 && key[0]
            != '$'
}

/// Parses JSON, by `serde_json::from_slice`.
///
/// Trusted: the outcome is a function of the bytes.
#[verifier::external_body]
pub(crate) fn json_value(bytes: &[u8]) -> (value: Result<serde_json::Value, serde_json::Error>)
    ensures
        match value {
            Ok(v) => json_parsed(bytes@) == Some(json_contents(v)),
            Err(_) => json_parsed(bytes@) is None,
        },
{
    serde_json::from_slice(bytes)
}

/// The document that a `serde_json::Value` holds.
///
/// Trusted: the value is taken over part by part.
#[verifier::external_body]
pub(crate) fn json_tree(value: serde_json::Value) -> (tree: Json)
    ensures
        tree@ == json_contents(value),
{
    match value {
        serde_json::Value::Null => Json::Null,
        serde_json::Value::Bool(b) => Json::Bool(b),
        serde_json::Value::Number(n) => Json::Number(n),
        serde_json::Value::String(s) => Json::Text(s),
        serde_json::Value::Array(a) => Json::List(a.into_iter().map(json_tree).collect()),
        serde_json::Value::Object(o) => {
            Json::Object(o.into_iter().map(|(k, v)| (k, json_tree(v))).collect())
        },
    }
}

/// The `serde_json::Value` that holds a document.
///
/// Trusted: the value holds the same document; of two members with one name it keeps the later.
#[verifier::external_body]
pub(crate) fn json_build(tree: &Json) -> (value: serde_json::Value)
    ensures
        json_contents(value) == tree@,
{
    match tree {
        Json::Null => serde_json::Value::Null,
        Json::Bool(b) => serde_json::Value::Bool(*b),
        Json::Number(n) => serde_json::Value::Number(n.clone()),
        Json::Text(s) => serde_json::Value::String(s.clone()),
        Json::List(a) => serde_json::Value::Array(a.iter().map(json_build).collect()),
        Json::Object(o) => {
            serde_json::Value::Object(o.iter().map(|(k, v)| (k.clone(), json_build(v))).collect())
        },
    }
}

/// Writes a value down, by `serde_json::to_vec`.
///
/// Trusted: the bytes are a function of what the value holds, for a value keeps the members of
/// an object sorted by name. A record of texts is read back as it was written, but for the names
/// that start with `$`: under some of them `serde_json` keeps values of its own. Writing a value
/// to memory does not fail.
#[verifier::external_body]
pub(crate) fn json_bytes(value: &serde_json::Value) -> (bytes: Result<Vec<u8>, serde_json::Error>)
    ensures
        bytes is Ok,
        bytes matches Ok(b) ==> b@ == json_rendered(json_contents(*value)) && (is_text_record(
            json_contents(*value),
        ) ==> json_parsed(b@) == Some(json_contents(*value))),
{
    serde_json::to_vec(value)
}

/// Parses a JSON document.
pub fn parse_json(bytes: &[u8]) -> (document: Result<Json, serde_json::Error>)
    ensures
        match document {
            Ok(d) => json_parsed(bytes@) == Some(d@),
            Err(_) => json_parsed(bytes@) is None,
        },
{
    match json_value(bytes) {
        Ok(value) => Ok(json_tree(value)),
        Err(error) => Err(error),
    }
}

/// Writes a JSON document down.
pub(crate) fn render_json(document: &Json) -> (bytes: Result<Vec<u8>, serde_json::Error>)
    ensures
        bytes matches Ok(b) && b@ == json_rendered(document@) && (is_text_record(document@)
            ==> json_parsed(b@) == Some(document@)),
{
    let value = json_build(document);
    json_bytes(&value)
}

/// The member of an object; none where the document is no object or has no such member.
pub open spec fn member(document: JsonView, key: Seq<char>) -> Option<JsonView> {
    match document {
        JsonView::Object(members) => if members.contains_key(key) {
            Some(members[key])
        } else {
            None
        },
        _ => None,
    }
}

/// The text of a member; none where there is no such member or it is no text.
pub open spec fn text_member(document: JsonView, key: Seq<char>) -> Option<Seq<char>> {
    match member(document, key) {
        Some(JsonView::Text(text)) => Some(text),
        _ => None,
    }
}

/// The place of the member that counts for `key`.
fn find_member(members: &Vec<(String, Json)>, key: &str) -> (place: Option<usize>)
    ensures
        match place {
            Some(i) => i < members.len() && members@[i as int].0@ == key@ && members_view(
                members@,
            ).contains_key(key@) && members_view(members@)[key@] == members@[i as int].1@,
            None => !members_view(members@).contains_key(key@),
        },
{
    let mut i: usize = members.len();
    assert(members@.take(i as int) == members@);
    while i > 0
        invariant
            i <= members.len(),
            members_view(members@).contains_key(key@) == members_view(
                members@.take(i as int),
            ).contains_key(key@),
            members_view(members@).contains_key(key@) ==> members_view(members@)[key@]
                == members_view(members@.take(i as int))[key@],
        decreases i,
    {
        let ghost shorter = members@.take(i as int);
        assert(shorter.drop_last() == members@.take(i - 1));
        assert(shorter.last() == members@[i - 1]);
        if same_text(members[i - 1].0.as_str(), key) {
            return Some(i - 1);
        }
        i = i - 1;
    }
    None
}

impl Json {
    /// The member `key` of an object.
    pub fn get(&self, key: &str) -> (found: Option<&Json>)
        ensures
            match found {
                Some(value) => member(self@, key@) == Some(value@),
                None => member(self@, key@) is None,
            },
    {
        match self {
            Json::Object(members) => match find_member(members, key) {
                Some(i) => Some(&members[i].1),
                None => None,
            },
            _ => None,
        }
    }

    /// The text of the member `key` of an object.
    pub fn get_text(&self, key: &str) -> (found: Option<String>)
        ensures
            crate::text::text_of(found) == text_member(self@, key@),
    {
        match self.get(key) {
            Some(Json::Text(text)) => Some(text.clone()),
            _ => None,
        }
    }
}

proof fn lemma_remove_member(members: Seq<(String, Json)>, place: int, key: Seq<char>)
    requires
        0 <= place < members.len(),
        members[place].0@ == key,
    ensures
        forall|value: JsonView| #[trigger]
            members_view(members.remove(place)).insert(key, value) == members_view(members).insert(
                key,
                value,
            ),
    decreases members.len(),
{
    let removed = members.remove(place);
    if place == members.len() - 1 {
        assert(removed == members.drop_last());
    } else {
        lemma_remove_member(members.drop_last(), place, key);
        assert(removed.drop_last() == members.drop_last().remove(place));
        assert(removed.last() == members.last());
    }
    assert forall|value: JsonView| #[trigger]
        members_view(removed).insert(key, value) == members_view(members).insert(key, value) by {
        let shorter = members.drop_last();
        if place < members.len() - 1 {
            assert(members_view(shorter.remove(place)).insert(key, value) == members_view(
                shorter,
            ).insert(key, value));
            let last = members.last().0@;
            let said = members.last().1@;
            assert forall|k: Seq<char>| true implies members_view(removed).insert(
                key,
                value,
            ).contains_key(k) == members_view(members).insert(key, value).contains_key(k) by {
                assert(members_view(shorter.remove(place)).insert(key, value).contains_key(k)
                    == members_view(shorter).insert(key, value).contains_key(k));
            }
            assert forall|k: Seq<char>|
                members_view(removed).insert(key, value).contains_key(k) implies members_view(
                removed,
            ).insert(key, value)[k] == members_view(members).insert(key, value)[k] by {
                assert(members_view(shorter.remove(place)).insert(key, value)[k] == members_view(
                    shorter,
                ).insert(key, value)[k]);
            }
        }
        assert(members_view(removed).insert(key, value) =~= members_view(members).insert(
            key,
            value,
        ));
    }
}

/// Takes the member `key` out of an object, for another value to take its place.
pub fn take_member(members: &mut Vec<(String, Json)>, key: &str) -> (taken: Option<Json>)
    ensures
        match taken {
            Some(value) => members_view(old(members)@).contains_key(key@) && members_view(
                old(members)@,
            )[key@] == value@,
            None => !members_view(old(members)@).contains_key(key@),
        },
        forall|value: JsonView| #[trigger]
            members_view(final(members)@).insert(key@, value) == members_view(
                old(members)@,
            ).insert(key@, value),
{
    match find_member(members, key) {
        Some(i) => {
            proof {
                lemma_remove_member(members@, i as int, key@);
            }
            let (_, value) = members.remove(i);
            Some(value)
        },
        None => None,
    }
}

/// A list with one more item.
pub proof fn lemma_push_item(items: Seq<Json>, item: Json)
    ensures
        items_view(items.push(item)) == items_view(items).push(item@),
{
    assert(items.push(item).drop_last() == items);
}

/// An object with one more member.
pub proof fn lemma_push_member(members: Seq<(String, Json)>, key: String, value: Json)
    ensures
        members_view(members.push((key, value))) == members_view(members).insert(key@, value@),
{
    assert(members.push((key, value)).drop_last() == members);
}

} // verus!
