//! The sender and session marks in the JSON of a relayed message.
use vstd::prelude::*;
use crate::number;

verus! {

// ---------------------------------------------------------------------------
// Outside calls
// ---------------------------------------------------------------------------
/// `serde_json::Value`, carried through unread.
#[verifier::external_type_specification]
#[verifier::external_body]
pub struct ExJsonValue(serde_json::Value);

/// `serde_json::Map`, the members of a JSON object.
#[verifier::external_type_specification]
#[verifier::external_body]
#[verifier::reject_recursive_types(K)]
#[verifier::reject_recursive_types(V)]
pub struct ExJsonMap<K, V>(serde_json::Map<K, V>);

/// A JSON object.
pub type JsonObject = serde_json::Map<String, serde_json::Value>;

/// The members of an object, each value by its compact JSON text.
pub uninterp spec fn json_members(object: JsonObject) -> Map<Seq<char>, Seq<char>>;

/// The members of the object that a JSON text writes; none where it writes no
/// object.
pub uninterp spec fn json_contents(raw: Seq<char>) -> Option<Map<Seq<char>, Seq<char>>>;

/// The JSON text of a string.
pub uninterp spec fn json_string(s: Seq<char>) -> Seq<char>;

/// The string that a compact JSON text writes; none where it is no string.
pub uninterp spec fn json_string_value(value: Seq<char>) -> Option<Seq<char>>;

/// The compact JSON text of an object with the given members.
pub uninterp spec fn json_object_text(members: Map<Seq<char>, Seq<char>>) -> Seq<char>;

/// `serde_json::from_str`, into a `Value` that is an object: the members that
/// the text writes, none where the text is not JSON or writes no object.
#[verifier::external_body]
fn parse_object(raw: &str) -> (r: Option<JsonObject>)
    ensures
        match r {
            Some(object) => json_contents(raw@) == Some(json_members(object)),
            None => json_contents(raw@) is None,
        },
{
    match serde_json::from_str::<serde_json::Value>(raw) {
        Ok(serde_json::Value::Object(object)) => Some(object),
        _ => None,
    }
}

/// `Map::get` of serde_json, and `Value::as_str` on what it finds: none where
/// the object has no such member, `Some(None)` where the member is no string.
#[verifier::external_body]
fn member_text(object: &JsonObject, key: &str) -> (r: Option<Option<String>>)
    ensures
        match r {
            Some(value) => json_members(*object).contains_key(key@) && match value {
                Some(s) => json_string_value(json_members(*object)[key@]) == Some(s@),
                None => json_string_value(json_members(*object)[key@]) is None,
            },
            None => !json_members(*object).contains_key(key@),
        },
{
    object.get(key).map(|value| value.as_str().map(str::to_owned))
}

/// `Map::insert` of serde_json with a `Value::String`: sets the member, which
/// then reads as the string.
#[verifier::external_body]
fn set_text(object: &mut JsonObject, key: &str, value: &str)
    ensures
        json_members(*final(object)) == json_members(*old(object)).insert(
            key@,
            json_string(value@),
        ),
        json_string_value(json_members(*final(object))[key@]) == Some(value@),
{
    object.insert(key.to_owned(), serde_json::Value::String(value.to_owned()));
}

/// `Map::insert` of serde_json with a `Value` made from a `u64`: sets the member,
/// whose JSON text is the number in base ten.
#[verifier::external_body]
fn set_number(object: &mut JsonObject, key: &str, value: u64)
    ensures
        json_members(*final(object)) == json_members(*old(object)).insert(
            key@,
            number::decimal(value as nat),
        ),
{
    object.insert(key.to_owned(), serde_json::Value::from(value));
}

/// Where the text can be parsed, it has the given members, with the same
/// strings and unsigned numbers.
pub open spec fn reads_back(raw: Seq<char>, members: Map<Seq<char>, Seq<char>>) -> bool {
    json_contents(raw) matches Some(read) ==> {
        &&& read.dom() == members.dom()
        &&& forall|k: Seq<char>| #[trigger]
            read.contains_key(k) && json_string_value(members[k]) is Some ==> read[k] == members[k]
        &&& forall|k: Seq<char>, n: u64| #[trigger]
            read.contains_key(k) && members[k] == #[trigger] number::decimal(n as nat) ==> read[k]
                == members[k]
    }
}

/// `serde_json::to_string` on an object, which does not fail: the object's text.
/// Where the text can be parsed again (it may be nested too deeply), the same
/// members come back, with strings and unsigned numbers as they were.
#[verifier::external_body]
fn render(object: &JsonObject) -> (r: Option<String>)
    ensures
        r is Some,
        r->0@ == json_object_text(json_members(*object)),
        reads_back(r->0@, json_members(*object)),
{
    serde_json::to_string(object).ok()
}

// ---------------------------------------------------------------------------
// The sender
// ---------------------------------------------------------------------------
/// The member of an object with the given name, as a string if it is one.
pub open spec fn text_member(
    members: Map<Seq<char>, Seq<char>>,
    key: Seq<char>,
) -> Option<Option<Seq<char>>> {
    if members.contains_key(key) {
        Some(json_string_value(members[key]))
    } else {
        None
    }
}

/// The sender that `from` or else `clientId` names. A `from` that is no string
/// hides `clientId`.
pub open spec fn sender_of(
    from: Option<Option<Seq<char>>>,
    client_id: Option<Option<Seq<char>>>,
) -> Option<Seq<char>> {
    match from {
        Some(value) => value,
        None => match client_id {
            Some(value) => value,
            None => None,
        },
    }
}

/// The sender that the JSON text of a message names.
pub open spec fn json_sender(raw: Seq<char>) -> Option<Seq<char>> {
    match json_contents(raw) {
        Some(members) => sender_of(
            text_member(members, "from"@),
            text_member(members, "clientId"@),
        ),
        None => None,
    }
}

/// The sender that `from` or else `clientId` names, given what each holds.
pub fn choose_sender(from: Option<Option<String>>, client_id: Option<Option<String>>) -> (r: Option<
    String,
>)
    ensures
        match r {
            Some(sender) => match from {
                Some(value) => value == Some(sender),
                None => client_id == Some(Some(sender)),
            },
            None => match from {
                Some(value) => value is None,
                None => client_id is None || client_id->0 is None,
            },
        },
{
    match from {
        Some(value) => value,
        None => match client_id {
            Some(value) => value,
            None => None,
        },
    }
}

/// The sender that the JSON text of a message names.
pub fn json_sender_id(raw: &str) -> (r: Option<String>)
    ensures
        match r {
            Some(sender) => json_sender(raw@) == Some(sender@),
            None => json_sender(raw@) is None,
        },
{
    match parse_object(raw) {
        Some(object) => choose_sender(
            member_text(&object, "from"),
            member_text(&object, "clientId"),
        ),
        None => None,
    }
}

// ---------------------------------------------------------------------------
// The session marks
// ---------------------------------------------------------------------------
/// The members with the sender and its session written in: `from` and `clientId`
/// where the message has them, and `sessionGeneration`.
pub open spec fn with_metadata(
    members: Map<Seq<char>, Seq<char>>,
    sender_id: Seq<char>,
    generation: u64,
) -> Map<Seq<char>, Seq<char>> {
    let with_from = if members.contains_key("from"@) {
        members.insert("from"@, json_string(sender_id))
    } else {
        members
    };
    let with_client = if members.contains_key("clientId"@) {
        with_from.insert("clientId"@, json_string(sender_id))
    } else {
        with_from
    };
    with_client.insert("sessionGeneration"@, number::decimal(generation as nat))
}

/// The JSON text with the sender and its session written in. A text that writes
/// no object stays as it is.
pub open spec fn stamped(raw: Seq<char>, sender_id: Seq<char>, generation: u64) -> Seq<char> {
    match json_contents(raw) {
        Some(members) => json_object_text(with_metadata(members, sender_id, generation)),
        None => raw,
    }
}

/// Where a stamped message can be read, it names the given sender and session:
/// whatever the client wrote there is gone.
pub open spec fn names_session(raw: Seq<char>, sender_id: Seq<char>, generation: u64) -> bool {
    json_contents(raw) matches Some(read) ==> {
        &&& read.contains_key("from"@) ==> json_string_value(read["from"@]) == Some(sender_id)
        &&& read.contains_key("clientId"@) ==> json_string_value(read["clientId"@]) == Some(
            sender_id,
        )
        &&& read.contains_key("sessionGeneration"@)
        &&& read["sessionGeneration"@] == number::decimal(generation as nat)
    }
}

/// Writes the sender and its session into an object.
pub fn stamp_object(object: &mut JsonObject, sender_id: &str, generation: u64)
    ensures
        json_members(*final(object)) == with_metadata(
            json_members(*old(object)),
            sender_id@,
            generation,
        ),
        json_members(*final(object)).contains_key("from"@) ==> json_string_value(
            json_members(*final(object))["from"@],
        ) == Some(sender_id@),
        json_members(*final(object)).contains_key("clientId"@) ==> json_string_value(
            json_members(*final(object))["clientId"@],
        ) == Some(sender_id@),
{
    proof {
        reveal_strlit("from");
        reveal_strlit("clientId");
        reveal_strlit("sessionGeneration");
        assert("from"@.len() != "clientId"@.len());
        assert("from"@.len() != "sessionGeneration"@.len());
        assert("clientId"@.len() != "sessionGeneration"@.len());
    }
    let has_from = member_text(object, "from").is_some();
    let has_client_id = member_text(object, "clientId").is_some();
    if has_from {
        set_text(object, "from", sender_id);
    }
    if has_client_id {
        set_text(object, "clientId", sender_id);
    }
    set_number(object, "sessionGeneration", generation);
}

/// Writes the authenticated sender and its session into the JSON text of a
/// message.
pub fn inject_session_metadata(raw: String, sender_id: &str, generation: u64) -> (r: String)
    ensures
        r@ == stamped(raw@, sender_id@, generation),
        json_contents(raw@) is Some ==> names_session(r@, sender_id@, generation),
{
    match parse_object(raw.as_str()) {
        Some(mut object) => {
            stamp_object(&mut object, sender_id, generation);
            match render(&object) {
                Some(out) => out,
                None => raw,
            }
        },
        None => raw,
    }
}

} // verus!
