//! Decodes the message of the frontend into a request.

use vstd::prelude::*;
use vstd::string::*;
use crate::dispatch::{InvokeRequest, InvokeRequestView};
use crate::text::{str_eq, strs};

verus! {

/// What the bridge reads of a field of a message.
#[derive(Debug, Clone, PartialEq, Eq)]
pub enum Field {
    /// A string.
    Text(String),
    /// A boolean.
    Flag(bool),
    /// Any other value: a number, null, an array or an object.
    Other,
}

/// The mathematical value of a [`Field`].
pub enum FieldView {
    Text(Seq<char>),
    Flag(bool),
    Other,
}

impl View for Field {
    type V = FieldView;

    open spec fn view(&self) -> FieldView {
        match self {
            Field::Text(text) => FieldView::Text(text@),
            Field::Flag(flag) => FieldView::Flag(*flag),
            Field::Other => FieldView::Other,
        }
    }
}

/// A field of a message under its key.
#[derive(Debug, Clone, PartialEq, Eq)]
pub struct Member {
    pub key: String,
    pub value: Field,
}

/// The fields of an object by key. Where a key comes twice the later field
/// stands.
pub open spec fn object_map(members: Seq<Member>) -> Map<Seq<char>, FieldView>
    decreases members.len(),
{
    if members.len() == 0 {
        Map::empty()
    } else {
        object_map(members.drop_last()).insert(members.last().key@, members.last().value@)
    }
}

/// The fields of the JSON object that a text holds, as `serde_json::from_str`
/// reads it, or `None` for a text that is not JSON or not an object.
pub uninterp spec fn parsed_object(text: Seq<char>) -> Option<Map<Seq<char>, FieldView>>;

/// Parses a text with `serde_json::from_str` and hands out the fields of
/// the object it holds, each string and boolean with its value; `None`
/// where the parser reports an error or the value is no object. The fields
/// depend on the text alone.
#[verifier::external_body]
fn parse_object(text: &str) -> (r: Option<Vec<Member>>)
    ensures
        match r {
            Some(members) => parsed_object(text@) == Some(object_map(members@)),
            None => parsed_object(text@) is None,
        },
{
    match serde_json::from_str::<serde_json::Value>(text) {
        Ok(serde_json::Value::Object(map)) => Some(
            map.into_iter().map(|(key, value)| Member {
                key,
                value: match value {
                    serde_json::Value::String(text) => Field::Text(text),
                    serde_json::Value::Bool(flag) => Field::Flag(flag),
                    _ => Field::Other,
                },
            }).collect(),
        ),
        _ => None,
    }
}

/// The position of the field under `key`.
pub fn find_field(members: &Vec<Member>, key: &str) -> (r: Option<usize>)
    ensures
        match r {
            Some(i) => i < members@.len() && object_map(members@).contains_key(key@) && object_map(
                members@,
            )[key@] == members@[i as int].value@,
            None => !object_map(members@).contains_key(key@),
        },
{
    let mut i: usize = members.len();
    assert(members@.subrange(0, i as int) =~= members@);
    while i > 0
        invariant
            i <= members@.len(),
            object_map(members@).contains_key(key@) == object_map(
                members@.subrange(0, i as int),
            ).contains_key(key@),
            object_map(members@).contains_key(key@) ==> object_map(members@)[key@] == object_map(
                members@.subrange(0, i as int),
            )[key@],
        decreases i,
    {
        let ghost prefix = members@.subrange(0, i as int);
        assert(prefix.last() == members@[i - 1]);
        assert(prefix.drop_last() =~= members@.subrange(0, i - 1));
        i -= 1;
        if str_eq(members[i].key.as_str(), key) {
            return Some(i);
        }
    }
    None
}

/// The string under `key`, where the object has one there.
pub open spec fn text_of(object: Map<Seq<char>, FieldView>, key: Seq<char>) -> Option<Seq<char>> {
    if object.contains_key(key) && object[key] is Text {
        Some(object[key]->Text_0)
    } else {
        None
    }
}

/// Whether the object has the boolean `true` under `key`.
pub open spec fn flag_of(object: Map<Seq<char>, FieldView>, key: Seq<char>) -> bool {
    object.contains_key(key) && object[key] == FieldView::Flag(true)
}

/// The request that an object holds: its strings under `cmd`, `callback`
/// and `error`, all three required, and its boolean under `mainThread`,
/// taken as `false` where there is none.
pub open spec fn request_of(object: Map<Seq<char>, FieldView>) -> Option<InvokeRequestView> {
    if text_of(object, "cmd"@) is Some && text_of(object, "callback"@) is Some && text_of(
        object,
        "error"@,
    ) is Some {
        Some(
            InvokeRequestView {
                cmd: text_of(object, "cmd"@)->0,
                callback: text_of(object, "callback"@)->0,
                error: text_of(object, "error"@)->0,
                main_thread: flag_of(object, "mainThread"@),
            },
        )
    } else {
        None
    }
}

/// The request that a message holds.
pub open spec fn decoded(message: Seq<char>) -> Option<InvokeRequestView> {
    match parsed_object(message) {
        None => None,
        Some(object) => request_of(object),
    }
}

/// The string under `key`, where the fields have one there.
pub fn text_field(members: &Vec<Member>, key: &str) -> (r: Option<String>)
    ensures
        match r {
            Some(text) => text_of(object_map(members@), key@) == Some(text@),
            None => text_of(object_map(members@), key@) is None,
        },
{
    match find_field(members, key) {
        None => None,
        Some(i) => match &members[i].value {
            Field::Text(text) => Some(text.clone()),
            _ => None,
        },
    }
}

/// The boolean under `key`, where the fields have one there.
pub fn flag_field(members: &Vec<Member>, key: &str) -> (r: Option<bool>)
    ensures
        (r == Some(true)) == flag_of(object_map(members@), key@),
{
    match find_field(members, key) {
        None => None,
        Some(i) => match &members[i].value {
            Field::Flag(flag) => Some(*flag),
            _ => None,
        },
    }
}

/// Assembles a request from the fields of a message: the command and the
/// two callbacks are required, the main-thread flag is `false` where the
/// message has none.
pub fn request_from(
    cmd: Option<String>,
    callback: Option<String>,
    error: Option<String>,
    main_thread: Option<bool>,
) -> (r: Option<InvokeRequest>)
    ensures
        r is Some <==> cmd is Some && callback is Some && error is Some,
        r is Some ==> r->0 == (InvokeRequest {
            cmd: cmd->0,
            callback: callback->0,
            error: error->0,
            main_thread: main_thread == Some(true),
        }),
{
    match (cmd, callback, error) {
        (Some(cmd), Some(callback), Some(error)) => Some(
            InvokeRequest {
                cmd,
                callback,
                error,
                main_thread: match main_thread {
                    Some(flag) => flag,
                    None => false,
                },
            },
        ),
        _ => None,
    }
}

/// The request that the fields of a message hold.
pub fn request_of_fields(members: &Vec<Member>) -> (r: Option<InvokeRequest>)
    ensures
        match request_of(object_map(members@)) {
            Some(request) => r is Some && r->0@ == request,
            None => r is None,
        },
{
    request_from(
        text_field(members, "cmd"),
        text_field(members, "callback"),
        text_field(members, "error"),
        flag_field(members, "mainThread"),
    )
}

/// Decodes a message of the form
/// `{ cmd, callback, error, mainThread?, ... }`. `None` for a text that is
/// not a JSON object, or that lacks one of the three required strings.
pub fn decode_request(message: &str) -> (r: Option<InvokeRequest>)
    ensures
        match decoded(message@) {
            Some(request) => r is Some && r->0@ == request,
            None => r is None,
        },
{
    match parse_object(message) {
        None => None,
        Some(members) => request_of_fields(&members),
    }
}

/// The first of the keys, in order, that the object lacks.
pub open spec fn first_missing_key(object: Map<Seq<char>, FieldView>, keys: Seq<Seq<char>>) -> Option<
    Seq<char>,
>
    decreases keys.len(),
{
    if keys.len() == 0 {
        None
    } else {
        match first_missing_key(object, keys.drop_last()) {
            Some(key) => Some(key),
            None => if object.contains_key(keys.last()) {
                None
            } else {
                Some(keys.last())
            },
        }
    }
}

/// A key missed among the first `n` is the first one missed overall.
pub proof fn lemma_missing_stays(object: Map<Seq<char>, FieldView>, keys: Seq<Seq<char>>, n: int)
    requires
        0 <= n <= keys.len(),
        first_missing_key(object, keys.subrange(0, n)) is Some,
    ensures
        first_missing_key(object, keys) == first_missing_key(object, keys.subrange(0, n)),
    decreases keys.len() - n,
{
    if n == keys.len() {
        assert(keys.subrange(0, n) =~= keys);
    } else {
        assert(keys.subrange(0, n + 1).drop_last() =~= keys.subrange(0, n));
        lemma_missing_stays(object, keys, n + 1);
    }
}

/// The first of the keys that the fields lack.
pub fn missing_field(members: &Vec<Member>, keys: &Vec<String>) -> (r: Option<String>)
    ensures
        match first_missing_key(object_map(members@), strs(keys@)) {
            Some(key) => r is Some && r->0@ == key,
            None => r is None,
        },
{
    let ghost all = strs(keys@);
    let mut i: usize = 0;
    assert(all.subrange(0, 0) =~= Seq::<Seq<char>>::empty());
    while i < keys.len()
        invariant
            i <= keys.len(),
            all == strs(keys@),
            first_missing_key(object_map(members@), all.subrange(0, i as int)) is None,
        decreases keys.len() - i,
    {
        let ghost next = all.subrange(0, i + 1);
        assert(next.drop_last() =~= all.subrange(0, i as int));
        assert(next.last() == keys@[i as int]@);
        if find_field(members, keys[i].as_str()).is_none() {
            proof {
                lemma_missing_stays(object_map(members@), all, i + 1);
            }
            return Some(keys[i].clone());
        }
        i += 1;
    }
    assert(all.subrange(0, i as int) =~= all);
    None
}

/// The first of the keys that a message lacks; `None` where it has them
/// all, and also where the text is no JSON object.
pub open spec fn missing_in(message: Seq<char>, keys: Seq<Seq<char>>) -> Option<Seq<char>> {
    match parsed_object(message) {
        None => None,
        Some(object) => first_missing_key(object, keys),
    }
}

/// The key of the first argument that the message lacks.
pub fn missing_argument(message: &str, keys: &Vec<String>) -> (r: Option<String>)
    ensures
        match missing_in(message@, strs(keys@)) {
            Some(key) => r is Some && r->0@ == key,
            None => r is None,
        },
{
    match parse_object(message) {
        None => None,
        Some(members) => missing_field(&members, keys),
    }
}

} // verus!
