use vstd::prelude::*;

use crate::text::byte_views;

verus! {

/// A member value handed to serde_json when an object is built.
#[derive(Debug, Clone)]
pub enum JsonPiece {
    /// `null`.
    Null,
    /// `true` or `false`.
    Bool(bool),
    /// A whole number.
    Integer(i64),
    /// A whole number that may exceed `i64`.
    Unsigned(u64),
    /// A string, which serde_json escapes.
    Text(String),
    /// The JSON value that these bytes parse to (`null` if they do not parse).
    Raw(Vec<u8>),
}

/// The view of a [`JsonPiece`].
pub enum PieceView {
    Null,
    Bool(bool),
    Integer(int),
    Text(Seq<char>),
    Raw(Seq<u8>),
}

impl View for JsonPiece {
    type V = PieceView;

    open spec fn view(&self) -> PieceView {
        match self {
            JsonPiece::Null => PieceView::Null,
            JsonPiece::Bool(b) => PieceView::Bool(*b),
            JsonPiece::Integer(n) => PieceView::Integer(*n as int),
            JsonPiece::Unsigned(n) => PieceView::Integer(*n as int),
            JsonPiece::Text(s) => PieceView::Text(s@),
            JsonPiece::Raw(b) => PieceView::Raw(b@),
        }
    }
}

/// The views of the members of an object under construction.
pub open spec fn member_views(members: Seq<(String, JsonPiece)>) -> Seq<(Seq<char>, PieceView)> {
    members.map_values(|m: (String, JsonPiece)| (m.0@, m.1@))
}

/// What serde_json writes for the JSON value that `bytes` parse to: the
/// compact form, object members in key order; `None` when they do not parse.
pub uninterp spec fn json_canonical(bytes: Seq<u8>) -> Option<Seq<u8>>;

/// What serde_json writes for the member `key` of the JSON object that
/// `bytes` parse to; `None` when they do not parse, are not an object or
/// have no such member.
pub uninterp spec fn json_member(bytes: Seq<u8>, key: Seq<char>) -> Option<Seq<u8>>;

/// The string that the member `key` of the JSON object that `bytes` parse to
/// holds; `None` when there is no such member or it is not a string.
pub uninterp spec fn json_member_str(bytes: Seq<u8>, key: Seq<char>) -> Option<Seq<char>>;

/// How serde_json displays the member `key` of the JSON object that `bytes`
/// parse to; `None` when there is no such member.
pub uninterp spec fn json_member_display(bytes: Seq<u8>, key: Seq<char>) -> Option<Seq<char>>;

/// What serde_json writes for an object with these members, a later member
/// replacing an earlier one of the same key.
pub uninterp spec fn json_object_text(members: Seq<(Seq<char>, PieceView)>) -> Seq<u8>;

/// Parses `bytes` with `serde_json::from_slice` into a `serde_json::Value`
/// and writes it back with `serde_json::to_vec`; the result is named, not
/// described.
#[verifier::external_body]
pub fn canonical_json(bytes: &[u8]) -> (r: Option<Vec<u8>>)
    ensures
        match r {
            Some(v) => json_canonical(bytes@) == Some(v@),
            None => json_canonical(bytes@) is None,
        },
{
    match serde_json::from_slice::<serde_json::Value>(bytes) {
        Ok(value) => serde_json::to_vec(&value).ok(),
        Err(_) => None,
    }
}

/// Parses `bytes` with `serde_json::from_slice`, takes the member `key` with
/// `Value::get` and writes it with `serde_json::to_vec`; the result is named.
/// A member is only found in bytes that parse to an object (`get` with a
/// string finds nothing in other values), and a `Value` always serializes.
#[verifier::external_body]
pub fn member_json(bytes: &[u8], key: &str) -> (r: Option<Vec<u8>>)
    ensures
        match r {
            Some(v) => json_member(bytes@, key@) == Some(v@),
            None => json_member(bytes@, key@) is None,
        },
        r is Some ==> json_canonical(bytes@) is Some && json_object_len(bytes@) is Some,
{
    match serde_json::from_slice::<serde_json::Value>(bytes) {
        Ok(value) => match value.get(key) {
            Some(member) => serde_json::to_vec(member).ok(),
            None => None,
        },
        Err(_) => None,
    }
}

/// Parses `bytes` with `serde_json::from_slice`, takes the member `key` with
/// `Value::get` and reads it with `Value::as_str`; the result is named. A
/// string member is a member, which `member_json` finds too.
#[verifier::external_body]
pub fn member_str(bytes: &[u8], key: &str) -> (r: Option<String>)
    ensures
        match r {
            Some(s) => json_member_str(bytes@, key@) == Some(s@),
            None => json_member_str(bytes@, key@) is None,
        },
        r is Some ==> json_member(bytes@, key@) is Some,
{
    match serde_json::from_slice::<serde_json::Value>(bytes) {
        Ok(value) => match value.get(key) {
            Some(member) => member.as_str().map(String::from),
            None => None,
        },
        Err(_) => None,
    }
}

/// Parses `bytes` with `serde_json::from_slice`, takes the member `key` with
/// `Value::get` and formats it with `Value`'s `Display`; the result is named.
#[verifier::external_body]
pub fn member_display(bytes: &[u8], key: &str) -> (r: Option<String>)
    ensures
        match r {
            Some(s) => json_member_display(bytes@, key@) == Some(s@),
            None => json_member_display(bytes@, key@) is None,
        },
{
    match serde_json::from_slice::<serde_json::Value>(bytes) {
        Ok(value) => match value.get(key) {
            Some(member) => Some(member.to_string()),
            None => None,
        },
        Err(_) => None,
    }
}

/// Builds a `serde_json::Map` from the members (`Map::insert`, each piece
/// made a `Value`; raw bytes through `serde_json::from_slice`) and writes the
/// object with `serde_json::to_vec`; the result is named.
#[verifier::external_body]
pub fn object_json(members: &Vec<(String, JsonPiece)>) -> (r: Vec<u8>)
    ensures
        r@ == json_object_text(member_views(members@)),
{
    let mut map = serde_json::Map::new();
    for (key, piece) in members {
        let value = match piece {
            JsonPiece::Null => serde_json::Value::Null,
            JsonPiece::Bool(b) => serde_json::Value::Bool(*b),
            JsonPiece::Integer(n) => serde_json::Value::from(*n),
            JsonPiece::Unsigned(n) => serde_json::Value::from(*n),
            JsonPiece::Text(s) => serde_json::Value::String(s.clone()),
            JsonPiece::Raw(b) => serde_json::from_slice(b).unwrap_or(serde_json::Value::Null),
        };
        map.insert(key.clone(), value);
    }
    serde_json::to_vec(&serde_json::Value::Object(map)).unwrap_or_default()
}

/// The views of the items of an array under construction.
pub open spec fn piece_views(items: Seq<JsonPiece>) -> Seq<PieceView> {
    items.map_values(|p: JsonPiece| p@)
}

/// What serde_json writes for an array of these items.
pub uninterp spec fn json_array_text(items: Seq<PieceView>) -> Seq<u8>;

/// What serde_json writes for each item of the JSON array that `bytes` parse
/// to; `None` when they do not parse to an array.
pub uninterp spec fn json_array_items(bytes: Seq<u8>) -> Option<Seq<Seq<u8>>>;

/// The string that `bytes` parse to; `None` when they do not parse to a string.
pub uninterp spec fn json_as_str(bytes: Seq<u8>) -> Option<Seq<char>>;

/// The whole number in `i64` that the member `key` of the JSON object that
/// `bytes` parse to holds; `None` when there is none.
pub uninterp spec fn json_member_i64(bytes: Seq<u8>, key: Seq<char>) -> Option<int>;

/// The boolean that the member `key` of the JSON object that `bytes` parse
/// to holds; `None` when there is none.
pub uninterp spec fn json_member_bool(bytes: Seq<u8>, key: Seq<char>) -> Option<bool>;

/// How serde_json describes why `bytes` do not parse; `None` when they do.
pub uninterp spec fn json_parse_error(bytes: Seq<u8>) -> Option<Seq<char>>;

/// Builds a `serde_json::Value::Array` from the items and writes it with
/// `serde_json::to_vec`; the result is named.
#[verifier::external_body]
pub fn array_json(items: &Vec<JsonPiece>) -> (r: Vec<u8>)
    ensures
        r@ == json_array_text(piece_views(items@)),
{
    let mut values = Vec::new();
    for piece in items {
        values.push(match piece {
            JsonPiece::Null => serde_json::Value::Null,
            JsonPiece::Bool(b) => serde_json::Value::Bool(*b),
            JsonPiece::Integer(n) => serde_json::Value::from(*n),
            JsonPiece::Unsigned(n) => serde_json::Value::from(*n),
            JsonPiece::Text(s) => serde_json::Value::String(s.clone()),
            JsonPiece::Raw(b) => serde_json::from_slice(b).unwrap_or(serde_json::Value::Null),
        });
    }
    serde_json::to_vec(&serde_json::Value::Array(values)).unwrap_or_default()
}

/// Parses `bytes` with `serde_json::from_slice`, takes the items with
/// `Value::as_array` and writes each with `serde_json::to_vec`; the result is
/// named.
#[verifier::external_body]
pub fn array_items(bytes: &[u8]) -> (r: Option<Vec<Vec<u8>>>)
    ensures
        match r {
            Some(v) => json_array_items(bytes@) == Some(byte_views(v@)),
            None => json_array_items(bytes@) is None,
        },
{
    match serde_json::from_slice::<serde_json::Value>(bytes) {
        Ok(serde_json::Value::Array(values)) => {
            let mut items = Vec::new();
            for value in &values {
                items.push(serde_json::to_vec(value).unwrap_or_default());
            }
            Some(items)
        },
        _ => None,
    }
}

/// Parses `bytes` with `serde_json::from_slice` and reads the value with
/// `Value::as_str`; the result is named.
#[verifier::external_body]
pub fn json_str(bytes: &[u8]) -> (r: Option<String>)
    ensures
        match r {
            Some(s) => json_as_str(bytes@) == Some(s@),
            None => json_as_str(bytes@) is None,
        },
{
    match serde_json::from_slice::<serde_json::Value>(bytes) {
        Ok(value) => value.as_str().map(String::from),
        Err(_) => None,
    }
}

/// Parses `bytes` with `serde_json::from_slice`, takes the member `key` with
/// `Value::get` and reads it with `Value::as_i64`; the result is named.
#[verifier::external_body]
pub fn member_i64(bytes: &[u8], key: &str) -> (r: Option<i64>)
    ensures
        match r {
            Some(n) => json_member_i64(bytes@, key@) == Some(n as int),
            None => json_member_i64(bytes@, key@) is None,
        },
{
    match serde_json::from_slice::<serde_json::Value>(bytes) {
        Ok(value) => match value.get(key) {
            Some(member) => member.as_i64(),
            None => None,
        },
        Err(_) => None,
    }
}

/// Parses `bytes` with `serde_json::from_slice`, takes the member `key` with
/// `Value::get` and reads it with `Value::as_bool`; the result is named.
#[verifier::external_body]
pub fn member_bool(bytes: &[u8], key: &str) -> (r: Option<bool>)
    ensures
        match r {
            Some(b) => json_member_bool(bytes@, key@) == Some(b),
            None => json_member_bool(bytes@, key@) is None,
        },
{
    match serde_json::from_slice::<serde_json::Value>(bytes) {
        Ok(value) => match value.get(key) {
            Some(member) => member.as_bool(),
            None => None,
        },
        Err(_) => None,
    }
}

/// Parses `bytes` with `serde_json::from_slice` and, when that fails, formats
/// the `serde_json::Error` with its `Display`; the result is named. Bytes
/// that parse get `None`, and `canonical_json` writes them back; bytes that
/// do not parse are not written back either, since `canonical_json` makes
/// the same parse.
#[verifier::external_body]
pub fn parse_error_text(bytes: &[u8]) -> (r: Option<String>)
    ensures
        match r {
            Some(s) => json_parse_error(bytes@) == Some(s@),
            None => json_parse_error(bytes@) is None && json_canonical(bytes@) is Some,
        },
        r is Some ==> json_canonical(bytes@) is None,
{
    match serde_json::from_slice::<serde_json::Value>(bytes) {
        Ok(_) => None,
        Err(err) => Some(err.to_string()),
    }
}

/// What serde_json writes, pretty-printed, for an object with these members.
pub uninterp spec fn json_object_pretty(members: Seq<(Seq<char>, PieceView)>) -> Seq<u8>;

/// How many levels the raw pieces handed to `object_json_pretty` may nest.
pub open spec fn plain_depth() -> nat {
    8
}

/// Whether a piece stands for a value that serde_json writes and reads back
/// unchanged: a scalar or a string, or, `depth` levels deep at most, the
/// text that serde_json wrote for an object or an array of such pieces.
/// Pieces hold no floats, and such nesting stays far below the recursion
/// limit of serde_json's parser.
pub open spec fn plain_piece(piece: PieceView, depth: nat) -> bool
    decreases depth, 0nat,
{
    match piece {
        PieceView::Raw(bytes) => depth > 0 && (
            (exists|ms: Seq<(Seq<char>, PieceView)>|
                #[trigger] json_object_text(ms) == bytes && plain_members(ms, (depth - 1) as nat))
            || (exists|items: Seq<PieceView>|
                #[trigger] json_array_text(items) == bytes && plain_items(items, (depth - 1) as nat))),
        _ => true,
    }
}

/// Whether every member value is a plain piece to `depth` levels.
pub open spec fn plain_members(members: Seq<(Seq<char>, PieceView)>, depth: nat) -> bool
    decreases depth, 1nat,
{
    forall|i: int| 0 <= i < members.len() ==> plain_piece(#[trigger] members[i].1, depth)
}

/// Whether every array item is a plain piece to `depth` levels.
pub open spec fn plain_items(items: Seq<PieceView>, depth: nat) -> bool
    decreases depth, 1nat,
{
    forall|i: int| 0 <= i < items.len() ==> plain_piece(#[trigger] items[i], depth)
}

/// The text of an object of plain members is a plain piece one level up.
pub proof fn lemma_object_text_plain(members: Seq<(Seq<char>, PieceView)>, depth: nat)
    requires
        plain_members(members, depth),
    ensures
        plain_piece(PieceView::Raw(json_object_text(members)), depth + 1),
{
    assert(json_object_text(members) == json_object_text(members));
}

/// The text of an array of plain items is a plain piece one level up.
pub proof fn lemma_array_text_plain(items: Seq<PieceView>, depth: nat)
    requires
        plain_items(items, depth),
    ensures
        plain_piece(PieceView::Raw(json_array_text(items)), depth + 1),
{
    assert(json_array_text(items) == json_array_text(items));
}

/// Builds the same `serde_json::Map` as `object_json` and writes the object
/// with `serde_json::to_vec_pretty`; the result is named. The pretty form
/// differs from the compact one only by whitespace, and so does a line feed
/// after it, which `from_slice` accepts. The members are plain: no floats,
/// whose text need not read back to the same number, and raw pieces nested
/// a few levels at most, so that the object, one level deeper, still parses
/// within serde_json's recursion limit. Reading the text back with
/// `canonical_json` then gives the same `Value`, written as `object_json`
/// writes it.
#[verifier::external_body]
pub fn object_json_pretty(members: &Vec<(String, JsonPiece)>) -> (r: Vec<u8>)
    requires
        plain_members(member_views(members@), plain_depth()),
    ensures
        r@ == json_object_pretty(member_views(members@)),
        json_canonical(r@ + seq![10u8]) == Some(json_object_text(member_views(members@))),
{
    let mut map = serde_json::Map::new();
    for (key, piece) in members {
        let value = match piece {
            JsonPiece::Null => serde_json::Value::Null,
            JsonPiece::Bool(b) => serde_json::Value::Bool(*b),
            JsonPiece::Integer(n) => serde_json::Value::from(*n),
            JsonPiece::Unsigned(n) => serde_json::Value::from(*n),
            JsonPiece::Text(s) => serde_json::Value::String(s.clone()),
            JsonPiece::Raw(b) => serde_json::from_slice(b).unwrap_or(serde_json::Value::Null),
        };
        map.insert(key.clone(), value);
    }
    serde_json::to_vec_pretty(&serde_json::Value::Object(map)).unwrap_or_default()
}

/// The number of members of the JSON object that `bytes` parse to; `None`
/// when they do not parse to an object.
pub uninterp spec fn json_object_len(bytes: Seq<u8>) -> Option<nat>;

/// What serde_json writes for the JSON object that `bytes` parse to after
/// the edits, in order: a member set to the value that its bytes parse to
/// (`null` if they do not), or removed; `None` when the bytes do not parse
/// to an object.
pub uninterp spec fn json_edit_object(bytes: Seq<u8>, edits: Seq<(Seq<char>, Option<Seq<u8>>)>) -> Option<Seq<u8>>;

/// What serde_json writes for one piece alone.
pub uninterp spec fn json_piece_text(piece: PieceView) -> Seq<u8>;

/// The views of a list of member edits.
pub open spec fn edit_views(edits: Seq<(String, Option<Vec<u8>>)>) -> Seq<(Seq<char>, Option<Seq<u8>>)> {
    edits.map_values(
        |e: (String, Option<Vec<u8>>)|
            (
                e.0@,
                match e.1 {
                    Some(b) => Some(b@),
                    None => None,
                },
            ),
    )
}

/// Parses `bytes` with `serde_json::from_slice` and counts the members with
/// `Value::as_object` and `Map::len`; the result is named.
#[verifier::external_body]
pub fn object_len(bytes: &[u8]) -> (r: Option<usize>)
    ensures
        match r {
            Some(n) => json_object_len(bytes@) == Some(n as nat),
            None => json_object_len(bytes@) is None,
        },
{
    match serde_json::from_slice::<serde_json::Value>(bytes) {
        Ok(value) => match value.as_object() {
            Some(map) => Some(map.len()),
            None => None,
        },
        Err(_) => None,
    }
}

/// Parses `bytes` with `serde_json::from_slice` and applies the edits to the
/// object's `serde_json::Map` in order (`Map::insert` of the value that
/// `serde_json::from_slice` gives, or `Map::remove`), then writes it with
/// `serde_json::to_vec`; the result is named. An object always takes the edits.
#[verifier::external_body]
pub fn edit_object(bytes: &[u8], edits: &Vec<(String, Option<Vec<u8>>)>) -> (r: Option<Vec<u8>>)
    ensures
        match r {
            Some(v) => json_edit_object(bytes@, edit_views(edits@)) == Some(v@),
            None => json_edit_object(bytes@, edit_views(edits@)) is None,
        },
        json_object_len(bytes@) is Some ==> r is Some,
{
    match serde_json::from_slice::<serde_json::Value>(bytes) {
        Ok(serde_json::Value::Object(mut map)) => {
            for (key, edit) in edits {
                match edit {
                    Some(b) => map.insert(key.clone(), serde_json::from_slice(b).unwrap_or_default()),
                    None => map.remove(key),
                };
            }
            serde_json::to_vec(&serde_json::Value::Object(map)).ok()
        },
        _ => None,
    }
}

/// Makes the piece a `serde_json::Value` as `object_json` does and writes it
/// with `serde_json::to_vec`; the result is named.
#[verifier::external_body]
pub fn piece_json(piece: &JsonPiece) -> (r: Vec<u8>)
    ensures
        r@ == json_piece_text(piece@),
{
    let value = match piece {
        JsonPiece::Null => serde_json::Value::Null,
        JsonPiece::Bool(b) => serde_json::Value::Bool(*b),
        JsonPiece::Integer(n) => serde_json::Value::from(*n),
        JsonPiece::Unsigned(n) => serde_json::Value::from(*n),
        JsonPiece::Text(s) => serde_json::Value::String(s.clone()),
        JsonPiece::Raw(b) => serde_json::from_slice(b).unwrap_or(serde_json::Value::Null),
    };
    serde_json::to_vec(&value).unwrap_or_default()
}

/// What serde_json writes, pretty-printed, for the JSON object that `bytes`
/// parse to after the edits; `None` when they do not parse to an object.
pub uninterp spec fn json_edit_object_pretty(bytes: Seq<u8>, edits: Seq<(Seq<char>, Option<Seq<u8>>)>) -> Option<Seq<u8>>;

/// Applies the edits as `edit_object` does and writes the object with
/// `serde_json::to_vec_pretty`; the result is named. An object always takes
/// the edits.
#[verifier::external_body]
pub fn edit_object_pretty(bytes: &[u8], edits: &Vec<(String, Option<Vec<u8>>)>) -> (r: Option<Vec<u8>>)
    ensures
        match r {
            Some(v) => json_edit_object_pretty(bytes@, edit_views(edits@)) == Some(v@),
            None => json_edit_object_pretty(bytes@, edit_views(edits@)) is None,
        },
        json_object_len(bytes@) is Some ==> r is Some,
{
    match serde_json::from_slice::<serde_json::Value>(bytes) {
        Ok(serde_json::Value::Object(mut map)) => {
            for (key, edit) in edits {
                match edit {
                    Some(b) => map.insert(key.clone(), serde_json::from_slice(b).unwrap_or_default()),
                    None => map.remove(key),
                };
            }
            serde_json::to_vec_pretty(&serde_json::Value::Object(map)).ok()
        },
        _ => None,
    }
}

} // verus!
