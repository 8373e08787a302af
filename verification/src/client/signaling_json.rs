//! The JSON frames of the signaling server: parsing (by `serde_json`), the
//! fields the client reads from them, and their dispatch.

use vstd::prelude::*;
use vstd::string::StringSliceAdditionalSpecFns;
use crate::common::text::{hex_chunks_sliceable, hex_text_sliceable};
use crate::client::api::{JsonDispatch, classify_json, spec_classify_json};

verus! {

/// A top-level field of a JSON object, as far as the client reads it.
#[derive(Debug, Clone)]
pub enum JsonField {
    Null,
    Bool(bool),
    Str(String),
    /// An array, each element the unsigned integer it holds, if any.
    Array(Vec<Option<u64>>),
    /// A number or an object.
    Other,
}

/// What a JSON field holds.
pub enum JsonFieldView {
    Null,
    Bool(bool),
    Str(Seq<char>),
    Array(Seq<Option<u64>>),
    Other,
}

impl View for JsonField {
    type V = JsonFieldView;

    open spec fn view(&self) -> JsonFieldView {
        match self {
            JsonField::Null => JsonFieldView::Null,
            JsonField::Bool(b) => JsonFieldView::Bool(*b),
            JsonField::Str(s) => JsonFieldView::Str(s@),
            JsonField::Array(a) => JsonFieldView::Array(a@),
            JsonField::Other => JsonFieldView::Other,
        }
    }
}

/// The fields of a parsed object, by name.
pub open spec fn fields_view(fields: Seq<(String, JsonField)>) -> Seq<(Seq<char>, JsonFieldView)> {
    fields.map_values(|f: (String, JsonField)| (f.0@, f.1@))
}

/// The top-level fields of a JSON text (none for a value that is not an
/// object), or `None` when the bytes are not JSON.
pub uninterp spec fn spec_json_fields(payload: Seq<u8>) -> Option<Seq<(Seq<char>, JsonFieldView)>>;

/// `serde_json::from_slice::<serde_json::Value>(payload)`, then the object's
/// entries converted one for one (a non-object gives no entries). The result
/// is named; a `serde_json` object is a map, so no name occurs twice.
#[verifier::external_body]
fn parse_json_fields(payload: &[u8]) -> (r: Option<Vec<(String, JsonField)>>)
    ensures
        match r {
            None => spec_json_fields(payload@) is None,
            Some(v) => spec_json_fields(payload@) == Some(fields_view(v@)),
        },
        r matches Some(v) ==> forall|i: int, j: int| 0 <= i < j < v@.len() ==> v@[i].0@ != v@[j].0@,
{
    let value: serde_json::Value = serde_json::from_slice(payload).ok()?;
    let Some(object) = value.as_object() else { return Some(Vec::new()) };
    Some(object.iter().map(|(k, v)| (k.clone(), match v {
        serde_json::Value::Null => JsonField::Null,
        serde_json::Value::Bool(b) => JsonField::Bool(*b),
        serde_json::Value::String(s) => JsonField::Str(s.clone()),
        serde_json::Value::Array(a) => JsonField::Array(a.iter().map(|e| e.as_u64()).collect()),
        _ => JsonField::Other,
    })).collect())
}

/// The field named `key`, if present.
pub open spec fn spec_lookup(fields: Seq<(Seq<char>, JsonFieldView)>, key: Seq<char>) -> Option<JsonFieldView>
    decreases fields.len(),
{
    if fields.len() == 0 {
        None
    } else if fields[0].0 == key {
        Some(fields[0].1)
    } else {
        spec_lookup(fields.drop_first(), key)
    }
}

fn lookup<'a>(fields: &'a Vec<(String, JsonField)>, key: &String) -> (r: Option<&'a JsonField>)
    ensures
        match r {
            None => spec_lookup(fields_view(fields@), key@) is None,
            Some(f) => spec_lookup(fields_view(fields@), key@) == Some(f@),
        },
{
    let mut i: usize = 0;
    assert(fields_view(fields@).subrange(0, fields@.len() as int) =~= fields_view(fields@));
    while i < fields.len()
        invariant
            0 <= i <= fields@.len(),
            spec_lookup(fields_view(fields@), key@) == spec_lookup(fields_view(fields@).subrange(i as int, fields@.len() as int), key@),
        decreases fields@.len() - i,
    {
        let ghost rest = fields_view(fields@).subrange(i as int, fields@.len() as int);
        assert(rest.drop_first() =~= fields_view(fields@).subrange(i + 1, fields@.len() as int));
        if fields[i].0 == *key {
            return Some(&fields[i].1);
        }
        i = i + 1;
    }
    assert(fields_view(fields@).subrange(i as int, fields@.len() as int).len() == 0);
    None
}

/// The fields of a signaling frame the client reads: `peer_joined` and
/// `found` when booleans; `peer_id`, `error` and `inbox_id` when strings;
/// `identity_key` and `signed_prekey` when arrays; and which of `link_id`,
/// `peer_id`, `identity_key` and `signed_prekey` are present at all.
#[derive(Debug, Clone)]
pub struct SignalingJson {
    pub peer_joined: Option<bool>,
    pub peer_id: Option<String>,
    pub has_link_id: bool,
    pub has_peer_id: bool,
    pub has_identity_key: bool,
    pub has_signed_prekey: bool,
    pub found: Option<bool>,
    pub error: Option<String>,
    pub identity_key: Option<Vec<Option<u64>>>,
    pub signed_prekey: Option<Vec<Option<u64>>>,
    pub inbox_id: Option<String>,
}

/// The fields of a signaling frame.
pub struct SignalingJsonView {
    pub peer_joined: Option<bool>,
    pub peer_id: Option<Seq<char>>,
    pub has_link_id: bool,
    pub has_peer_id: bool,
    pub has_identity_key: bool,
    pub has_signed_prekey: bool,
    pub found: Option<bool>,
    pub error: Option<Seq<char>>,
    pub identity_key: Option<Seq<Option<u64>>>,
    pub signed_prekey: Option<Seq<Option<u64>>>,
    pub inbox_id: Option<Seq<char>>,
}

pub open spec fn opt_str_view(s: Option<String>) -> Option<Seq<char>> {
    match s {
        Some(t) => Some(t@),
        None => None,
    }
}

pub open spec fn opt_array_view(a: Option<Vec<Option<u64>>>) -> Option<Seq<Option<u64>>> {
    match a {
        Some(v) => Some(v@),
        None => None,
    }
}

impl View for SignalingJson {
    type V = SignalingJsonView;

    open spec fn view(&self) -> SignalingJsonView {
        SignalingJsonView {
            peer_joined: self.peer_joined,
            peer_id: opt_str_view(self.peer_id),
            has_link_id: self.has_link_id,
            has_peer_id: self.has_peer_id,
            has_identity_key: self.has_identity_key,
            has_signed_prekey: self.has_signed_prekey,
            found: self.found,
            error: opt_str_view(self.error),
            identity_key: opt_array_view(self.identity_key),
            signed_prekey: opt_array_view(self.signed_prekey),
            inbox_id: opt_str_view(self.inbox_id),
        }
    }
}

/// A field as a boolean, if it is one.
pub open spec fn as_bool(f: Option<JsonFieldView>) -> Option<bool> {
    match f {
        Some(JsonFieldView::Bool(b)) => Some(b),
        _ => None,
    }
}

/// A field as a string, if it is one.
pub open spec fn as_str(f: Option<JsonFieldView>) -> Option<Seq<char>> {
    match f {
        Some(JsonFieldView::Str(s)) => Some(s),
        _ => None,
    }
}

/// A field as an array, if it is one.
pub open spec fn as_array(f: Option<JsonFieldView>) -> Option<Seq<Option<u64>>> {
    match f {
        Some(JsonFieldView::Array(a)) => Some(a),
        _ => None,
    }
}

/// The signaling fields of an object's fields.
pub open spec fn spec_signaling(fields: Seq<(Seq<char>, JsonFieldView)>) -> SignalingJsonView {
    SignalingJsonView {
        peer_joined: as_bool(spec_lookup(fields, "peer_joined"@)),
        peer_id: as_str(spec_lookup(fields, "peer_id"@)),
        has_link_id: spec_lookup(fields, "link_id"@) is Some,
        has_peer_id: spec_lookup(fields, "peer_id"@) is Some,
        has_identity_key: spec_lookup(fields, "identity_key"@) is Some,
        has_signed_prekey: spec_lookup(fields, "signed_prekey"@) is Some,
        found: as_bool(spec_lookup(fields, "found"@)),
        error: as_str(spec_lookup(fields, "error"@)),
        identity_key: as_array(spec_lookup(fields, "identity_key"@)),
        signed_prekey: as_array(spec_lookup(fields, "signed_prekey"@)),
        inbox_id: as_str(spec_lookup(fields, "inbox_id"@)),
    }
}

fn field_bool(f: Option<&JsonField>) -> (r: Option<bool>)
    ensures
        r == as_bool(match f { Some(x) => Some(x@), None => None }),
{
    match f {
        Some(JsonField::Bool(b)) => Some(*b),
        _ => None,
    }
}

fn field_str(f: Option<&JsonField>) -> (r: Option<String>)
    ensures
        opt_str_view(r) == as_str(match f { Some(x) => Some(x@), None => None }),
{
    match f {
        Some(JsonField::Str(s)) => Some(s.clone()),
        _ => None,
    }
}

fn field_array(f: Option<&JsonField>) -> (r: Option<Vec<Option<u64>>>)
    ensures
        opt_array_view(r) == as_array(match f { Some(x) => Some(x@), None => None }),
{
    match f {
        Some(JsonField::Array(a)) => Some(a.clone()),
        _ => None,
    }
}

/// The signaling fields of a JSON frame, or `None` when it is not JSON.
pub fn read_signaling_json(payload: &[u8]) -> (r: Option<SignalingJson>)
    ensures
        match spec_json_fields(payload@) {
            None => r is None,
            Some(fields) => r is Some && r.unwrap()@ == spec_signaling(fields),
        },
{
    let fields = parse_json_fields(payload)?;
    let peer_joined = field_bool(lookup(&fields, &"peer_joined".to_string()));
    let peer_id_field = lookup(&fields, &"peer_id".to_string());
    let peer_id = field_str(peer_id_field);
    let link_id_field = lookup(&fields, &"link_id".to_string());
    let identity_key_field = lookup(&fields, &"identity_key".to_string());
    let signed_prekey_field = lookup(&fields, &"signed_prekey".to_string());
    let found = field_bool(lookup(&fields, &"found".to_string()));
    let error = field_str(lookup(&fields, &"error".to_string()));
    let inbox_id = field_str(lookup(&fields, &"inbox_id".to_string()));
    Some(SignalingJson {
        peer_joined,
        peer_id,
        has_link_id: link_id_field.is_some(),
        has_peer_id: peer_id_field.is_some(),
        has_identity_key: identity_key_field.is_some(),
        has_signed_prekey: signed_prekey_field.is_some(),
        found,
        error,
        identity_key: field_array(identity_key_field),
        signed_prekey: field_array(signed_prekey_field),
        inbox_id,
    })
}

/// Why a JSON frame could not be dispatched.
#[derive(Debug, Clone, Copy, PartialEq, Eq, Structural)]
pub enum JsonFrameError {
    /// The frame is not JSON: it is dropped with a warning.
    Malformed,
    /// A `peer_joined` notice whose `peer_id` text is cut, by hexadecimal
    /// decoding, inside a multi-byte character: such text makes the
    /// decoder's string slicing fail, so nothing is announced.
    UnsliceablePeerId,
}

/// Whether dispatching these fields decodes the `peer_id` text.
pub open spec fn spec_decodes_peer_id(j: SignalingJsonView) -> bool {
    j.peer_joined == Some(true) && j.peer_id is Some
}

/// Dispatches a JSON frame from the signaling server: the frame is parsed,
/// its fields read and classified as `classify_json` does.
pub fn dispatch_json_payload(payload: &[u8]) -> (r: Result<JsonDispatch, JsonFrameError>)
    ensures
        spec_json_fields(payload@) is None ==> r == Err::<JsonDispatch, JsonFrameError>(JsonFrameError::Malformed),
        spec_json_fields(payload@) matches Some(fields) ==> ({
            let j = spec_signaling(fields);
            &&& spec_decodes_peer_id(j) && !hex_chunks_sliceable(vstd::utf8::encode_utf8(j.peer_id.unwrap()))
                ==> r == Err::<JsonDispatch, JsonFrameError>(JsonFrameError::UnsliceablePeerId)
            &&& !(spec_decodes_peer_id(j) && !hex_chunks_sliceable(vstd::utf8::encode_utf8(j.peer_id.unwrap())))
                ==> r is Ok && spec_classify_json(
                j.peer_joined,
                j.peer_id,
                j.has_link_id,
                j.has_peer_id,
                j.has_identity_key,
                j.has_signed_prekey,
                r->Ok_0,
            )
        }),
{
    let json = match read_signaling_json(payload) {
        Some(j) => j,
        None => {
            return Err(JsonFrameError::Malformed);
        },
    };
    let text: Option<&str> = match &json.peer_id {
        Some(s) => Some(s.as_str()),
        None => None,
    };
    if json.peer_joined == Some(true) {
        if let Some(t) = text {
            if !hex_text_sliceable(t) {
                return Err(JsonFrameError::UnsliceablePeerId);
            }
        }
    }
    Ok(classify_json(
        json.peer_joined,
        text,
        json.has_link_id,
        json.has_peer_id,
        json.has_identity_key,
        json.has_signed_prekey,
    ))
}

} // verus!
