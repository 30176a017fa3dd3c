//! FlatBuffers payloads and JSON text.

use flatbuffers::root;
use synapse_fbs::cmd::{ParamSetReply, ParamSetRequest};
use synapse_fbs::topic::{LocalPositionCommandData, MocapFrame};
use synapse_fbs::types::{CommandResultCode, Vec3f};
use vstd::prelude::*;

use crate::ledger::text_view;
use crate::speed::speed_text;

verus! {

/// The parameter that a `ParamSetRequest` sets.
#[derive(Debug, PartialEq, Eq)]
pub struct Parameter {
    pub name: Option<String>,
    /// The number of the value's kind; 0 is a floating-point value.
    pub kind: u8,
    /// The bit pattern of the double-precision value.
    pub float_bits: u64,
}

/// The value of a [`Parameter`].
pub struct ParameterView {
    pub name: Option<Seq<char>>,
    pub kind: u8,
    pub float_bits: u64,
}

impl View for Parameter {
    type V = ParameterView;

    open spec fn view(&self) -> ParameterView {
        ParameterView {
            name: text_view(self.name),
            kind: self.kind,
            float_bits: self.float_bits,
        }
    }
}

/// The value of a decoded request or of the message why it is invalid.
pub open spec fn request_view(request: Result<Option<Parameter>, String>) -> Result<
    Option<ParameterView>,
    Seq<char>,
> {
    match request {
        Ok(Some(parameter)) => Ok(Some(parameter@)),
        Ok(None) => Ok(None),
        Err(message) => Err(message@),
    }
}

/// The value of a decoded reply or of the message why it is invalid.
pub open spec fn reply_view(reply: Result<(u8, i32), String>) -> Result<(u8, i32), Seq<char>> {
    match reply {
        Ok(fields) => Ok(fields),
        Err(message) => Err(message@),
    }
}

/// The largest FlatBuffer. In anything longer a table may lie where its offsets
/// cannot be followed.
pub const BUFFER_MAX_BYTES: usize = 0x8000_0000;

/// The parameter in a `ParamSetRequest` of at most [`BUFFER_MAX_BYTES`], or why
/// the bytes are not one.
pub uninterp spec fn root_request(payload: Seq<u8>) -> Result<Option<ParameterView>, Seq<char>>;

/// The result code and detail in a `ParamSetReply` of at most
/// [`BUFFER_MAX_BYTES`], or why the bytes are not one.
pub uninterp spec fn root_reply(payload: Seq<u8>) -> Result<(u8, i32), Seq<char>>;

/// The bytes are a valid `MocapFrame`.
pub uninterp spec fn mocap_frame(payload: Seq<u8>) -> bool;

/// The text of the X velocity in a `LocalPositionCommandData`.
pub uninterp spec fn x_velocity_text(payload: Seq<u8>) -> Seq<char>;

/// The shortest text of the single-precision number that `text` writes.
pub uninterp spec fn shortest_speed(text: Seq<char>) -> Seq<char>;

/// Why a buffer is refused unread.
pub open spec fn buffer_too_long() -> Seq<char> {
    "buffer is longer than a FlatBuffer can be"@
}

/// The parameter in a `ParamSetRequest`, or why the bytes are not one.
pub open spec fn param_set_request(payload: Seq<u8>) -> Result<Option<ParameterView>, Seq<char>> {
    if payload.len() > BUFFER_MAX_BYTES {
        Err(buffer_too_long())
    } else {
        root_request(payload)
    }
}

/// The result code and detail in a `ParamSetReply`, or why the bytes are not
/// one.
pub open spec fn param_set_reply(payload: Seq<u8>) -> Result<(u8, i32), Seq<char>> {
    if payload.len() > BUFFER_MAX_BYTES {
        Err(buffer_too_long())
    } else {
        root_reply(payload)
    }
}

/// `flatbuffers::root` for `ParamSetRequest`, and the accessors of the value
/// that it holds: verification and what the accessors read depend on the
/// bytes alone. The message of a failed verification is its `Display` text.
/// Beyond the bound the accessors may panic on a buffer that verifies.
#[verifier::external_body]
fn root_param_set_request(payload: &[u8]) -> (request: Result<Option<Parameter>, String>)
    requires
        payload@.len() <= BUFFER_MAX_BYTES,
    ensures
        request_view(request) == root_request(payload@),
{
    match root::<ParamSetRequest<'_>>(payload) {
        Ok(request) => Ok(request.value().map(|value| Parameter {
            name: value.name().map(|name| name.to_string()),
            kind: value.kind().0,
            float_bits: value.float_value().to_bits(),
        })),
        Err(error) => Err(error.to_string()),
    }
}

/// `flatbuffers::root` for `ParamSetReply`, and its accessors `result` and
/// `result_detail`: verification and what the accessors read depend on the
/// bytes alone. The message of a failed verification is its `Display` text.
/// Beyond the bound the accessors may panic on a buffer that verifies.
#[verifier::external_body]
fn root_param_set_reply(payload: &[u8]) -> (reply: Result<(u8, i32), String>)
    requires
        payload@.len() <= BUFFER_MAX_BYTES,
    ensures
        reply_view(reply) == root_reply(payload@),
{
    match root::<ParamSetReply<'_>>(payload) {
        Ok(reply) => Ok((reply.result().0, reply.result_detail())),
        Err(error) => Err(error.to_string()),
    }
}

/// Reads the parameter in a `ParamSetRequest`.
pub(crate) fn read_param_set_request(payload: &[u8]) -> (request: Result<
    Option<Parameter>,
    String,
>)
    ensures
        request_view(request) == param_set_request(payload@),
{
    if payload.len() > BUFFER_MAX_BYTES {
        return Err("buffer is longer than a FlatBuffer can be".to_owned());
    }
    root_param_set_request(payload)
}

/// Reads the result code and detail in a `ParamSetReply`.
pub(crate) fn read_param_set_reply(payload: &[u8]) -> (reply: Result<(u8, i32), String>)
    ensures
        reply_view(reply) == param_set_reply(payload@),
{
    if payload.len() > BUFFER_MAX_BYTES {
        return Err("buffer is longer than a FlatBuffer can be".to_owned());
    }
    root_param_set_reply(payload)
}

/// `flatbuffers::root` for `MocapFrame`: verification depends on the bytes
/// alone.
#[verifier::external_body]
pub(crate) fn is_mocap_frame(payload: &[u8]) -> (valid: bool)
    ensures
        valid == mocap_frame(payload@),
{
    root::<MocapFrame<'_>>(payload).is_ok()
}

/// The schema's name of a command result.
pub open spec fn result_name_of(code: u8) -> Option<Seq<char>> {
    if code == 0 {
        Some("Accepted"@)
    } else if code == 1 {
        Some("TemporarilyRejected"@)
    } else if code == 2 {
        Some("Denied"@)
    } else if code == 3 {
        Some("Unsupported"@)
    } else if code == 4 {
        Some("Failed"@)
    } else if code == 5 {
        Some("InProgress"@)
    } else if code == 6 {
        Some("Cancelled"@)
    } else {
        None
    }
}

/// `CommandResultCode::variant_name`: the seven names of the schema, in the
/// order of their numbers.
#[verifier::external_body]
pub(crate) fn result_name(code: u8) -> (name: Option<String>)
    ensures
        text_view(name) == result_name_of(code),
{
    CommandResultCode(code).variant_name().map(|name| name.to_string())
}

/// `LocalPositionCommandData::velocity_enu_m_s` and `Vec3f::x`, with the
/// number's `Display` text, which depends on the bytes alone and is the text
/// of a floating-point number.
#[verifier::external_body]
pub(crate) fn read_x_velocity(payload: &[u8]) -> (text: String)
    requires
        payload@.len() == 56,
    ensures
        text@ == x_velocity_text(payload@),
        speed_text(text@),
{
    let mut data = LocalPositionCommandData::default();
    data.0.copy_from_slice(payload);
    data.velocity_enu_m_s().x().to_string()
}

/// `Vec3f::new` and `Vec3f::x`, around the standard reading of a number from
/// text and its `Display` text: what comes out depends on `text` alone and is
/// again the text of a floating-point number. What the digits are, and that
/// shortening twice changes nothing, is left unsaid.
#[verifier::external_body]
pub(crate) fn shorten_speed(text: &str) -> (shortest: String)
    requires
        speed_text(text@),
    ensures
        shortest@ == shortest_speed(text@),
        speed_text(shortest@),
{
    let number = text.parse().unwrap_or_default();
    Vec3f::new(number, Default::default(), Default::default()).x().to_string()
}

/// A member value of a flat JSON object.
#[derive(Debug, PartialEq, Eq)]
pub enum Scalar {
    Null,
    Number(u32),
    Text(String),
}

/// The value of a [`Scalar`].
pub enum ScalarView {
    Null,
    Number(u32),
    Text(Seq<char>),
}

impl View for Scalar {
    type V = ScalarView;

    open spec fn view(&self) -> ScalarView {
        match self {
            Scalar::Null => ScalarView::Null,
            Scalar::Number(number) => ScalarView::Number(*number),
            Scalar::Text(text) => ScalarView::Text(text@),
        }
    }
}

/// The values of a list of members.
pub open spec fn member_views(members: Seq<(String, Scalar)>) -> Seq<(Seq<char>, ScalarView)> {
    members.map_values(|member: (String, Scalar)| (member.0@, member.1@))
}

/// The compact JSON text of the object with `members`.
pub uninterp spec fn json_object(members: Seq<(Seq<char>, ScalarView)>) -> Seq<char>;

/// `serde_json::Map::from_iter` and `serde_json::Value::to_string`: the JSON
/// text of an object depends on its members alone.
#[verifier::external_body]
pub(crate) fn json_text(members: Vec<(String, Scalar)>) -> (text: String)
    ensures
        text@ == json_object(member_views(members@)),
{
    let object = members.into_iter().map(|(name, value)| match value {
        Scalar::Null => (name, serde_json::Value::Null),
        Scalar::Number(number) => (name, serde_json::Value::from(number)),
        Scalar::Text(text) => (name, serde_json::Value::from(text)),
    });
    serde_json::Value::Object(serde_json::Map::from_iter(object)).to_string()
}

} // verus!
