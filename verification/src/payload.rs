//! Fixed-layout payloads and credential envelopes.

use vstd::prelude::*;
use vstd::slice::{slice_subrange, slice_to_vec};

use crate::ledger::text_view;
use crate::number::{digit, is_digit};
use crate::text::{chars_of, code_point, split, strip_suffix, text_of, pieces, views};
use crate::wire::{request_view, Parameter, ParameterView};

verus! {

/// The unsigned 16-bit number at `at`, low byte first.
pub open spec fn le16(bytes: Seq<u8>, at: int) -> int {
    bytes[at] as int + 256 * bytes[at + 1]
}

/// The signed 16-bit number at `at`, low byte first.
pub open spec fn le16_signed(bytes: Seq<u8>, at: int) -> int {
    if le16(bytes, at) < 32768 {
        le16(bytes, at)
    } else {
        le16(bytes, at) - 65536
    }
}

/// The unsigned 32-bit number at `at`, low byte first.
pub open spec fn le32(bytes: Seq<u8>, at: int) -> int {
    le16(bytes, at) + 65536 * le16(bytes, at + 2)
}

fn read_le16(bytes: &[u8], at: usize) -> (number: u32)
    requires
        at + 2 <= bytes.len(),
    ensures
        number == le16(bytes@, at as int),
{
    let low: u8 = bytes[at];
    let high: u8 = bytes[at + 1];
    low as u32 + 256 * (high as u32)
}

fn read_le32(bytes: &[u8], at: usize) -> (number: u32)
    requires
        at + 4 <= bytes.len(),
    ensures
        number == le32(bytes@, at as int),
{
    let low = read_le16(bytes, at);
    let high = read_le16(bytes, at + 2);
    assert(low <= 65535 && high <= 65535);
    low + 65536 * high
}

/// The bit pattern of a single-precision zero of either sign.
pub open spec fn zero_bits(bits: int) -> bool {
    bits == 0 || bits == 0x8000_0000
}

/// A local position command that asks for a velocity along X alone, with an X
/// velocity from `min_bits` to `max_bits`. Bit patterns of non-negative
/// numbers order as the numbers do.
pub open spec fn x_velocity_command(bytes: Seq<u8>, min_bits: u32, max_bits: u32) -> bool {
    &&& bytes.len() == 56
    &&& min_bits <= le32(bytes, 20) <= max_bits
    &&& zero_bits(le32(bytes, 24))
    &&& zero_bits(le32(bytes, 28))
}

/// Whether `bytes` ask for a velocity along X alone, within range.
pub fn is_x_velocity_command(bytes: &[u8], min_bits: u32, max_bits: u32) -> (yes: bool)
    ensures
        yes == x_velocity_command(bytes@, min_bits, max_bits),
{
    if bytes.len() != 56 {
        return false;
    }
    let x = read_le32(bytes, 20);
    let y = read_le32(bytes, 24);
    let z = read_le32(bytes, 28);
    min_bits <= x && x <= max_bits && (y == 0 || y == 0x8000_0000) && (z == 0 || z == 0x8000_0000)
}

/// A manual control sample that is marked active and valid, with every axis
/// from -1000 to 1000.
pub open spec fn manual_command(bytes: Seq<u8>) -> bool {
    &&& bytes.len() == 40
    &&& (bytes[35] / 4) % 2 == 1
    &&& (bytes[35] / 8) % 2 == 1
    &&& forall|axis: int| 0 <= axis < 10 ==> -1000 <= #[trigger] axis_value(bytes, axis) <= 1000
}

/// The value of an axis of a manual control sample.
pub open spec fn axis_value(bytes: Seq<u8>, axis: int) -> int {
    le16_signed(bytes, 14 + 2 * axis)
}

/// Whether `bytes` are a manual control sample that may be forwarded.
pub fn is_manual_command(bytes: &[u8]) -> (yes: bool)
    ensures
        yes == manual_command(bytes@),
{
    if bytes.len() != 40 {
        return false;
    }
    let flags: u8 = bytes[35];
    if (flags / 4) % 2 != 1 || (flags / 8) % 2 != 1 {
        return false;
    }
    for axis in 0..10usize
        invariant
            bytes@.len() == 40,
            forall|j: int| 0 <= j < axis ==> -1000 <= #[trigger] axis_value(bytes@, j) <= 1000,
    {
        let value = read_le16(bytes, 14 + 2 * axis);
        if value > 1000 && value < 64536 {
            assert(!(-1000 <= axis_value(bytes@, axis as int) <= 1000));
            return false;
        }
    }
    true
}

/// The pulse width of a channel of a receiver sample, in microseconds.
pub open spec fn channel_value(bytes: Seq<u8>, channel: int) -> int {
    le16(bytes, 10 + 2 * channel)
}

/// A receiver sample of 1 to 18 channels, a link quality up to 100 and pulse
/// widths from 900 to 2100 microseconds in the channels that it counts.
pub open spec fn radio_command(bytes: Seq<u8>) -> bool {
    &&& bytes.len() == 48
    &&& 1 <= bytes[8] <= 18
    &&& bytes[9] <= 100
    &&& forall|channel: int|
        0 <= channel < bytes[8] ==> 900 <= #[trigger] channel_value(bytes, channel) <= 2100
}

/// Whether `bytes` are a receiver sample that may be forwarded.
pub fn is_radio_command(bytes: &[u8]) -> (yes: bool)
    ensures
        yes == radio_command(bytes@),
{
    if bytes.len() != 48 {
        return false;
    }
    let count: u8 = bytes[8];
    let quality: u8 = bytes[9];
    if count < 1 || count > 18 || quality > 100 {
        return false;
    }
    for channel in 0..count
        invariant
            bytes@.len() == 48,
            count == bytes@[8],
            count <= 18,
            forall|j: int| 0 <= j < channel ==> 900 <= #[trigger] channel_value(bytes@, j) <= 2100,
    {
        let width = read_le16(bytes, 10 + 2 * (channel as usize));
        if width < 900 || width > 2100 {
            assert(!(900 <= channel_value(bytes@, channel as int) <= 2100));
            return false;
        }
    }
    true
}

/// The team name and the inner bytes of an envelope.
pub struct EnvelopeView {
    pub name: Seq<char>,
    pub inner: Seq<u8>,
}

/// The characters with the codes `bytes`.
pub open spec fn byte_chars(bytes: Seq<u8>) -> Seq<char> {
    bytes.map_values(|byte: u8| byte as char)
}

/// Takes an envelope apart: four bytes that tell its kind, the length of the
/// team name in one byte, the name, the inner bytes.
pub open spec fn opened(bytes: Seq<u8>, kind: Seq<u8>) -> Option<EnvelopeView> {
    if bytes.len() >= 5 && bytes.take(4) == kind && bytes.len() >= 5 + bytes[4] {
        let end = 5 + bytes[4] as int;
        Some(
            EnvelopeView { name: byte_chars(bytes.subrange(5, end)), inner: bytes.skip(end) },
        )
    } else {
        None
    }
}

/// Puts an envelope together.
pub open spec fn sealed(kind: Seq<u8>, name: Seq<u8>, inner: Seq<u8>) -> Seq<u8> {
    kind + seq![name.len() as u8] + name + inner
}

/// Opening a sealed envelope gives back what was sealed.
pub proof fn sealed_opens(kind: Seq<u8>, name: Seq<u8>, inner: Seq<u8>)
    requires
        kind.len() == 4,
        name.len() <= 255,
    ensures
        opened(sealed(kind, name, inner), kind) == Some(
            EnvelopeView { name: byte_chars(name), inner },
        ),
{
    let bytes = sealed(kind, name, inner);
    let end = 5 + name.len() as int;
    assert(bytes.take(4) =~= kind);
    assert(bytes[4] == name.len());
    assert(bytes.subrange(5, end) =~= name);
    assert(bytes.skip(end) =~= inner);
}

/// An opened envelope.
#[derive(Debug, PartialEq, Eq)]
pub struct Envelope {
    pub name: String,
    pub inner: Vec<u8>,
}

impl View for Envelope {
    type V = EnvelopeView;

    open spec fn view(&self) -> EnvelopeView {
        EnvelopeView { name: self.name@, inner: self.inner@ }
    }
}

/// The value of an envelope, where there is one.
pub open spec fn envelope_view(envelope: Option<Envelope>) -> Option<EnvelopeView> {
    match envelope {
        Some(envelope) => Some(envelope@),
        None => None,
    }
}

/// Opens the envelope in `bytes`, where there is one of kind `kind`.
pub fn open_envelope(bytes: &[u8], kind: &[u8; 4]) -> (envelope: Option<Envelope>)
    ensures
        envelope_view(envelope) == opened(bytes@, kind@),
{
    if bytes.len() < 5 {
        return None;
    }
    for i in 0..4usize
        invariant
            bytes@.len() >= 5,
            forall|j: int| 0 <= j < i ==> bytes@[j] == kind@[j],
    {
        if bytes[i] != kind[i] {
            assert(bytes@.take(4)[i as int] != kind@[i as int]);
            return None;
        }
    }
    assert(bytes@.take(4) =~= kind@);
    let length: u8 = bytes[4];
    if bytes.len() - 5 < length as usize {
        return None;
    }
    let end: usize = 5 + length as usize;
    let mut name = String::new();
    for i in 5..end
        invariant
            end <= bytes@.len(),
            name@ == byte_chars(bytes@.subrange(5, i as int)),
    {
        let byte: u8 = bytes[i];
        name.push(byte as char);
        assert(name@ =~= byte_chars(bytes@.subrange(5, i + 1)));
    }
    let inner = slice_to_vec(slice_subrange(bytes, end, bytes.len()));
    assert(inner@ =~= bytes@.skip(end as int));
    Some(Envelope { name, inner })
}

/// The characters of a key segment.
pub open spec fn segment_char(c: char) -> bool {
    digit(c) || 'a' <= c <= 'z' || 'A' <= c <= 'Z' || c == '-' || c == '_'
}

/// One to 128 ASCII letters, digits, hyphens or underscores.
pub open spec fn safe_segment(s: Seq<char>) -> bool {
    &&& 0 < s.len() <= 128
    &&& forall|i: int| 0 <= i < s.len() ==> segment_char(#[trigger] s[i])
}

/// Whether `chars` can stand as one segment of a key.
pub fn is_safe_segment(chars: &Vec<char>) -> (yes: bool)
    ensures
        yes == safe_segment(chars@),
{
    if chars.len() == 0 || chars.len() > 128 {
        return false;
    }
    for i in 0..chars.len()
        invariant
            forall|j: int| 0 <= j < i ==> segment_char(#[trigger] chars@[j]),
    {
        let c: char = chars[i];
        let code = code_point(c);
        if !(is_digit(c) || (code >= 97 && code <= 122) || (code >= 65 && code <= 90) || c == '-'
            || c == '_') {
            assert(!segment_char(chars@[i as int]));
            return false;
        }
    }
    true
}

/// The parts of a PID controller that may be tuned.
pub open spec fn pid_term(s: Seq<char>) -> bool {
    s == seq!['k', 'p'] || s == seq!['k', 'i'] || s == seq!['k', 'd']
}

/// A dotted parameter name that ends in a PID controller and one of its gains.
pub open spec fn gain_name(s: Seq<char>) -> bool {
    let parts = pieces(s, '.');
    &&& parts.len() >= 2
    &&& forall|i: int| 0 <= i < parts.len() ==> safe_segment(#[trigger] parts[i])
    &&& pid_term(parts.last())
    &&& seq!['P', 'i', 'd'].is_suffix_of(parts[parts.len() - 2])
}

fn is_pid_term(chars: &Vec<char>) -> (yes: bool)
    ensures
        yes == pid_term(chars@),
{
    let yes = chars.len() == 2 && chars[0] == 'k' && (chars[1] == 'p' || chars[1] == 'i' || chars[1]
        == 'd');
    proof {
        if yes {
            assert(chars@ =~= seq!['k', chars@[1]]);
        }
    }
    yes
}

/// Whether `name` names a gain that may be set.
pub fn is_gain_name(name: &str) -> (yes: bool)
    ensures
        yes == gain_name(name@),
{
    let chars = chars_of(name);
    let parts = split(&chars, '.');
    let ghost all = pieces(name@, '.');
    assert(all.len() == parts@.len());
    if parts.len() < 2 {
        return false;
    }
    for i in 0..parts.len()
        invariant
            all == views(parts@),
            all == pieces(name@, '.'),
            forall|j: int| 0 <= j < i ==> safe_segment(#[trigger] all[j]),
    {
        assert(all[i as int] == parts@[i as int]@);
        if !is_safe_segment(&parts[i]) {
            return false;
        }
    }
    let count: usize = parts.len();
    assert(all[count - 1] == parts@[count - 1]@);
    assert(all[count - 2] == parts@[count - 2]@);
    let owner = text_of(&parts[count - 2]);
    proof {
        reveal_strlit("Pid");
        assert("Pid"@ =~= seq!['P', 'i', 'd']);
    }
    is_pid_term(&parts[count - 1]) && strip_suffix(owner.as_str(), "Pid").is_some()
}

/// The bit pattern of a finite double-precision number.
pub open spec fn finite_bits(bits: u64) -> bool {
    (bits / 0x10_0000_0000_0000) % 2048 != 2047
}

/// Why a decoded parameter request is refused, if it is: it has to set a gain
/// to a finite floating-point number.
pub open spec fn gain_refusal(request: Result<Option<ParameterView>, Seq<char>>) -> Option<
    Seq<char>,
> {
    match request {
        Err(message) => Some("invalid ParamSetRequest: "@ + message),
        Ok(None) => Some("gain request carries no value"@),
        Ok(Some(parameter)) => if parameter.name is None || !gain_name(parameter.name->0) {
            Some("parameter is not a tunable gain"@)
        } else if parameter.kind != 0 || !finite_bits(parameter.float_bits) {
            Some("gain must be a finite floating-point value"@)
        } else {
            None
        },
    }
}

/// Why a decoded parameter request is refused, if it is.
pub fn check_gain(request: &Result<Option<Parameter>, String>) -> (refusal: Option<String>)
    ensures
        text_view(refusal) == gain_refusal(request_view(*request)),
{
    match request {
        Err(message) => Some(crate::text::concat("invalid ParamSetRequest: ", message.as_str())),
        Ok(None) => Some("gain request carries no value".to_owned()),
        Ok(Some(parameter)) => {
            let named = match &parameter.name {
                Some(name) => is_gain_name(name.as_str()),
                None => false,
            };
            if !named {
                return Some("parameter is not a tunable gain".to_owned());
            }
            let finite = (parameter.float_bits / 0x10_0000_0000_0000) % 2048 != 2047;
            if parameter.kind != 0 || !finite {
                return Some("gain must be a finite floating-point value".to_owned());
            }
            None
        },
    }
}

} // verus!
