//! Team names and the credential ids derived from them.

use sha2::{Digest, Sha256};
use vstd::prelude::*;
use vstd::utf8::encode_utf8;

use crate::number::{digit, is_digit};
use crate::text::{chars_of, code_point, text_between};

verus! {

/// A team and the public id under which its status is published.
#[derive(Debug, PartialEq, Eq)]
pub struct Credential {
    pub device_id: String,
    pub credential_id: String,
}

/// The value of a [`Credential`].
pub struct CredentialView {
    pub device_id: Seq<char>,
    pub credential_id: Seq<char>,
}

impl View for Credential {
    type V = CredentialView;

    open spec fn view(&self) -> CredentialView {
        CredentialView { device_id: self.device_id@, credential_id: self.credential_id@ }
    }
}

impl Clone for Credential {
    fn clone(&self) -> (copy: Self)
        ensures
            copy@ == self@,
    {
        Credential {
            device_id: self.device_id.clone(),
            credential_id: self.credential_id.clone(),
        }
    }
}

/// The SHA-256 digest of `data`.
pub uninterp spec fn sha256(data: Seq<u8>) -> Seq<u8>;

/// `sha2::Sha256::digest`: the digest is a function of the bytes alone and
/// 32 bytes long.
#[verifier::external_body]
fn sha256_digest(data: &[u8]) -> (digest: Vec<u8>)
    ensures
        digest@ == sha256(data@),
        digest@.len() == 32,
{
    Sha256::digest(data).to_vec()
}

/// The characters that a team name may hold.
pub open spec fn safe_char(c: char) -> bool {
    digit(c) || 'a' <= c <= 'z' || 'A' <= c <= 'Z' || c == '-' || c == '_' || c == '.' || c == ':'
}

/// One to 128 ASCII letters, digits, hyphens, underscores, dots or colons.
pub open spec fn safe_id(s: Seq<char>) -> bool {
    &&& 0 < s.len() <= 128
    &&& forall|i: int| 0 <= i < s.len() ==> safe_char(#[trigger] s[i])
}

/// The lower-case hexadecimal digit that stands for `nibble`.
pub open spec fn hex_digit(nibble: int) -> char {
    if nibble < 10 {
        ('0' as int + nibble) as char
    } else {
        ('a' as int + (nibble - 10)) as char
    }
}

/// `bytes` in lower-case hexadecimal, two digits to a byte.
pub open spec fn hex(bytes: Seq<u8>) -> Seq<char>
    decreases bytes.len(),
{
    if bytes.len() == 0 {
        Seq::empty()
    } else {
        hex(bytes.drop_last()) + seq![
            hex_digit(bytes.last() as int / 16),
            hex_digit(bytes.last() as int % 16),
        ]
    }
}

/// The full hash of a team name, in hexadecimal.
pub open spec fn hash_of_name(name: Seq<char>) -> Seq<char> {
    hex(sha256(encode_utf8(name)))
}

/// The credential id of a team: the first 16 digits of the hash of its name.
pub open spec fn id_of_name(name: Seq<char>) -> Seq<char> {
    hash_of_name(name).take(16)
}

/// A lower-case hexadecimal digit.
pub open spec fn lower_hex(c: char) -> bool {
    digit(c) || 'a' <= c <= 'f'
}

/// Two lower-case hexadecimal digits stand for each byte.
proof fn hex_shape(bytes: Seq<u8>)
    ensures
        hex(bytes).len() == 2 * bytes.len(),
        forall|i: int| 0 <= i < hex(bytes).len() ==> lower_hex(#[trigger] hex(bytes)[i]),
    decreases bytes.len(),
{
    if bytes.len() > 0 {
        hex_shape(bytes.drop_last());
        let last = bytes.last();
        assert(0 <= last as int / 16 < 16);
        let front = hex(bytes.drop_last());
        assert forall|i: int| 0 <= i < hex(bytes).len() implies lower_hex(
            #[trigger] hex(bytes)[i],
        ) by {
            if i < front.len() {
                assert(hex(bytes)[i] == front[i]);
            }
        }
    }
}

/// The number that a lower-case hexadecimal digit stands for.
pub open spec fn nibble_of(c: char) -> int {
    if '0' <= c <= '9' {
        c as int - '0' as int
    } else {
        c as int - 'a' as int + 10
    }
}

/// Each byte is spelled by two lower-case digits, the higher one first.
pub proof fn hex_spells_each_byte(bytes: Seq<u8>, i: int)
    requires
        0 <= i < bytes.len(),
    ensures
        hex(bytes).len() == 2 * bytes.len(),
        lower_hex(hex(bytes)[2 * i]),
        lower_hex(hex(bytes)[2 * i + 1]),
        forall|c: char| #[trigger]
            lower_hex(c) <==> 48 <= c as int <= 57 || 97 <= c as int <= 102,
        16 * nibble_of(hex(bytes)[2 * i]) + nibble_of(hex(bytes)[2 * i + 1]) == bytes[i],
    decreases bytes.len(),
{
    hex_shape(bytes);
    let front = bytes.drop_last();
    hex_shape(front);
    if i < front.len() {
        hex_spells_each_byte(front, i);
        assert(hex(bytes)[2 * i] == hex(front)[2 * i]);
        assert(hex(bytes)[2 * i + 1] == hex(front)[2 * i + 1]);
    } else {
        let last = bytes.last() as int;
        assert(0 <= last / 16 < 16 && 0 <= last % 16 < 16);
    }
}

/// The credential id of a team spells the first eight bytes of the hash of its
/// name.
pub proof fn credential_ids_spell_the_hash(name: Seq<char>, i: int)
    requires
        sha256(encode_utf8(name)).len() == 32,
        0 <= i < 8,
    ensures
        ({
            let id = id_of_name(name);
            &&& id.len() == 16
            &&& 16 * nibble_of(id[2 * i]) + nibble_of(id[2 * i + 1]) == sha256(encode_utf8(name))[i]
        }),
{
    hex_spells_each_byte(sha256(encode_utf8(name)), i);
}

fn hex_digit_of(nibble: u8) -> (c: char)
    requires
        nibble < 16,
    ensures
        c == hex_digit(nibble as int),
{
    if nibble < 10 {
        (48 + nibble) as char
    } else {
        (87 + nibble) as char
    }
}

fn is_safe_char(c: char) -> (yes: bool)
    ensures
        yes == safe_char(c),
{
    let code = code_point(c);
    is_digit(c) || (code >= 97 && code <= 122) || (code >= 65 && code <= 90) || c == '-' || c == '_'
        || c == '.' || c == ':'
}

/// Whether `value` can name a team.
pub fn safe_device_id(value: &str) -> (yes: bool)
    ensures
        yes == safe_id(value@),
{
    let chars = chars_of(value);
    if chars.len() == 0 || chars.len() > 128 {
        return false;
    }
    for i in 0..chars.len()
        invariant
            chars@ == value@,
            forall|j: int| 0 <= j < i ==> safe_char(#[trigger] chars@[j]),
    {
        if !is_safe_char(chars[i]) {
            return false;
        }
    }
    true
}

/// `bytes` in lower-case hexadecimal, two digits to a byte.
pub fn hex_text(bytes: &Vec<u8>) -> (text: String)
    ensures
        text@ == hex(bytes@),
{
    let mut text = String::new();
    for i in 0..bytes.len()
        invariant
            text@ == hex(bytes@.take(i as int)),
    {
        let byte: u8 = bytes[i];
        assert(bytes@.take(i + 1).drop_last() =~= bytes@.take(i as int));
        text.push(hex_digit_of(byte / 16));
        text.push(hex_digit_of(byte % 16));
        assert(text@ =~= hex(bytes@.take(i + 1)));
    }
    assert(bytes@.take(bytes@.len() as int) =~= bytes@);
    text
}

/// The hash of `team_name`, in hexadecimal.
pub fn name_hash(team_name: &str) -> (output: String)
    ensures
        output@ == hash_of_name(team_name@),
        output@.len() == 64,
        forall|i: int| 0 <= i < 64 ==> lower_hex(#[trigger] output@[i]),
{
    let digest = sha256_digest(team_name.as_bytes());
    proof {
        hex_shape(digest@);
    }
    hex_text(&digest)
}

/// The public id of a team: 16 lower-case hexadecimal digits that depend on
/// its name alone.
pub fn credential_id(team_name: &str) -> (id: String)
    ensures
        id@ == id_of_name(team_name@),
        id@.len() == 16,
        forall|i: int| 0 <= i < 16 ==> lower_hex(#[trigger] id@[i]),
{
    let hash = chars_of(name_hash(team_name).as_str());
    assert(hash@.take(16) =~= hash@.subrange(0, 16));
    text_between(&hash, 0, 16)
}

} // verus!
