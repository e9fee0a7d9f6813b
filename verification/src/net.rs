//! Network-edge helpers that are pure logic: player-name validation and the
//! offline-mode UUID derivation. The connection handling itself (sockets,
//! packets, clients) stays outside the library.

use vstd::prelude::*;

use sha2::Digest;
use vstd::string::{StringExecFns, StringSliceAdditionalSpecFns};
use vstd::utf8::encode_utf8;

verus! {

/// A Unicode control character: the C0 range and the C1 range including
/// delete.
pub open spec fn spec_is_control(c: char) -> bool {
    (c as u32) <= 0x1f || (0x7f <= (c as u32) && (c as u32) <= 0x9f)
}

/// A valid player name: at most 16 bytes of UTF-8, no control characters,
/// no spaces. The empty name passes this check.
pub open spec fn spec_valid_player_name(s: Seq<char>) -> bool {
    encode_utf8(s).len() <= 16 && forall|i: int|
        0 <= i < s.len() ==> !spec_is_control(#[trigger] s[i]) && s[i] != ' '
}

/// Whether one character is a control character.
fn is_control_char(c: char) -> (r: bool)
    ensures
        r == spec_is_control(c),
{
    let u = c as u32;
    u <= 0x1f || (0x7f <= u && u <= 0x9f)
}

/// Validates a player name: at most 16 bytes, and no control characters or
/// spaces.
pub fn is_valid_player_name(name: &str) -> (r: bool)
    ensures
        r == spec_valid_player_name(name@),
{
    let bytes = name.as_bytes();
    if bytes.len() > 16 {
        proof {
            assert(name.spec_bytes() == encode_utf8(name@));
        }
        return false;
    }
    proof {
        assert(name.spec_bytes() == encode_utf8(name@));
    }
    let n = name.unicode_len();
    let mut i: usize = 0;
    while i < n
        invariant
            n == name@.len(),
            i <= n,
            encode_utf8(name@).len() <= 16,
            forall|x: int|
                0 <= x < i ==> !spec_is_control(#[trigger] name@[x]) && name@[x] != ' ',
        decreases n - i,
    {
        let c = name.get_char(i);
        if is_control_char(c) || c == ' ' {
            return false;
        }
        i = i + 1;
    }
    true
}

/// Why enabling protocol encryption failed.
#[derive(Clone, Copy, Debug, PartialEq, Eq, Structural)]
pub enum EncryptionError {
    /// The shared secret could not be decrypted.
    FailedDecrypt,
    /// The shared secret has the wrong length.
    SharedWrongLength,
}

impl EncryptionError {
    /// The error's user-facing message.
    pub fn message(&self) -> (r: String)
        ensures
            *self is FailedDecrypt ==> r@ == "failed to decrypt shared secret"@,
            *self is SharedWrongLength ==> r@ == "shared secret has the wrong length"@,
    {
        match self {
            EncryptionError::FailedDecrypt => String::from_str(
                "failed to decrypt shared secret",
            ),
            EncryptionError::SharedWrongLength => String::from_str(
                "shared secret has the wrong length",
            ),
        }
    }
}

#[verifier::external_type_specification]
#[verifier::external_body]
pub struct ExUuid(uuid::Uuid);

#[verifier::external_type_specification]
#[verifier::external_body]
pub struct ExUuidError(uuid::Error);

/// The SHA-256 digest of a byte string: a function of the bytes alone.
pub uninterp spec fn sha256_of(data: Seq<u8>) -> Seq<u8>;

/// The UUID standing for sixteen bytes: a function of the bytes alone.
pub uninterp spec fn uuid_of_bytes(b: Seq<u8>) -> uuid::Uuid;

/// Relies on sha2's `Sha256` through `Digest::digest`: the digest depends on
/// the input bytes alone, and SHA-256 produces exactly 32 bytes.
#[verifier::external_body]
fn sha256_digest(data: &[u8]) -> (r: Vec<u8>)
    ensures
        r@ == sha256_of(data@),
        r@.len() == 32,
{
    sha2::Sha256::digest(data).to_vec()
}

/// Relies on `uuid::Uuid::from_slice`: it returns a UUID built from the
/// bytes exactly when given sixteen of them, and an error otherwise.
#[verifier::external_body]
fn uuid_from_slice(b: &[u8]) -> (r: Result<uuid::Uuid, uuid::Error>)
    ensures
        r matches Ok(u) ==> b@.len() == 16 && u == uuid_of_bytes(b@),
        r is Err ==> b@.len() != 16,
{
    uuid::Uuid::from_slice(b)
}

/// The offline-mode UUID of a username: the first sixteen bytes of the
/// SHA-256 digest of the name's UTF-8 bytes, read as a UUID. It exists for
/// every username.
pub fn offline_uuid(username: &str) -> (r: Result<uuid::Uuid, uuid::Error>)
    ensures
        r == Ok::<uuid::Uuid, uuid::Error>(
            uuid_of_bytes(sha256_of(encode_utf8(username@)).take(16)),
        ),
{
    let digest = sha256_digest(username.as_bytes());
    let mut head: Vec<u8> = Vec::new();
    let mut i: usize = 0;
    while i < 16
        invariant
            digest@ == sha256_of(encode_utf8(username@)),
            digest@.len() == 32,
            i <= 16,
            head@ == digest@.take(i as int),
        decreases 16 - i,
    {
        head.push(digest[i]);
        i = i + 1;
        proof {
            assert(head@ =~= digest@.take(i as int));
        }
    }
    uuid_from_slice(head.as_slice())
}

} // verus!
