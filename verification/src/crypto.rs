//! Protection of messages for one paired session: the key derived from the
//! pairing secret, authenticated encryption of payloads, and the keyed
//! checksum over a message's fields.

use vstd::prelude::*;
use vstd::slice::slice_subrange;
use vstd::utf8::{decode_utf8, encode_utf8, valid_utf8};
use crate::text::{remove_char, without_char};
use std::string::FromUtf8Error;
use aes_gcm::aead::{Aead, KeyInit};
use base64::Engine;
use rand::RngCore;
use sha2::Digest;

verus! {

/// Rounds of the key derivation.
pub const PBKDF2_ITERATIONS: u32 = 100_000u32;

/// Bytes of a nonce.
pub const NONCE_SIZE: usize = 12usize;

/// Bytes of a key.
pub const KEY_SIZE: usize = 32usize;

/// Bytes that the cipher adds to a plaintext as its tag.
pub const TAG_SIZE: usize = 16usize;

/// The longest plaintext, in bytes, that the cipher takes.
pub const MAX_PLAINTEXT_LEN: u64 = 0x10_0000_0000u64;

/// The salt of the key derivation, as text.
pub open spec fn salt_text() -> Seq<char> {
    "speech2prompt_v1"@
}

/// Why an encryption or a decryption failed.
#[derive(Debug, Clone, Copy, PartialEq, Eq, Structural)]
pub enum CryptoError {
    /// The system gave no random bytes for the nonce.
    RandomUnavailable,
    /// The cipher refused the plaintext: it is too long.
    EncryptionFailed,
    /// Nonce and ciphertext together are too long to be encoded.
    TokenTooLong,
    /// The token is no base64 text.
    Base64DecodeFailed,
    /// The token holds fewer bytes than a nonce.
    CiphertextTooShort,
    /// The tag does not fit key, nonce and ciphertext.
    DecryptionFailed,
    /// The plaintext is no UTF-8 text.
    Utf8DecodeFailed,
}

impl CryptoError {
    /// The error in words.
    pub fn message(&self) -> (text: &'static str)
        ensures
            text@ == match self {
                CryptoError::RandomUnavailable => "Random source unavailable"@,
                CryptoError::EncryptionFailed => "Encryption failed"@,
                CryptoError::TokenTooLong => "Ciphertext too long"@,
                CryptoError::Base64DecodeFailed => "Base64 decode failed"@,
                CryptoError::CiphertextTooShort => "Ciphertext too short"@,
                CryptoError::DecryptionFailed => "Decryption failed"@,
                CryptoError::Utf8DecodeFailed => "UTF-8 decode failed"@,
            },
    {
        match self {
            CryptoError::RandomUnavailable => "Random source unavailable",
            CryptoError::EncryptionFailed => "Encryption failed",
            CryptoError::TokenTooLong => "Ciphertext too long",
            CryptoError::Base64DecodeFailed => "Base64 decode failed",
            CryptoError::CiphertextTooShort => "Ciphertext too short",
            CryptoError::DecryptionFailed => "Decryption failed",
            CryptoError::Utf8DecodeFailed => "UTF-8 decode failed",
        }
    }
}

/// The 32 bytes that PBKDF2 with HMAC-SHA-256 derives from a password and
/// a salt in the given number of rounds.
pub uninterp spec fn pbkdf2_hmac_sha256(password: Seq<u8>, salt: Seq<u8>, rounds: u32) -> Seq<u8>;

/// Derives 32 bytes from a password.
///
/// Calls `pbkdf2::pbkdf2_hmac` with `sha2::Sha256` on an output of 32
/// bytes. The contract gives the bytes a name: they depend on password,
/// salt and rounds alone.
#[verifier::external_body]
fn pbkdf2_sha256_key(password: &[u8], salt: &[u8], rounds: u32) -> (key: [u8; 32])
    ensures
        key@ == pbkdf2_hmac_sha256(password@, salt@, rounds),
{
    let mut key = [0u8; 32];
    pbkdf2::pbkdf2_hmac::<sha2::Sha256>(password, salt, rounds, &mut key);
    key
}

/// The SHA-256 digest of the bytes: 32 bytes.
pub uninterp spec fn sha256(data: Seq<u8>) -> Seq<u8>;

/// Hashes the bytes.
///
/// Calls `sha2::Sha256::digest`. The contract gives the digest a name and
/// states its length, which is that of the array the crate returns.
#[verifier::external_body]
fn sha256_digest(data: &[u8]) -> (digest: [u8; 32])
    ensures
        digest@ == sha256(data@),
        digest@.len() == 32,
{
    sha2::Sha256::digest(data).into()
}

/// The character of a hexadecimal digit, in lower case.
pub open spec fn hex_digit(value: int) -> char {
    if value == 0 {
        '0'
    } else if value == 1 {
        '1'
    } else if value == 2 {
        '2'
    } else if value == 3 {
        '3'
    } else if value == 4 {
        '4'
    } else if value == 5 {
        '5'
    } else if value == 6 {
        '6'
    } else if value == 7 {
        '7'
    } else if value == 8 {
        '8'
    } else if value == 9 {
        '9'
    } else if value == 10 {
        'a'
    } else if value == 11 {
        'b'
    } else if value == 12 {
        'c'
    } else if value == 13 {
        'd'
    } else if value == 14 {
        'e'
    } else {
        'f'
    }
}

/// The bytes in hexadecimal: two digits in lower case for each byte, the
/// high one first.
pub open spec fn hex_lower(data: Seq<u8>) -> Seq<char>
    decreases data.len(),
{
    if data.len() == 0 {
        Seq::empty()
    } else {
        hex_lower(data.drop_last()).push(hex_digit(data.last() as int / 16)).push(
            hex_digit(data.last() as int % 16),
        )
    }
}

/// Writes the bytes in hexadecimal.
///
/// Calls `hex::encode`, which writes each byte as two digits from
/// `0123456789abcdef`, the high four bits first.
#[verifier::external_body]
fn hex_encode(data: &[u8]) -> (text: String)
    ensures
        text@ == hex_lower(data@),
{
    hex::encode(data)
}

/// What AES-256-GCM makes of a plaintext under a key of 32 bytes and a
/// nonce of 12 bytes: the ciphertext followed by the tag; nothing where
/// the cipher refuses the plaintext.
pub uninterp spec fn aes256_gcm_sealed(key: Seq<u8>, nonce: Seq<u8>, plaintext: Seq<u8>) -> Option<
    Seq<u8>,
>;

/// The plaintext that AES-256-GCM recovers from ciphertext and tag under
/// a key and a nonce; nothing where the tag does not fit.
pub uninterp spec fn aes256_gcm_opened(key: Seq<u8>, nonce: Seq<u8>, sealed: Seq<u8>) -> Option<
    Seq<u8>,
>;

/// The error of the cipher. It says nothing but that the cipher failed.
#[verifier::external_type_specification]
#[verifier::external_body]
pub struct ExAeadError(aes_gcm::Error);

/// Encrypts with AES-256-GCM and no associated data.
///
/// Calls `Aes256Gcm::new` and `Aead::encrypt` of the crate `aes_gcm`. The
/// contract names the result; it states that the cipher fails exactly on a
/// plaintext of more than 2^36 bytes, that it adds a tag of 16 bytes, and
/// that decryption under the same key and nonce gives the plaintext back.
#[verifier::external_body]
fn aes256_gcm_seal(key: &[u8], nonce: &[u8], plaintext: &[u8]) -> (sealed: Result<
    Vec<u8>,
    aes_gcm::Error,
>)
    requires
        key@.len() == KEY_SIZE,
        nonce@.len() == NONCE_SIZE,
    ensures
        sealed is Ok <==> plaintext@.len() <= MAX_PLAINTEXT_LEN,
        match sealed {
            Ok(bytes) => aes256_gcm_sealed(key@, nonce@, plaintext@) == Some(bytes@) && bytes@.len()
                == plaintext@.len() + TAG_SIZE && aes256_gcm_opened(key@, nonce@, bytes@) == Some(
                plaintext@,
            ),
            Err(_) => aes256_gcm_sealed(key@, nonce@, plaintext@) is None,
        },
{
    let cipher = aes_gcm::Aes256Gcm::new(aes_gcm::Key::<aes_gcm::Aes256Gcm>::from_slice(key));
    cipher.encrypt(aes_gcm::Nonce::from_slice(nonce), plaintext)
}

/// Decrypts with AES-256-GCM and no associated data.
///
/// Calls `Aes256Gcm::new` and `Aead::decrypt` of the crate `aes_gcm`. The
/// contract names the result.
#[verifier::external_body]
fn aes256_gcm_open(key: &[u8], nonce: &[u8], sealed: &[u8]) -> (opened: Result<
    Vec<u8>,
    aes_gcm::Error,
>)
    requires
        key@.len() == KEY_SIZE,
        nonce@.len() == NONCE_SIZE,
    ensures
        match opened {
            Ok(bytes) => aes256_gcm_opened(key@, nonce@, sealed@) == Some(bytes@),
            Err(_) => aes256_gcm_opened(key@, nonce@, sealed@) is None,
        },
{
    let cipher = aes_gcm::Aes256Gcm::new(aes_gcm::Key::<aes_gcm::Aes256Gcm>::from_slice(key));
    cipher.decrypt(aes_gcm::Nonce::from_slice(nonce), sealed)
}

/// The bytes in base64 with the standard alphabet and padding.
pub uninterp spec fn base64_text(data: Seq<u8>) -> Seq<char>;

/// The bytes that a base64 text with the standard alphabet and padding
/// stands for; nothing where the text is no such text.
pub uninterp spec fn base64_bytes(text: Seq<char>) -> Option<Seq<u8>>;

/// The error of the base64 decoder.
#[verifier::external_type_specification]
#[verifier::external_body]
pub struct ExDecodeError(base64::DecodeError);

/// Writes bytes in base64.
///
/// Calls `Engine::encode` on `base64::engine::general_purpose::STANDARD`.
/// The contract names the text and states that decoding it gives the bytes
/// back. The call panics where the length of the text does not fit
/// `usize`: such inputs are left out.
#[verifier::external_body]
pub(crate) fn base64_encode(data: &[u8]) -> (text: String)
    requires
        data@.len() <= usize::MAX / 2,
    ensures
        text@ == base64_text(data@),
        base64_bytes(text@) == Some(data@),
{
    base64::engine::general_purpose::STANDARD.encode(data)
}

/// Reads bytes from base64.
///
/// Calls `Engine::decode` on `base64::engine::general_purpose::STANDARD`.
/// The contract names the result.
#[verifier::external_body]
pub(crate) fn base64_decode(text: &str) -> (data: Result<Vec<u8>, base64::DecodeError>)
    ensures
        match data {
            Ok(bytes) => base64_bytes(text@) == Some(bytes@),
            Err(_) => base64_bytes(text@) is None,
        },
{
    base64::engine::general_purpose::STANDARD.decode(text)
}

/// Random bytes from the operating system, or nothing where it gives none.
///
/// Calls `RngCore::try_fill_bytes` on `rand::rngs::OsRng`. Nothing is
/// claimed of the bytes.
#[verifier::external_body]
pub(crate) fn random_array<const N: usize>() -> Option<[u8; N]> {
    let mut bytes = [0u8; N];
    match rand::rngs::OsRng.try_fill_bytes(&mut bytes) {
        Ok(()) => Some(bytes),
        Err(_) => None,
    }
}

/// The error of `String::from_utf8`.
#[verifier::external_type_specification]
#[verifier::external_body]
pub struct ExFromUtf8Error(FromUtf8Error);

/// `String::from_utf8` of std: the text that the bytes encode, and an
/// error exactly where the bytes are no UTF-8.
pub assume_specification[ String::from_utf8 ](bytes: Vec<u8>) -> (text: Result<
    String,
    FromUtf8Error,
>)
    ensures
        match text {
            Ok(inner) => valid_utf8(bytes@) && inner@ == decode_utf8(bytes@),
            Err(_) => !valid_utf8(bytes@),
        },
;

/// A number in decimal digits, as ASCII bytes.
pub open spec fn decimal(n: nat) -> Seq<u8>
    decreases n,
{
    if n < 10 {
        seq![(48 + n) as u8]
    } else {
        decimal(n / 10).push((48 + n % 10) as u8)
    }
}

/// Adds a number in decimal digits to the bytes.
fn push_decimal(out: &mut Vec<u8>, n: u64)
    ensures
        final(out)@ == old(out)@ + decimal(n as nat),
    decreases n,
{
    if n >= 10 {
        push_decimal(out, n / 10);
    }
    let digit: u8 = 48u8 + (n % 10) as u8;
    out.push(digit);
    assert(out@ =~= old(out)@ + decimal(n as nat));
}

/// The bytes that the key of a PIN pairing is derived from.
pub open spec fn pin_password(pin: Seq<char>, android_id: Seq<char>, linux_id: Seq<char>) -> Seq<u8> {
    encode_utf8(pin + android_id + linux_id)
}

/// The bytes that the key of a key-exchange pairing is derived from.
pub open spec fn ecdh_password(shared_secret: Seq<u8>, android_id: Seq<char>, linux_id: Seq<char>)
    -> Seq<u8> {
    encode_utf8(hex_lower(shared_secret) + android_id + linux_id)
}

/// The key of a session paired by PIN: bound to the PIN and to both
/// device identifiers.
pub open spec fn derived_key(pin: Seq<char>, android_id: Seq<char>, linux_id: Seq<char>) -> Seq<u8> {
    pbkdf2_hmac_sha256(
        pin_password(pin, android_id, linux_id),
        encode_utf8(salt_text()),
        PBKDF2_ITERATIONS,
    )
}

/// The key of a session paired by key exchange: bound to the shared secret
/// and to both device identifiers.
pub open spec fn derived_key_from_ecdh(
    shared_secret: Seq<u8>,
    android_id: Seq<char>,
    linux_id: Seq<char>,
) -> Seq<u8> {
    pbkdf2_hmac_sha256(
        ecdh_password(shared_secret, android_id, linux_id),
        encode_utf8(salt_text()),
        PBKDF2_ITERATIONS,
    )
}

/// The token that encryption under a key and a nonce makes of a text:
/// nonce, ciphertext and tag in base64.
pub open spec fn sealed_token(key: Seq<u8>, nonce: Seq<u8>, plaintext: Seq<char>) -> Result<
    Seq<char>,
    CryptoError,
> {
    match aes256_gcm_sealed(key, nonce, encode_utf8(plaintext)) {
        None => Err(CryptoError::EncryptionFailed),
        Some(sealed) => if nonce.len() + sealed.len() > usize::MAX / 2 {
            Err(CryptoError::TokenTooLong)
        } else {
            Ok(base64_text(nonce + sealed))
        },
    }
}

/// The text that decryption under a key recovers from a token, or why it
/// recovers none.
pub open spec fn opened_token(key: Seq<u8>, token: Seq<char>) -> Result<Seq<char>, CryptoError> {
    match base64_bytes(token) {
        None => Err(CryptoError::Base64DecodeFailed),
        Some(combined) => if combined.len() < NONCE_SIZE {
            Err(CryptoError::CiphertextTooShort)
        } else {
            match aes256_gcm_opened(
                key,
                combined.subrange(0, NONCE_SIZE as int),
                combined.subrange(NONCE_SIZE as int, combined.len() as int),
            ) {
                None => Err(CryptoError::DecryptionFailed),
                Some(plain) => if valid_utf8(plain) {
                    Ok(decode_utf8(plain))
                } else {
                    Err(CryptoError::Utf8DecodeFailed)
                },
            }
        },
    }
}

/// The bytes that the checksum of a message is taken of: version, type,
/// payload and timestamp, one after the other, followed by the secret.
/// Version and timestamp go in as decimal digits.
pub open spec fn checksum_input(
    version: u8,
    msg_type: Seq<char>,
    payload: Seq<char>,
    timestamp: u64,
    secret: Seq<u8>,
) -> Seq<u8> {
    decimal(version as nat) + encode_utf8(msg_type) + encode_utf8(payload) + decimal(
        timestamp as nat,
    ) + secret
}

/// The checksum of a message's fields under a secret: the first four bytes,
/// in hexadecimal, of the SHA-256 digest of version, type, payload and
/// timestamp followed by the secret. Version and timestamp go in as decimal
/// digits.
pub open spec fn checksum_of(
    version: u8,
    msg_type: Seq<char>,
    payload: Seq<char>,
    timestamp: u64,
    secret: Seq<u8>,
) -> Seq<char> {
    hex_lower(sha256(checksum_input(version, msg_type, payload, timestamp, secret)).subrange(0, 4))
}

/// Derives the key of a session paired by PIN.
pub fn derive_key(pin: &str, android_id: &str, linux_id: &str) -> (key: [u8; 32])
    ensures
        key@ == derived_key(pin@, android_id@, linux_id@),
{
    let mut password = String::from_str(pin);
    password.append(android_id);
    password.append(linux_id);
    pbkdf2_sha256_key(password.as_str().as_bytes(), "speech2prompt_v1".as_bytes(), PBKDF2_ITERATIONS)
}

/// Derives the key of a session paired by key exchange. The shared secret
/// gives the strength; the device identifiers bind the key to the pair.
pub fn derive_key_from_ecdh(shared_secret: &[u8; 32], android_id: &str, linux_id: &str) -> (key: [
    u8;
    32
])
    ensures
        key@ == derived_key_from_ecdh(shared_secret@, android_id@, linux_id@),
{
    let mut password = hex_encode(shared_secret.as_slice());
    password.append(android_id);
    password.append(linux_id);
    pbkdf2_sha256_key(password.as_str().as_bytes(), "speech2prompt_v1".as_bytes(), PBKDF2_ITERATIONS)
}

/// Encrypts a text under a key with the given nonce. The nonce must be
/// used for one message only.
pub fn encrypt_with_nonce(plaintext: &str, key: &[u8; 32], nonce: &[u8; 12]) -> (token: Result<
    String,
    CryptoError,
>)
    ensures
        match token {
            Ok(text) => {
                &&& sealed_token(key@, nonce@, plaintext@) == Ok::<Seq<char>, CryptoError>(text@)
                &&& opened_token(key@, text@) == Ok::<Seq<char>, CryptoError>(plaintext@)
                &&& aes256_gcm_sealed(key@, nonce@, encode_utf8(plaintext@)) matches Some(sealed)
                    && base64_bytes(text@) == Some(nonce@ + sealed) && sealed.len() == encode_utf8(
                    plaintext@,
                ).len() + TAG_SIZE
            },
            Err(why) => sealed_token(key@, nonce@, plaintext@) == Err::<Seq<char>, CryptoError>(
                why,
            ),
        },
        plaintext@.len() <= 0x1000_0000 ==> token is Ok,
{
    let plain = plaintext.as_bytes();
    proof {
        lemma_utf8_length(plaintext@);
    }
    match aes256_gcm_seal(key.as_slice(), nonce.as_slice(), plain) {
        Err(_) => Err(CryptoError::EncryptionFailed),
        Ok(sealed) => {
            if sealed.len() > usize::MAX / 2 - NONCE_SIZE {
                return Err(CryptoError::TokenTooLong);
            }
            let mut combined: Vec<u8> = Vec::new();
            combined.extend_from_slice(nonce.as_slice());
            combined.extend_from_slice(sealed.as_slice());
            assert(combined@ =~= nonce@ + sealed@);
            let text = base64_encode(combined.as_slice());
            proof {
                assert(combined@.subrange(0, NONCE_SIZE as int) =~= nonce@);
                assert(combined@.subrange(NONCE_SIZE as int, combined@.len() as int) =~= sealed@);
                vstd::utf8::encode_utf8_valid_utf8(plaintext@);
                vstd::utf8::encode_utf8_decode_utf8(plaintext@);
            }
            Ok(text)
        },
    }
}

/// A text of `n` characters has at most `4 * n` bytes in UTF-8.
pub proof fn lemma_utf8_length(text: Seq<char>)
    ensures
        encode_utf8(text).len() <= 4 * text.len(),
    decreases text.len(),
{
    if text.len() > 0 {
        lemma_utf8_length(text.drop_first());
    }
}

/// Encrypts a text under a key with a fresh random nonce.
pub fn encrypt(plaintext: &str, key: &[u8; 32]) -> (token: Result<String, CryptoError>)
    ensures
        match token {
            Ok(text) => opened_token(key@, text@) == Ok::<Seq<char>, CryptoError>(plaintext@)
                && exists|nonce: Seq<u8>|
                nonce.len() == NONCE_SIZE && #[trigger] sealed_token(key@, nonce, plaintext@)
                    == Ok::<Seq<char>, CryptoError>(text@),
            Err(why) => why == CryptoError::RandomUnavailable || exists|nonce: Seq<u8>|
                nonce.len() == NONCE_SIZE && #[trigger] sealed_token(key@, nonce, plaintext@)
                    == Err::<Seq<char>, CryptoError>(why),
        },
{
    match random_array::<12>() {
        None => Err(CryptoError::RandomUnavailable),
        Some(nonce) => {
            let token = encrypt_with_nonce(plaintext, key, &nonce);
            assert(nonce@.len() == NONCE_SIZE);
            token
        },
    }
}

/// Decrypts a token under a key: it fails if the token is no base64, holds
/// no nonce, if the tag does not fit, or if the plaintext is no text.
pub fn decrypt(ciphertext: &str, key: &[u8; 32]) -> (plaintext: Result<String, CryptoError>)
    ensures
        match plaintext {
            Ok(text) => opened_token(key@, ciphertext@) == Ok::<Seq<char>, CryptoError>(text@),
            Err(why) => opened_token(key@, ciphertext@) == Err::<Seq<char>, CryptoError>(why),
        },
{
    let combined = match base64_decode(ciphertext) {
        Ok(bytes) => bytes,
        Err(_) => {
            return Err(CryptoError::Base64DecodeFailed);
        },
    };
    if combined.len() < NONCE_SIZE {
        return Err(CryptoError::CiphertextTooShort);
    }
    let nonce = slice_subrange(combined.as_slice(), 0, NONCE_SIZE);
    let sealed = slice_subrange(combined.as_slice(), NONCE_SIZE, combined.len());
    let plain = match aes256_gcm_open(key.as_slice(), nonce, sealed) {
        Ok(bytes) => bytes,
        Err(_) => {
            return Err(CryptoError::DecryptionFailed);
        },
    };
    match String::from_utf8(plain) {
        Ok(text) => Ok(text),
        Err(_) => Err(CryptoError::Utf8DecodeFailed),
    }
}

/// The checksum of a message's fields under a secret: eight hexadecimal
/// digits.
pub fn checksum(version: u8, msg_type: &str, payload: &str, timestamp: u64, secret: &[u8]) -> (sum:
    String)
    ensures
        sum@ == checksum_of(version, msg_type@, payload@, timestamp, secret@),
        sum@.len() == 8,
{
    let mut data: Vec<u8> = Vec::new();
    push_decimal(&mut data, version as u64);
    data.extend_from_slice(msg_type.as_bytes());
    data.extend_from_slice(payload.as_bytes());
    push_decimal(&mut data, timestamp);
    data.extend_from_slice(secret);
    assert(data@ =~= decimal(version as nat) + encode_utf8(msg_type@) + encode_utf8(payload@)
        + decimal(timestamp as nat) + secret@);
    let digest = sha256_digest(data.as_slice());
    let head = slice_subrange(digest.as_slice(), 0, 4);
    proof {
        lemma_hex_length(head@);
    }
    hex_encode(head)
}

/// Hexadecimal takes two digits for each byte.
pub proof fn lemma_hex_length(data: Seq<u8>)
    ensures
        hex_lower(data).len() == 2 * data.len(),
    decreases data.len(),
{
    if data.len() > 0 {
        lemma_hex_length(data.drop_last());
    }
}

/// The identifier of a device with the given 16 bytes: `linux-` and the
/// bytes in hexadecimal.
pub open spec fn device_id_text(bytes: Seq<u8>) -> Seq<char> {
    "linux-"@ + hex_lower(bytes)
}

/// The identifier of a device with the given 16 bytes.
pub fn device_id_of(bytes: &[u8; 16]) -> (id: String)
    ensures
        id@ == device_id_text(bytes@),
        id@.len() == "linux-"@.len() + 32,
{
    let mut id = String::from_str("linux-");
    let digits = hex_encode(bytes.as_slice());
    proof {
        lemma_hex_length(bytes@);
    }
    id.append(digits.as_str());
    id
}

/// A identifier for this device: `linux-` and 32 random hexadecimal
/// digits; nothing where the system gives no random bytes.
pub fn generate_device_id() -> (id: Option<String>)
    ensures
        id matches Some(text) ==> exists|bytes: Seq<u8>|
            bytes.len() == 16 && text@ == #[trigger] device_id_text(bytes),
{
    match random_array::<16>() {
        None => None,
        Some(bytes) => {
            assert(bytes@.len() == 16);
            Some(device_id_of(&bytes))
        },
    }
}

/// The identifier of a desktop whose Bluetooth adapter has the given
/// address: `linux-` and the address without its colons.
pub open spec fn device_id_for(address: Seq<char>) -> Seq<char> {
    "linux-"@ + without_char(address, ':')
}

/// The identifier of a desktop whose Bluetooth adapter has the given
/// address.
pub fn device_id_for_address(address: &str) -> (id: String)
    ensures
        id@ == device_id_for(address@),
{
    let mut id = String::from_str("linux-");
    let bare = remove_char(address, ':');
    id.append(bare.as_str());
    id
}

/// What protects the messages of one paired session: a key of 256 bits.
pub struct CryptoContext {
    key: [u8; 32],
}

impl View for CryptoContext {
    type V = Seq<u8>;

    closed spec fn view(&self) -> Seq<u8> {
        self.key@
    }
}

impl Clone for CryptoContext {
    fn clone(&self) -> (copy: CryptoContext)
        ensures
            copy@ == self@,
    {
        CryptoContext { key: self.key }
    }
}

impl CryptoContext {
    /// A context with the given key.
    pub fn new(key: [u8; 32]) -> (ctx: CryptoContext)
        ensures
            ctx@ == key@,
    {
        CryptoContext { key }
    }

    /// The context of a session paired by PIN.
    pub fn from_pin(pin: &str, android_id: &str, linux_id: &str) -> (ctx: CryptoContext)
        ensures
            ctx@ == derived_key(pin@, android_id@, linux_id@),
    {
        CryptoContext { key: derive_key(pin, android_id, linux_id) }
    }

    /// The context of a session paired by key exchange.
    pub fn from_ecdh(shared_secret: &[u8; 32], android_id: &str, linux_id: &str) -> (ctx:
        CryptoContext)
        ensures
            ctx@ == derived_key_from_ecdh(shared_secret@, android_id@, linux_id@),
    {
        CryptoContext { key: derive_key_from_ecdh(shared_secret, android_id, linux_id) }
    }

    /// Encrypts a text with a fresh random nonce. What comes out decrypts
    /// to the text under this context.
    pub fn encrypt(&self, plaintext: &str) -> (token: Result<String, CryptoError>)
        ensures
            match token {
                Ok(text) => opened_token(self@, text@) == Ok::<Seq<char>, CryptoError>(plaintext@)
                    && exists|nonce: Seq<u8>|
                    nonce.len() == NONCE_SIZE && #[trigger] sealed_token(self@, nonce, plaintext@)
                        == Ok::<Seq<char>, CryptoError>(text@),
                Err(why) => why == CryptoError::RandomUnavailable || exists|nonce: Seq<u8>|
                    nonce.len() == NONCE_SIZE && #[trigger] sealed_token(self@, nonce, plaintext@)
                        == Err::<Seq<char>, CryptoError>(why),
            },
    {
        self::encrypt(plaintext, &self.key)
    }

    /// Decrypts a token.
    pub fn decrypt(&self, ciphertext: &str) -> (plaintext: Result<String, CryptoError>)
        ensures
            match plaintext {
                Ok(text) => opened_token(self@, ciphertext@) == Ok::<Seq<char>, CryptoError>(text@),
                Err(why) => opened_token(self@, ciphertext@) == Err::<Seq<char>, CryptoError>(why),
            },
    {
        self::decrypt(ciphertext, &self.key)
    }

    /// The checksum of a message's fields under the key.
    pub fn checksum(&self, version: u8, msg_type: &str, payload: &str, timestamp: u64) -> (sum:
        String)
        ensures
            sum@ == checksum_of(version, msg_type@, payload@, timestamp, self@),
            sum@.len() == 8,
    {
        self::checksum(version, msg_type, payload, timestamp, self.key.as_slice())
    }

    /// Whether the given checksum is the one of the fields under the key.
    pub fn verify_checksum(
        &self,
        version: u8,
        msg_type: &str,
        payload: &str,
        timestamp: u64,
        expected: &str,
    ) -> (good: bool)
        ensures
            good == (expected@ == checksum_of(version, msg_type@, payload@, timestamp, self@)),
    {
        let calculated = self.checksum(version, msg_type, payload, timestamp);
        crate::text::same_text(calculated.as_str(), expected)
    }

    /// The key.
    pub fn key(&self) -> (key: &[u8; 32])
        ensures
            key@ == self@,
    {
        &self.key
    }
}

} // verus!
