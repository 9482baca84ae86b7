//! Signing keys and addresses as the caller hands them in: base58 text that
//! has to decode to a keypair or to a public key before any operation starts.

use vstd::prelude::*;
use vstd::string::*;
use std::str::FromStr;
use solana_sdk::pubkey::{ParsePubkeyError, Pubkey};
use solana_sdk::signature::Keypair;
use crate::text::{decimal_digits, push_decimal};

verus! {

/// The number of bytes of a keypair: the secret key, then the public key.
pub const KEYPAIR_BYTES: usize = 64;

/// `solana_sdk::signature::Keypair`, carried through unopened.
#[verifier::external_type_specification]
#[verifier::external_body]
pub struct ExKeypair(Keypair);

/// `solana_sdk::pubkey::Pubkey`, carried through unopened.
#[verifier::external_type_specification]
#[verifier::external_body]
pub struct ExPubkey(Pubkey);

/// `bs58::decode::Error`, of which only its presence is read.
#[verifier::external_type_specification]
#[verifier::external_body]
pub struct ExDecodeError(bs58::decode::Error);

/// `solana_sdk::pubkey::ParsePubkeyError`, with its two variants.
#[verifier::external_type_specification]
pub struct ExParsePubkeyError(ParsePubkeyError);

/// The bytes that `text` stands for in base58, or `None` where `text` is not
/// base58.
pub uninterp spec fn base58_decoded(text: Seq<char>) -> Option<Seq<u8>>;

/// Whether `bytes` hold a secret key followed by the public key that belongs to it.
pub uninterp spec fn keypair_accepted(bytes: Seq<u8>) -> bool;

/// Why `text` is not the base58 form of a public key, or `None` where it is one.
pub uninterp spec fn address_rejection(text: Seq<char>) -> Option<AddressError>;

/// Whether `text` is the base58 form of a public key.
pub open spec fn address_accepted(text: Seq<char>) -> bool {
    address_rejection(text) is None
}

/// The library's name for the parser's error.
pub open spec fn address_error_of(error: ParsePubkeyError) -> AddressError {
    match error {
        ParsePubkeyError::WrongSize => AddressError::WrongSize,
        ParsePubkeyError::Invalid => AddressError::Invalid,
    }
}

/// Decodes base58 text with `bs58::decode(..).into_vec()`. The contract names
/// the decoder's result: the bytes on success, nothing on failure; the same
/// text always decodes alike.
#[verifier::external_body]
fn base58_decode(text: &str) -> (decoded: Result<Vec<u8>, bs58::decode::Error>)
    ensures
        decoded matches Ok(bytes) ==> base58_decoded(text@) == Some(bytes@),
        decoded is Err ==> base58_decoded(text@) is None,
{
    bs58::decode(text).into_vec()
}

/// Builds a keypair with `Keypair::try_from(&[u8])`. The contract names the
/// outcome: the call succeeds exactly on the byte strings that the name accepts.
#[verifier::external_body]
fn keypair_from_bytes(bytes: &[u8]) -> (keypair: Option<Keypair>)
    ensures
        keypair is Some <==> keypair_accepted(bytes@),
{
    Keypair::try_from(bytes).ok()
}

/// Parses an address with `Pubkey::from_str`. The contract names the outcome:
/// the call succeeds exactly on the texts for which the name gives no
/// rejection, and fails with the error that the name gives; the same text
/// always parses alike.
#[verifier::external_body]
fn pubkey_from_text(text: &str) -> (parsed: Result<Pubkey, ParsePubkeyError>)
    ensures
        parsed is Ok <==> address_rejection(text@) is None,
        parsed matches Err(error) ==> address_rejection(text@) == Some(address_error_of(error)),
{
    Pubkey::from_str(text)
}

/// Why a private key was turned away.
#[derive(Clone, Copy, Debug, PartialEq, Eq, Structural)]
pub enum KeyError {
    /// The text is not base58.
    InvalidBase58,
    /// The text decodes to this many bytes, not to the length of a keypair.
    UnexpectedLength(usize),
    /// The bytes are no keypair.
    InvalidKeypairBytes,
}

/// The message of a [`KeyError`].
pub open spec fn key_error_text(error: KeyError) -> Seq<char> {
    match error {
        KeyError::InvalidBase58 => "invalid base58 key"@,
        KeyError::UnexpectedLength(n) => "unexpected key length: "@ + decimal_digits(n as nat)
            + " bytes"@,
        KeyError::InvalidKeypairBytes => "invalid keypair bytes"@,
    }
}

impl KeyError {
    /// The message of the error.
    pub fn message(&self) -> (text: String)
        ensures
            text@ == key_error_text(*self),
    {
        match self {
            KeyError::InvalidBase58 => "invalid base58 key".to_owned(),
            KeyError::UnexpectedLength(n) => {
                let mut text = "unexpected key length: ".to_owned();
                push_decimal(&mut text, *n as u64);
                text.append(" bytes");
                text
            },
            KeyError::InvalidKeypairBytes => "invalid keypair bytes".to_owned(),
        }
    }
}

/// What parsing a private key comes to, given what the base58 decoder and the
/// keypair constructor make of it.
pub open spec fn key_outcome(text: Seq<char>) -> Result<(), KeyError> {
    match base58_decoded(text) {
        None => Err(KeyError::InvalidBase58),
        Some(bytes) => if bytes.len() != KEYPAIR_BYTES {
            Err(KeyError::UnexpectedLength(bytes.len() as usize))
        } else if !keypair_accepted(bytes) {
            Err(KeyError::InvalidKeypairBytes)
        } else {
            Ok(())
        },
    }
}

/// Judges the decoded bytes of a private key by their length alone: exactly
/// the length of a keypair passes.
pub fn check_key_length(bytes: &Vec<u8>) -> (checked: Result<(), KeyError>)
    ensures
        checked == if bytes@.len() == KEYPAIR_BYTES {
            Ok::<(), KeyError>(())
        } else {
            Err::<(), KeyError>(KeyError::UnexpectedLength(bytes@.len() as usize))
        },
{
    if bytes.len() == KEYPAIR_BYTES {
        Ok(())
    } else {
        Err(KeyError::UnexpectedLength(bytes.len()))
    }
}

/// Parses a private key in base58 into a keypair.
pub fn parse_keypair(private_key: &str) -> (parsed: Result<Keypair, KeyError>)
    ensures
        parsed is Ok <==> key_outcome(private_key@) is Ok,
        parsed matches Err(error) ==> key_outcome(private_key@) == Err::<(), KeyError>(error),
{
    match base58_decode(private_key) {
        Err(_) => Err(KeyError::InvalidBase58),
        Ok(bytes) => match check_key_length(&bytes) {
            Err(error) => Err(error),
            Ok(_) => match keypair_from_bytes(bytes.as_slice()) {
                Some(keypair) => Ok(keypair),
                None => Err(KeyError::InvalidKeypairBytes),
            },
        },
    }
}

/// Parses every private key of a list, each on its own: a key that does not
/// parse is answered with its error at its own position and stops no other.
pub fn resolve_keys(private_keys: &Vec<String>) -> (resolved: Vec<Result<Keypair, KeyError>>)
    ensures
        resolved@.len() == private_keys@.len(),
        forall|i: int|
            0 <= i < private_keys@.len() ==> {
                &&& (#[trigger] resolved@[i]) is Ok <==> key_outcome(private_keys@[i]@) is Ok
                &&& resolved@[i] matches Err(e) ==> key_outcome(private_keys@[i]@) == Err::<
                    (),
                    KeyError,
                >(e)
            },
{
    let mut resolved: Vec<Result<Keypair, KeyError>> = Vec::new();
    let mut i: usize = 0;
    while i < private_keys.len()
        invariant
            i <= private_keys.len(),
            resolved@.len() == i,
            forall|j: int|
                0 <= j < i ==> {
                    &&& (#[trigger] resolved@[j]) is Ok <==> key_outcome(private_keys@[j]@) is Ok
                    &&& resolved@[j] matches Err(e) ==> key_outcome(private_keys@[j]@) == Err::<
                        (),
                        KeyError,
                    >(e)
                },
        decreases private_keys.len() - i,
    {
        resolved.push(parse_keypair(private_keys[i].as_str()));
        i += 1;
    }
    resolved
}

/// Why an address was turned away.
#[derive(Clone, Copy, Debug, PartialEq, Eq, Structural)]
pub enum AddressError {
    /// The text does not stand for the bytes of a public key.
    WrongSize,
    /// The text is not base58.
    Invalid,
}

/// The message of an [`AddressError`].
pub open spec fn address_error_text(error: AddressError) -> Seq<char> {
    match error {
        AddressError::WrongSize => "invalid address: wrong size"@,
        AddressError::Invalid => "invalid address: not base58"@,
    }
}

impl AddressError {
    /// The message of the error.
    pub fn message(&self) -> (text: String)
        ensures
            text@ == address_error_text(*self),
    {
        match self {
            AddressError::WrongSize => "invalid address: wrong size".to_owned(),
            AddressError::Invalid => "invalid address: not base58".to_owned(),
        }
    }
}

/// Turns the parser's error into the library's own.
pub fn address_error(error: ParsePubkeyError) -> (mapped: AddressError)
    ensures
        mapped == address_error_of(error),
{
    match error {
        ParsePubkeyError::WrongSize => AddressError::WrongSize,
        ParsePubkeyError::Invalid => AddressError::Invalid,
    }
}

/// Parses the address of a destination, of a mint or of a token account.
pub fn parse_address(address: &str) -> (parsed: Result<Pubkey, AddressError>)
    ensures
        parsed is Ok <==> address_rejection(address@) is None,
        parsed matches Err(error) ==> address_rejection(address@) == Some(error),
{
    match pubkey_from_text(address) {
        Ok(pubkey) => Ok(pubkey),
        Err(error) => Err(address_error(error)),
    }
}

/// Parses every address of a list, each on its own: an address that does not
/// parse is answered with its error at its own position and stops no other.
pub fn resolve_addresses(addresses: &Vec<String>) -> (resolved: Vec<Result<Pubkey, AddressError>>)
    ensures
        resolved@.len() == addresses@.len(),
        forall|i: int|
            0 <= i < addresses@.len() ==> {
                &&& (#[trigger] resolved@[i]) is Ok <==> address_rejection(addresses@[i]@) is None
                &&& resolved@[i] matches Err(e) ==> address_rejection(addresses@[i]@) == Some(e)
            },
{
    let mut resolved: Vec<Result<Pubkey, AddressError>> = Vec::new();
    let mut i: usize = 0;
    while i < addresses.len()
        invariant
            i <= addresses.len(),
            resolved@.len() == i,
            forall|j: int|
                0 <= j < i ==> {
                    &&& (#[trigger] resolved@[j]) is Ok <==> address_rejection(addresses@[j]@) is None
                    &&& resolved@[j] matches Err(e) ==> address_rejection(addresses@[j]@) == Some(e)
                },
        decreases addresses.len() - i,
    {
        resolved.push(parse_address(addresses[i].as_str()));
        i += 1;
    }
    resolved
}

} // verus!
