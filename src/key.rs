use acuity_index_substrate_api::Bytes32;
use std::str::FromStr;
use subxt::utils::AccountId32;
use vstd::prelude::*;

use crate::text::{
    decimal_digits, decimal_value, digits_value, hex_decode, hex_encode, is_decimal,
    lemma_hex_round_trip, parse_decimal,
};

verus! {

/// Why user input could not be turned into a key.
#[derive(Clone, Copy, Debug, PartialEq, Eq)]
pub enum KeyError {
    /// Numeric text that is empty, holds a non-digit, or is out of the field's range.
    InvalidArgument,
    /// Text for a 32-byte field that is not hex, not 32 bytes long, or not a valid
    /// address.
    MalformedKey,
}

/// A key built into the ledger's runtime.
#[derive(Clone, Copy, Debug, PartialEq, Eq)]
pub enum SubstrateKey {
    AccountId([u8; 32]),
    AccountIndex(u32),
    BountyIndex(u32),
    EraIndex(u32),
    MessageId([u8; 32]),
    PoolId(u32),
    PreimageHash([u8; 32]),
    ProposalHash([u8; 32]),
    ProposalIndex(u32),
    RefIndex(u32),
    RegistrarIndex(u32),
    SessionIndex(u32),
    TipHash([u8; 32]),
}

/// What the index is asked about: a subject key, or an event type given as a
/// pallet id and a variant id.
#[derive(Clone, Copy, Debug, PartialEq, Eq)]
pub enum Key {
    Variant(u8, u8),
    Substrate(SubstrateKey),
}

/// The kinds of subject key, as named on the command line.
#[derive(Clone, Copy, Debug, PartialEq, Eq)]
pub enum KeyKind {
    AccountId,
    AccountIndex,
    BountyIndex,
    EraIndex,
    MessageId,
    PoolId,
    PreimageHash,
    ProposalHash,
    ProposalIndex,
    RefIndex,
    RegistrarIndex,
    SessionIndex,
    TipHash,
}

/// The value a subject key carries.
pub enum KeyField {
    Bytes(Seq<u8>),
    Number(nat),
}

pub open spec fn kind_of(k: SubstrateKey) -> KeyKind {
    match k {
        SubstrateKey::AccountId(_) => KeyKind::AccountId,
        SubstrateKey::AccountIndex(_) => KeyKind::AccountIndex,
        SubstrateKey::BountyIndex(_) => KeyKind::BountyIndex,
        SubstrateKey::EraIndex(_) => KeyKind::EraIndex,
        SubstrateKey::MessageId(_) => KeyKind::MessageId,
        SubstrateKey::PoolId(_) => KeyKind::PoolId,
        SubstrateKey::PreimageHash(_) => KeyKind::PreimageHash,
        SubstrateKey::ProposalHash(_) => KeyKind::ProposalHash,
        SubstrateKey::ProposalIndex(_) => KeyKind::ProposalIndex,
        SubstrateKey::RefIndex(_) => KeyKind::RefIndex,
        SubstrateKey::RegistrarIndex(_) => KeyKind::RegistrarIndex,
        SubstrateKey::SessionIndex(_) => KeyKind::SessionIndex,
        SubstrateKey::TipHash(_) => KeyKind::TipHash,
    }
}

pub open spec fn field_of(k: SubstrateKey) -> KeyField {
    match k {
        SubstrateKey::AccountId(b) => KeyField::Bytes(b@),
        SubstrateKey::MessageId(b) => KeyField::Bytes(b@),
        SubstrateKey::PreimageHash(b) => KeyField::Bytes(b@),
        SubstrateKey::ProposalHash(b) => KeyField::Bytes(b@),
        SubstrateKey::TipHash(b) => KeyField::Bytes(b@),
        SubstrateKey::AccountIndex(n) => KeyField::Number(n as nat),
        SubstrateKey::BountyIndex(n) => KeyField::Number(n as nat),
        SubstrateKey::EraIndex(n) => KeyField::Number(n as nat),
        SubstrateKey::PoolId(n) => KeyField::Number(n as nat),
        SubstrateKey::ProposalIndex(n) => KeyField::Number(n as nat),
        SubstrateKey::RefIndex(n) => KeyField::Number(n as nat),
        SubstrateKey::RegistrarIndex(n) => KeyField::Number(n as nat),
        SubstrateKey::SessionIndex(n) => KeyField::Number(n as nat),
    }
}

/// Kinds whose value is 32 bytes.
pub open spec fn is_bytes32_kind(kind: KeyKind) -> bool {
    kind == KeyKind::AccountId || kind == KeyKind::MessageId || kind == KeyKind::PreimageHash
        || kind == KeyKind::ProposalHash || kind == KeyKind::TipHash
}

/// Hex text that decodes to exactly 32 bytes, and those bytes.
pub open spec fn bytes32_of(s: Seq<char>) -> Option<Seq<u8>> {
    match hex_decode(s) {
        Some(b) => if b.len() == 32 {
            Some(b)
        } else {
            None
        },
        None => None,
    }
}

/// The longest text that is handed to the SS58 decoder. Its base58 step decodes into
/// a fixed buffer of this many bytes and fails on longer text that starts with many
/// `1`s; a real address is under 50 characters.
pub const MAX_ADDRESS_LEN: usize = 132;

/// The 32 bytes of an account that a checksummed SS58 address stands for.
pub uninterp spec fn ss58_account(s: Seq<char>) -> Option<Seq<u8>>;

/// The value that the text given for a key of `kind` stands for. An account may be
/// given as hex or as an SS58 address of at most `MAX_ADDRESS_LEN` characters; hex is
/// tried first.
pub open spec fn field_from_text(kind: KeyKind, s: Seq<char>) -> Result<KeyField, KeyError> {
    if is_bytes32_kind(kind) {
        match bytes32_of(s) {
            Some(b) => Ok(KeyField::Bytes(b)),
            None => if kind == KeyKind::AccountId && s.len() <= MAX_ADDRESS_LEN {
                match ss58_account(s) {
                    Some(b) => Ok(KeyField::Bytes(b)),
                    None => Err(KeyError::MalformedKey),
                }
            } else {
                Err(KeyError::MalformedKey)
            },
        }
    } else {
        match decimal_value(s, u32::MAX as nat) {
            Some(v) => Ok(KeyField::Number(v)),
            None => Err(KeyError::InvalidArgument),
        }
    }
}

/// Relies on `Bytes32::from_str` of acuity-index-substrate, which is `hex::decode`
/// (an even number of hex digits of either case) followed by a conversion that
/// succeeds only on exactly 32 bytes.
#[verifier::external_body]
fn decode_bytes32(text: &str) -> (r: Option<[u8; 32]>)
    ensures
        match r {
            Some(a) => bytes32_of(text@) == Some(a@),
            None => bytes32_of(text@) is None,
        },
{
    match Bytes32::from_str(text) {
        Ok(b) => Some(b.0),
        Err(_) => None,
    }
}

/// Relies on subxt's `AccountId32::from_str`: SS58 decoding of an address, with its
/// checksum verified. Longer text than `MAX_ADDRESS_LEN` is kept from it: its base58
/// step can then index out of its buffer.
#[verifier::external_body]
fn decode_ss58(text: &str) -> (r: Option<[u8; 32]>)
    requires
        text@.len() <= MAX_ADDRESS_LEN,
    ensures
        match r {
            Some(a) => ss58_account(text@) == Some(a@),
            None => ss58_account(text@) is None,
        },
{
    match AccountId32::from_str(text) {
        Ok(a) => Some(a.0),
        Err(_) => None,
    }
}

/// The account key for the outcome of decoding an SS58 address.
pub fn account_key_from_address(decoded: Option<[u8; 32]>) -> (r: Result<Key, KeyError>)
    ensures
        match decoded {
            Some(a) => r == Ok::<Key, KeyError>(Key::Substrate(SubstrateKey::AccountId(a))),
            None => r == Err::<Key, KeyError>(KeyError::MalformedKey),
        },
{
    match decoded {
        Some(a) => Ok(Key::Substrate(SubstrateKey::AccountId(a))),
        None => Err(KeyError::MalformedKey),
    }
}

/// The key of `kind` holding 32 bytes.
fn bytes32_key(kind: KeyKind, b: [u8; 32]) -> (k: SubstrateKey)
    requires
        is_bytes32_kind(kind),
    ensures
        kind_of(k) == kind,
        field_of(k) == KeyField::Bytes(b@),
{
    match kind {
        KeyKind::AccountId => SubstrateKey::AccountId(b),
        KeyKind::MessageId => SubstrateKey::MessageId(b),
        KeyKind::PreimageHash => SubstrateKey::PreimageHash(b),
        KeyKind::ProposalHash => SubstrateKey::ProposalHash(b),
        _ => SubstrateKey::TipHash(b),
    }
}

/// The key of `kind` holding a 32-bit number.
fn number_key(kind: KeyKind, n: u32) -> (k: SubstrateKey)
    requires
        !is_bytes32_kind(kind),
    ensures
        kind_of(k) == kind,
        field_of(k) == KeyField::Number(n as nat),
{
    match kind {
        KeyKind::AccountIndex => SubstrateKey::AccountIndex(n),
        KeyKind::BountyIndex => SubstrateKey::BountyIndex(n),
        KeyKind::EraIndex => SubstrateKey::EraIndex(n),
        KeyKind::PoolId => SubstrateKey::PoolId(n),
        KeyKind::ProposalIndex => SubstrateKey::ProposalIndex(n),
        KeyKind::RefIndex => SubstrateKey::RefIndex(n),
        KeyKind::RegistrarIndex => SubstrateKey::RegistrarIndex(n),
        _ => SubstrateKey::SessionIndex(n),
    }
}

/// Reads hex text that stands for exactly 32 bytes.
pub fn parse_bytes32(text: &str) -> (r: Result<[u8; 32], KeyError>)
    ensures
        match r {
            Ok(a) => bytes32_of(text@) == Some(a@),
            Err(e) => e == KeyError::MalformedKey && bytes32_of(text@) is None,
        },
{
    match decode_bytes32(text) {
        Some(a) => Ok(a),
        None => Err(KeyError::MalformedKey),
    }
}

/// Reads an account identifier, given as 32 bytes of hex or as an SS58 address.
pub fn parse_account_id(text: &str) -> (r: Result<[u8; 32], KeyError>)
    ensures
        match r {
            Ok(a) => field_from_text(KeyKind::AccountId, text@) == Ok::<KeyField, KeyError>(
                KeyField::Bytes(a@),
            ),
            Err(e) => field_from_text(KeyKind::AccountId, text@) == Err::<KeyField, KeyError>(e),
        },
{
    match decode_bytes32(text) {
        Some(a) => Ok(a),
        None if text.unicode_len() > MAX_ADDRESS_LEN => Err(KeyError::MalformedKey),
        None => match account_key_from_address(decode_ss58(text)) {
            Ok(Key::Substrate(SubstrateKey::AccountId(a))) => Ok(a),
            _ => Err(KeyError::MalformedKey),
        },
    }
}

/// Builds the key of `kind` from the text a user gave for it.
pub fn parse_key(kind: KeyKind, text: &str) -> (r: Result<Key, KeyError>)
    ensures
        match r {
            Ok(k) => match k {
                Key::Substrate(sk) => kind_of(sk) == kind && field_from_text(kind, text@) == Ok::<
                    KeyField,
                    KeyError,
                >(field_of(sk)),
                Key::Variant(_, _) => false,
            },
            Err(e) => field_from_text(kind, text@) == Err::<KeyField, KeyError>(e),
        },
{
    match kind {
        KeyKind::AccountId => match parse_account_id(text) {
            Ok(a) => Ok(Key::Substrate(SubstrateKey::AccountId(a))),
            Err(e) => Err(e),
        },
        KeyKind::MessageId | KeyKind::PreimageHash | KeyKind::ProposalHash | KeyKind::TipHash => {
            match parse_bytes32(text) {
                Ok(a) => Ok(Key::Substrate(bytes32_key(kind, a))),
                Err(e) => Err(e),
            }
        },
        _ => match parse_decimal(text, u32::MAX) {
            Some(n) => Ok(Key::Substrate(number_key(kind, n))),
            None => Err(KeyError::InvalidArgument),
        },
    }
}

/// Builds an event-type key from the texts of a pallet id and a variant id, each a
/// decimal number of at most 255. Any such pair is accepted: whether the service
/// knows it is for the service to say.
pub fn parse_variant(pallet_id: &str, variant_id: &str) -> (r: Result<Key, KeyError>)
    ensures
        match (decimal_value(pallet_id@, 255), decimal_value(variant_id@, 255)) {
            (Some(p), Some(v)) => r == Ok::<Key, KeyError>(Key::Variant(p as u8, v as u8)),
            _ => r == Err::<Key, KeyError>(KeyError::InvalidArgument),
        },
{
    match parse_decimal(pallet_id, 255) {
        Some(p) => match parse_decimal(variant_id, 255) {
            Some(v) => Ok(Key::Variant(p as u8, v as u8)),
            None => Err(KeyError::InvalidArgument),
        },
        None => Err(KeyError::InvalidArgument),
    }
}

/// A subject key is fixed by its kind and its value: two keys that agree on both are
/// the same key. So the key that `parse_key` returns is the only one its contract
/// allows.
pub proof fn lemma_key_determined(a: SubstrateKey, b: SubstrateKey)
    requires
        kind_of(a) == kind_of(b),
        field_of(a) == field_of(b),
    ensures
        a == b,
{
    broadcast use vstd::array::group_array_axioms;

    match (a, b) {
        (SubstrateKey::AccountId(x), SubstrateKey::AccountId(y)) => assert(x =~= y),
        (SubstrateKey::MessageId(x), SubstrateKey::MessageId(y)) => assert(x =~= y),
        (SubstrateKey::PreimageHash(x), SubstrateKey::PreimageHash(y)) => assert(x =~= y),
        (SubstrateKey::ProposalHash(x), SubstrateKey::ProposalHash(y)) => assert(x =~= y),
        (SubstrateKey::TipHash(x), SubstrateKey::TipHash(y)) => assert(x =~= y),
        _ => {},
    }
}

/// Any 32 bytes, written as hex, read back as the same value for every kind of key
/// that holds 32 bytes.
pub proof fn lemma_bytes32_round_trip(kind: KeyKind, b: Seq<u8>)
    requires
        is_bytes32_kind(kind),
        b.len() == 32,
    ensures
        bytes32_of(hex_encode(b)) == Some(b),
        field_from_text(kind, hex_encode(b)) == Ok::<KeyField, KeyError>(KeyField::Bytes(b)),
{
    lemma_hex_round_trip(b);
}

/// Hex text that decodes to other than 32 bytes, or does not decode, is refused as
/// a malformed key for every hash kind; for an account, unless it is also a valid
/// address of at most `MAX_ADDRESS_LEN` characters.
pub proof fn lemma_bad_bytes32_rejected(kind: KeyKind, s: Seq<char>)
    requires
        is_bytes32_kind(kind),
        kind == KeyKind::AccountId && s.len() <= MAX_ADDRESS_LEN ==> ss58_account(s) is None,
        match hex_decode(s) {
            Some(b) => b.len() != 32,
            None => true,
        },
    ensures
        bytes32_of(s) is None,
        field_from_text(kind, s) == Err::<KeyField, KeyError>(KeyError::MalformedKey),
{
}

/// Numeric text that is not decimal, or that stands for a number past `u32::MAX`,
/// is refused as an invalid argument for every numeric kind.
pub proof fn lemma_bad_number_rejected(kind: KeyKind, s: Seq<char>)
    requires
        !is_bytes32_kind(kind),
        !is_decimal(s) || digits_value(decimal_digits(s)) > u32::MAX,
    ensures
        field_from_text(kind, s) == Err::<KeyField, KeyError>(KeyError::InvalidArgument),
{
}

} // verus!
