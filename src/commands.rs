use vstd::prelude::*;

use crate::key::{field_from_text, field_of, kind_of, lemma_key_determined, Key, KeyError, KeyField, SubstrateKey};
use crate::subscription::Target;

verus! {

/// A key given as one subcommand per kind, with its value already read.
#[derive(Clone, Copy, Debug, PartialEq, Eq)]
pub enum KeyCommands {
    AccountId { key: [u8; 32] },
    AccountIndex { key: u32 },
    BountyIndex { key: u32 },
    EraIndex { key: u32 },
    MessageId { key: [u8; 32] },
    PoolId { key: u32 },
    PreimageHash { key: [u8; 32] },
    ProposalHash { key: [u8; 32] },
    ProposalIndex { key: u32 },
    RefIndex { key: u32 },
    RegistrarIndex { key: u32 },
    SessionIndex { key: u32 },
    TipHash { key: [u8; 32] },
    Variant { pallet_id: u8, variant_id: u8 },
}

/// The key a key subcommand stands for.
pub open spec fn key_of_command(c: KeyCommands) -> Key {
    match c {
        KeyCommands::AccountId { key } => Key::Substrate(SubstrateKey::AccountId(key)),
        KeyCommands::AccountIndex { key } => Key::Substrate(SubstrateKey::AccountIndex(key)),
        KeyCommands::BountyIndex { key } => Key::Substrate(SubstrateKey::BountyIndex(key)),
        KeyCommands::EraIndex { key } => Key::Substrate(SubstrateKey::EraIndex(key)),
        KeyCommands::MessageId { key } => Key::Substrate(SubstrateKey::MessageId(key)),
        KeyCommands::PoolId { key } => Key::Substrate(SubstrateKey::PoolId(key)),
        KeyCommands::PreimageHash { key } => Key::Substrate(SubstrateKey::PreimageHash(key)),
        KeyCommands::ProposalHash { key } => Key::Substrate(SubstrateKey::ProposalHash(key)),
        KeyCommands::ProposalIndex { key } => Key::Substrate(SubstrateKey::ProposalIndex(key)),
        KeyCommands::RefIndex { key } => Key::Substrate(SubstrateKey::RefIndex(key)),
        KeyCommands::RegistrarIndex { key } => Key::Substrate(
            SubstrateKey::RegistrarIndex(key),
        ),
        KeyCommands::SessionIndex { key } => Key::Substrate(SubstrateKey::SessionIndex(key)),
        KeyCommands::TipHash { key } => Key::Substrate(SubstrateKey::TipHash(key)),
        KeyCommands::Variant { pallet_id, variant_id } => Key::Variant(pallet_id, variant_id),
    }
}

impl vstd::std_specs::convert::FromSpecImpl<KeyCommands> for Key {
    open spec fn obeys_from_spec() -> bool {
        true
    }

    open spec fn from_spec(c: KeyCommands) -> Key {
        key_of_command(c)
    }
}

impl From<KeyCommands> for Key {
    fn from(c: KeyCommands) -> Key {
        match c {
            KeyCommands::AccountId { key } => Key::Substrate(SubstrateKey::AccountId(key)),
            KeyCommands::AccountIndex { key } => Key::Substrate(SubstrateKey::AccountIndex(key)),
            KeyCommands::BountyIndex { key } => Key::Substrate(SubstrateKey::BountyIndex(key)),
            KeyCommands::EraIndex { key } => Key::Substrate(SubstrateKey::EraIndex(key)),
            KeyCommands::MessageId { key } => Key::Substrate(SubstrateKey::MessageId(key)),
            KeyCommands::PoolId { key } => Key::Substrate(SubstrateKey::PoolId(key)),
            KeyCommands::PreimageHash { key } => Key::Substrate(SubstrateKey::PreimageHash(key)),
            KeyCommands::ProposalHash { key } => Key::Substrate(SubstrateKey::ProposalHash(key)),
            KeyCommands::ProposalIndex { key } => Key::Substrate(SubstrateKey::ProposalIndex(key)),
            KeyCommands::RefIndex { key } => Key::Substrate(SubstrateKey::RefIndex(key)),
            KeyCommands::RegistrarIndex { key } => Key::Substrate(
                SubstrateKey::RegistrarIndex(key),
            ),
            KeyCommands::SessionIndex { key } => Key::Substrate(SubstrateKey::SessionIndex(key)),
            KeyCommands::TipHash { key } => Key::Substrate(SubstrateKey::TipHash(key)),
            KeyCommands::Variant { pallet_id, variant_id } => Key::Variant(pallet_id, variant_id),
        }
    }
}

/// The two ways of giving a subject key agree: text given for its kind that stands
/// for the value a key subcommand carries admits, under `parse_key`'s contract, only
/// the key that the subcommand converts to.
pub proof fn lemma_key_forms_agree(c: KeyCommands, parsed: SubstrateKey, s: Seq<char>)
    requires
        !(c is Variant),
        key_of_command(c) matches Key::Substrate(sk) && kind_of(parsed) == kind_of(sk)
            && field_from_text(kind_of(sk), s) == Ok::<KeyField, KeyError>(field_of(sk)),
        field_from_text(kind_of(parsed), s) == Ok::<KeyField, KeyError>(field_of(parsed)),
    ensures
        Key::Substrate(parsed) == key_of_command(c),
{
    if let Key::Substrate(sk) = key_of_command(c) {
        lemma_key_determined(parsed, sk);
    }
}

/// The operations of the command line, with their keys already built.
#[derive(Clone, Copy, Debug, PartialEq, Eq)]
pub enum Commands {
    Status,
    SubscribeStatus,
    SizeOnDisk,
    GetVariants,
    GetEvents { key: Key },
    SubscribeEvents { key: Key },
}

/// The one index operation a command runs.
#[derive(Clone, Copy, Debug, PartialEq, Eq)]
pub enum Request {
    /// Fetch the status spans once.
    Status,
    /// Fetch the size of the index on disk, in bytes.
    SizeOnDisk,
    /// Fetch the event variants the service recognizes.
    GetVariants,
    /// Fetch the events of a key once.
    GetEvents(Key),
    /// Follow a subscription until it ends, faults or is cancelled.
    Subscribe(Target),
}

impl Commands {
    /// Routes the command to exactly one index operation. A subscription to a key
    /// carries that very key, for the subscribe call and the unsubscribe call alike.
    pub fn request(self) -> (r: Request)
        ensures
            r == (match self {
                Commands::Status => Request::Status,
                Commands::SubscribeStatus => Request::Subscribe(Target::Status),
                Commands::SizeOnDisk => Request::SizeOnDisk,
                Commands::GetVariants => Request::GetVariants,
                Commands::GetEvents { key } => Request::GetEvents(key),
                Commands::SubscribeEvents { key } => Request::Subscribe(Target::Events(key)),
            }),
    {
        match self {
            Commands::Status => Request::Status,
            Commands::SubscribeStatus => Request::Subscribe(Target::Status),
            Commands::SizeOnDisk => Request::SizeOnDisk,
            Commands::GetVariants => Request::GetVariants,
            Commands::GetEvents { key } => Request::GetEvents(key),
            Commands::SubscribeEvents { key } => Request::Subscribe(Target::Events(key)),
        }
    }
}

} // verus!
