//! Client-side core of an event index query tool: a typed key model built
//! from user text, the routing of a command to one index operation, and the
//! lifecycle controller of a live subscription.

pub mod commands;
pub mod key;
pub mod subscription;
pub mod text;

pub use commands::{Commands, KeyCommands, Request};
pub use key::{
    account_key_from_address, parse_account_id, parse_bytes32, parse_key, parse_variant, Key, KeyError, KeyKind,
    SubstrateKey, MAX_ADDRESS_LEN,
};
pub use subscription::{Action, Controller, Event, Failure, Phase, Target};
pub use text::parse_decimal;
