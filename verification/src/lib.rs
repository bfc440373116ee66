//! Verified model of a small on-chain program: an owner slot, read-only
//! host facts, a gas conversion, one event and a Keccak-256 digest.
//!
//! The program is [`StylusPrimitivesDemo`]. Each of its operations takes
//! the [`Host`] of the current call as a parameter: the host reports the
//! caller, the attached value, balances and the ink price, and keeps the
//! log records it is handed. The contracts speak of mathematical values:
//! an address is the sequence of its bytes, a 256-bit integer is a natural
//! number, the host is a record of such values.
//!
//! One thing is taken on trust: that the digest function of the Stylus SDK
//! computes a function of the bytes it is given, which the contracts call
//! `keccak256`. All else is proved.

pub mod address;
pub mod big_endian;
pub mod contract;
pub mod event;
pub mod hash;
pub mod host;
pub mod storage;
pub mod uint;

pub use crate::address::Address;
pub use crate::contract::StylusPrimitivesDemo;
pub use crate::event::{EmitMe, EncodeError, LogRecord};
pub use crate::host::{EmittedLog, Host};
pub use crate::storage::StorageAddress;
pub use crate::uint::U256;
