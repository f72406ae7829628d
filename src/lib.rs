//! A fixed-capacity list of 32-byte records kept in one account buffer, with
//! a streaming partial Fisher-Yates draw over the records that were added.
use vstd::prelude::*;

pub mod account;
pub mod codec;
pub mod generator;
pub mod laws;
pub mod selection;

verus! {

/// Bytes before the `used_items` counter: discriminator, authority, max items, num items.
pub const BASE_SIZE: usize = 48;

/// Width of one record.
pub const DATA_LINE_SIZE: usize = 32;

/// A stored identifier: 32 opaque bytes.
pub type Record = [u8; 32];

/// Every failure the library reports.
#[derive(Debug, Clone, Copy, PartialEq, Eq, Structural)]
pub enum Errors {
    /// A slot index at or past `max_items` was read.
    IndexOutOfRange,
    /// A slot index at or past `max_items` was written.
    CapacityExceeded,
    /// The caller is not the account's authority.
    Unauthorized,
    /// Every added record has already been drawn.
    PoolExhausted,
    /// The generator saw no value in range within one period.
    RandomNumberNotFound,
    /// The slot holds no record yet.
    DecodeError,
}

} // verus!
