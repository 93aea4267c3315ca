//! A canonical, round-trip-exact JSON codec for a blockchain account
//! record: an opaque address, an optional public key, and two 64-bit
//! counters (`account_number` and `sequence`) that travel as JSON strings of
//! decimal digits.  The wire object tags itself with a fixed `@type`
//! discriminator that the in-memory record does not store.

use vstd::prelude::*;

pub mod account;
pub mod string_codec;
pub mod wire;

pub use account::BaseAccount;
pub use account::BaseAccountJson;
pub use account::PublicKey;
pub use account::QueryAccountRequest;
pub use account::QueryAccountResponse;

verus! {

/// A failure reported by the decoding functions of this crate.
#[derive(Clone, Copy, Debug, PartialEq, Eq, Structural)]
pub enum DecodeError {
    /// The input text is not in the expected JSON shape, or a required
    /// field is absent or mistyped.
    InvalidJson,
    /// A numeric field's string does not parse as an unsigned 64-bit
    /// decimal number.
    MalformedNumber,
}

} // verus!
