//! Proof-of-work search core: hashing candidates, counting leading zero bits,
//! searching for a nonce under cooperative cancellation, and deciding which
//! search result may still be answered once newer challenges have arrived.

pub mod oracle;
pub mod parallel;
pub mod search;
pub mod session;
pub mod trusted;
pub mod wire;

pub use oracle::{count_leading_zeros, digest, leading_zero_bits};
pub use parallel::Completion;
pub use search::{find_nonce, search, SearchOutcome};
pub use session::{Session, Ticket};
pub use wire::{classify, encode_response, Challenge, Inbound};
