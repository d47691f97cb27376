//! Everything this crate takes on trust: the outside functions it calls,
//! with the contracts that the verifier believes of them without proof.

use vstd::prelude::*;

verus! {

/// The Keccak-256 digest of `data`, as `tiny_keccak` computes it.
pub uninterp spec fn keccak256_of(data: Seq<u8>) -> Seq<u8>;

/// Runs `tiny_keccak::Keccak::v256()` over `data` (`Hasher::update`, then
/// `Hasher::finalize` into 32 bytes). Trusted: the returned bytes are the
/// Keccak-256 digest of exactly the bytes of `data`, which depends on
/// nothing else.
#[verifier::external_body]
pub(crate) fn keccak256(data: &[u8]) -> (hash: [u8; 32])
    ensures
        hash@ == keccak256_of(data@),
{
    let mut keccak = tiny_keccak::Keccak::v256();
    tiny_keccak::Hasher::update(&mut keccak, data);
    let mut hash = [0u8; 32];
    tiny_keccak::Hasher::finalize(keccak, &mut hash);
    hash
}

/// `tokio_util::sync::CancellationToken`: a flag shared by all its clones,
/// which any holder may set and any holder may read. Its state can change
/// between two reads, so no contract below speaks of it.
#[verifier::external_type_specification]
#[verifier::external_body]
pub struct ExCancellationToken(tokio_util::sync::CancellationToken);

/// `CancellationToken::new`: a fresh token that shares its flag with no
/// other. Nothing is claimed of the result.
pub assume_specification[ tokio_util::sync::CancellationToken::new ]() -> (token:
    tokio_util::sync::CancellationToken);

/// `CancellationToken::clone`: another holder of the same flag. Nothing is
/// claimed of the result.
pub assume_specification[ <tokio_util::sync::CancellationToken as Clone>::clone ](
    token: &tokio_util::sync::CancellationToken,
) -> (other: tokio_util::sync::CancellationToken);

/// `CancellationToken::cancel`: sets the flag. It returns nothing, and
/// nothing is claimed of it.
pub assume_specification[ tokio_util::sync::CancellationToken::cancel ](
    token: &tokio_util::sync::CancellationToken,
);

/// `CancellationToken::is_cancelled`: reads the flag. Another holder may set
/// it at any moment, so nothing is claimed of the result.
pub assume_specification[ tokio_util::sync::CancellationToken::is_cancelled ](
    token: &tokio_util::sync::CancellationToken,
) -> (cancelled: bool);

/// Draws a number with `rand::random::<u64>()`. The result is up to chance,
/// so nothing is claimed of it.
#[verifier::external_body]
pub(crate) fn random_u64() -> (drawn: u64) {
    rand::random::<u64>()
}

/// `std::time::Instant`: a reading of the monotonic clock.
#[verifier::external_type_specification]
#[verifier::external_body]
pub struct ExInstant(std::time::Instant);

/// `Instant::now`: the current reading of the clock. Nothing is claimed of
/// the result.
pub assume_specification[ std::time::Instant::now ]() -> (now: std::time::Instant);

/// `Instant::elapsed`: the time that has passed since the reading was taken.
/// Nothing is claimed of the result.
pub assume_specification[ std::time::Instant::elapsed ](start: &std::time::Instant) -> (elapsed:
    std::time::Duration);

/// `Duration::as_nanos`: the whole duration in nanoseconds. Nothing is
/// claimed of the result.
pub assume_specification[ std::time::Duration::as_nanos ](duration: &std::time::Duration) -> (nanos:
    u128);

/// `num_cpus::get`: the number of logical processors this process may run
/// on. Trusted, as its documentation says: the count is at least one.
pub assume_specification[ num_cpus::get ]() -> (count: usize)
    ensures
        count >= 1,
;

} // verus!
