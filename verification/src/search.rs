//! The single-worker search: draw random nonces until one solves the
//! challenge, the handle is cancelled, or the budget runs out.

use vstd::prelude::*;
use crate::oracle::{digest, digest_of, leading_zeros, leading_zero_bits};
use crate::trusted::random_u64;
use crate::wire::Challenge;
use std::time::Instant;
use tokio_util::sync::CancellationToken;

verus! {

/// How a search ended.
#[derive(Clone, Copy, Debug, PartialEq, Eq, Structural)]
pub enum SearchOutcome {
    /// A nonce that solves the challenge, found within the time budget.
    Found(u64),
    /// The handle was cancelled before a solution was found.
    Cancelled,
    /// The budget ran out; a solution found too late is not reported.
    TimedOut,
}

/// The time a search may take and still report its nonce: 800 ms, in
/// nanoseconds.
pub const TIME_BUDGET_NANOS: u128 = 800_000_000;

/// The number of candidates after which a search gives up.
pub const MAX_ATTEMPTS: u64 = u64::MAX;

/// Whether `nonce` solves `challenge`: its digest starts with exactly
/// `difficulty` zero bits, no fewer and no more.
pub open spec fn is_solution(challenge: Challenge, nonce: u64) -> bool {
    leading_zeros(digest_of(challenge.seed, nonce)) == challenge.difficulty
}

/// Whether a digest meets a difficulty: it starts with exactly that many
/// zero bits.
pub open spec fn meets(hash: Seq<u8>, difficulty: u8) -> bool {
    leading_zeros(hash) == difficulty
}

/// What a search reports for a solution that took `elapsed_nanos` to find.
pub open spec fn settled(nonce: u64, elapsed_nanos: u128, budget_nanos: u128) -> SearchOutcome {
    if elapsed_nanos > budget_nanos {
        SearchOutcome::TimedOut
    } else {
        SearchOutcome::Found(nonce)
    }
}

impl SearchOutcome {
    /// The nonce of a successful search, nothing for any other.
    pub open spec fn nonce_spec(self) -> Option<u64> {
        match self {
            SearchOutcome::Found(nonce) => Some(nonce),
            _ => None,
        }
    }

    /// The nonce of a successful search, nothing for any other.
    pub fn nonce(&self) -> (nonce: Option<u64>)
        ensures
            nonce == self.nonce_spec(),
    {
        match self {
            SearchOutcome::Found(nonce) => Some(*nonce),
            _ => None,
        }
    }
}

/// Tests a digest against a difficulty. The match is exact: a digest with
/// more zero bits than asked for does not meet the difficulty.
pub fn meets_difficulty(hash: &[u8; 32], difficulty: u8) -> (met: bool)
    ensures
        met == meets(hash@, difficulty),
{
    leading_zero_bits(hash) == difficulty as u32
}

/// Tests whether `nonce` solves `challenge`.
pub fn solves(challenge: &Challenge, nonce: u64) -> (solved: bool)
    ensures
        solved == is_solution(*challenge, nonce),
{
    let hash: [u8; 32] = digest(challenge.seed, nonce);
    meets_difficulty(&hash, challenge.difficulty)
}

/// Decides what to report for a solution found after `elapsed_nanos`: the
/// nonce if that is within the budget, `TimedOut` if it is over.
pub fn settle(nonce: u64, elapsed_nanos: u128, budget_nanos: u128) -> (outcome: SearchOutcome)
    ensures
        outcome == settled(nonce, elapsed_nanos, budget_nanos),
{
    if elapsed_nanos > budget_nanos {
        SearchOutcome::TimedOut
    } else {
        SearchOutcome::Found(nonce)
    }
}

/// What one round of a search comes to, given what the handle read at its
/// start, the nonce that was drawn, and the time that had passed when the
/// nonce was tested: the outcome that ends the search, or nothing if the
/// search goes on.
pub open spec fn round_outcome(
    challenge: Challenge,
    cancelled: bool,
    nonce: u64,
    elapsed_nanos: u128,
    budget_nanos: u128,
) -> Option<SearchOutcome> {
    if cancelled {
        Some(SearchOutcome::Cancelled)
    } else if is_solution(challenge, nonce) {
        Some(settled(nonce, elapsed_nanos, budget_nanos))
    } else {
        None
    }
}

/// Plays one round of a search whose handle read `cancelled` at the start
/// of the round. A cancelled round ends the search at once, before any
/// nonce is drawn or hashed. Any other round draws one nonce at random and
/// tests it: a solution ends the search, settled against the time since
/// `start`, and any other nonce lets the search go on.
pub fn round(challenge: &Challenge, cancelled: bool, start: &Instant, budget_nanos: u128) -> (outcome:
    Option<SearchOutcome>)
    ensures
        cancelled <==> outcome == Some(SearchOutcome::Cancelled),
        outcome matches Some(SearchOutcome::Found(nonce)) ==> is_solution(*challenge, nonce),
        exists|nonce: u64, elapsed_nanos: u128|
            outcome == round_outcome(*challenge, cancelled, nonce, elapsed_nanos, budget_nanos),
{
    if cancelled {
        assert(Some(SearchOutcome::Cancelled) == round_outcome(
            *challenge,
            cancelled,
            0,
            0,
            budget_nanos,
        ));
        return Some(SearchOutcome::Cancelled);
    }
    let nonce: u64 = random_u64();
    if solves(challenge, nonce) {
        let elapsed_nanos: u128 = start.elapsed().as_nanos();
        let outcome = settle(nonce, elapsed_nanos, budget_nanos);
        assert(Some(outcome) == round_outcome(
            *challenge,
            cancelled,
            nonce,
            elapsed_nanos,
            budget_nanos,
        ));
        Some(outcome)
    } else {
        assert(None::<SearchOutcome> == round_outcome(
            *challenge,
            cancelled,
            nonce,
            0,
            budget_nanos,
        ));
        None
    }
}

/// Searches for a nonce that solves `challenge`, round after round: each
/// round first reads `handle`, then plays out as `round` says. The search
/// gives up with `TimedOut` after `MAX_ATTEMPTS` rounds. A reported nonce
/// always solves the challenge.
pub fn search(challenge: &Challenge, handle: &CancellationToken, budget_nanos: u128) -> (outcome:
    SearchOutcome)
    ensures
        outcome matches SearchOutcome::Found(nonce) ==> is_solution(*challenge, nonce),
{
    let start: Instant = Instant::now();
    let mut attempts: u64 = 0;
    while attempts < MAX_ATTEMPTS
        decreases MAX_ATTEMPTS - attempts,
    {
        let cancelled: bool = handle.is_cancelled();
        match round(challenge, cancelled, &start, budget_nanos) {
            Some(outcome) => {
                return outcome;
            },
            None => {},
        }
        attempts += 1;
    }
    SearchOutcome::TimedOut
}

/// Searches for a nonce whose digest with `random` starts with exactly
/// `leading_zeros` zero bits, within the standard time budget. Returns the
/// nonce, or nothing if `token` was cancelled or the budget ran out.
pub fn find_nonce(random: u64, leading_zeros: u8, token: CancellationToken) -> (found: Option<u64>)
    ensures
        found matches Some(nonce) ==> is_solution(
            (Challenge { seed: random, difficulty: leading_zeros }),
            nonce,
        ),
{
    let challenge = Challenge { seed: random, difficulty: leading_zeros };
    search(&challenge, &token, TIME_BUDGET_NANOS).nonce()
}

} // verus!
