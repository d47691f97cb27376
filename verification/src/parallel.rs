//! The completion point of a parallel search: several workers race for one
//! challenge, the first nonce offered wins, and every later offer is dropped.

use vstd::prelude::*;
use crate::search::SearchOutcome;
use tokio_util::sync::CancellationToken;

verus! {

/// The state of a completion point: how many workers have yet to report, and
/// the nonce that won, if one has.
pub struct Tally {
    pub pending: nat,
    pub winner: Option<u64>,
}

impl Tally {
    /// The tally of a search that `workers` workers have just begun.
    pub open spec fn start(workers: nat) -> Tally {
        Tally { pending: workers, winner: None }
    }

    /// Whether a report would be taken as the winner: it brings a nonce, no
    /// nonce has won yet, and a worker is still expected to report.
    pub open spec fn accepts(self, report: SearchOutcome) -> bool {
        self.pending > 0 && self.winner is None && report is Found
    }

    /// The tally after one more report.
    pub open spec fn offer(self, report: SearchOutcome) -> Tally {
        Tally {
            pending: if self.pending > 0 {
                (self.pending - 1) as nat
            } else {
                0
            },
            winner: if self.accepts(report) {
                report.nonce_spec()
            } else {
                self.winner
            },
        }
    }

    /// The search is over: a nonce has won, or every worker has reported.
    pub open spec fn is_settled(self) -> bool {
        self.winner is Some || self.pending == 0
    }

    /// The tally after a sequence of reports, in the order they arrived.
    pub open spec fn after(self, reports: Seq<SearchOutcome>) -> Tally
        decreases reports.len(),
    {
        if reports.len() == 0 {
            self
        } else {
            self.offer(reports[0]).after(reports.drop_first())
        }
    }

    /// How many of a sequence of reports are taken as the winner.
    pub open spec fn accepted(self, reports: Seq<SearchOutcome>) -> nat
        decreases reports.len(),
    {
        if reports.len() == 0 {
            0
        } else {
            (if self.accepts(reports[0]) {
                1nat
            } else {
                0nat
            }) + self.offer(reports[0]).accepted(reports.drop_first())
        }
    }
}

/// The nonce of the first report that brings one, nothing if none does.
pub open spec fn first_found(reports: Seq<SearchOutcome>) -> Option<u64>
    decreases reports.len(),
{
    if reports.len() == 0 {
        None
    } else if reports[0] is Found {
        reports[0].nonce_spec()
    } else {
        first_found(reports.drop_first())
    }
}

/// Once a nonce has won it stays the winner, and no later report is accepted.
pub proof fn lemma_winner_is_final(tally: Tally, reports: Seq<SearchOutcome>)
    requires
        tally.winner is Some,
    ensures
        tally.after(reports).winner == tally.winner,
        tally.accepted(reports) == 0,
    decreases reports.len(),
{
    if reports.len() > 0 {
        lemma_winner_is_final(tally.offer(reports[0]), reports.drop_first());
    }
}

/// At most one report is ever accepted, and one is accepted exactly when the
/// search ends with a winner.
pub proof fn lemma_one_winner(workers: nat, reports: Seq<SearchOutcome>)
    ensures
        Tally::start(workers).accepted(reports) <= 1,
        Tally::start(workers).accepted(reports) == 1 <==> Tally::start(workers).after(
            reports,
        ).winner is Some,
    decreases reports.len(),
{
    if reports.len() > 0 {
        let next = Tally::start(workers).offer(reports[0]);
        if Tally::start(workers).accepts(reports[0]) {
            lemma_winner_is_final(next, reports.drop_first());
        } else if workers > 0 {
            assert(next == Tally::start((workers - 1) as nat));
            lemma_one_winner((workers - 1) as nat, reports.drop_first());
        } else {
            assert(next == Tally::start(0));
            lemma_one_winner(0, reports.drop_first());
        }
    }
}

/// When each worker reports once, the winner is the nonce of the first
/// report that brings one; when none brings one, there is no winner.
pub proof fn lemma_first_found_wins(workers: nat, reports: Seq<SearchOutcome>)
    requires
        reports.len() <= workers,
    ensures
        Tally::start(workers).after(reports).winner == first_found(reports),
        Tally::start(workers).after(reports).pending == workers - reports.len(),
    decreases reports.len(),
{
    if reports.len() > 0 {
        let next = Tally::start(workers).offer(reports[0]);
        if reports[0] is Found {
            lemma_winner_is_final(next, reports.drop_first());
            lemma_pending_counts_down(next, reports.drop_first());
        } else {
            assert(next == Tally::start((workers - 1) as nat));
            lemma_first_found_wins((workers - 1) as nat, reports.drop_first());
        }
    }
}

/// Each report takes one worker off the count of those still expected.
pub proof fn lemma_pending_counts_down(tally: Tally, reports: Seq<SearchOutcome>)
    requires
        reports.len() <= tally.pending,
    ensures
        tally.after(reports).pending == tally.pending - reports.len(),
    decreases reports.len(),
{
    if reports.len() > 0 {
        lemma_pending_counts_down(tally.offer(reports[0]), reports.drop_first());
    }
}

/// When every worker has reported and none found a nonce, the search is
/// settled without a winner.
pub proof fn lemma_no_nonce_no_winner(workers: nat, reports: Seq<SearchOutcome>)
    requires
        reports.len() == workers,
        forall|i: int| 0 <= i < reports.len() ==> !(reports[i] is Found),
    ensures
        Tally::start(workers).after(reports).is_settled(),
        Tally::start(workers).after(reports).winner is None,
{
    lemma_first_found_wins(workers, reports);
    lemma_first_found_none(reports);
}

/// Reports without a nonce have no first nonce.
pub proof fn lemma_first_found_none(reports: Seq<SearchOutcome>)
    requires
        forall|i: int| 0 <= i < reports.len() ==> !(reports[i] is Found),
    ensures
        first_found(reports) is None,
    decreases reports.len(),
{
    if reports.len() > 0 {
        let rest = reports.drop_first();
        assert forall|i: int| 0 <= i < rest.len() implies !(rest[i] is Found) by {
            assert(rest[i] == reports[i + 1]);
        }
        lemma_first_found_none(rest);
    }
}

/// The completion point of one parallel search. It holds the handle that all
/// the workers of the search share, and cancels it when a nonce wins, so
/// that the other workers stop.
pub struct Completion {
    pending: usize,
    winner: Option<u64>,
    handle: CancellationToken,
}

impl View for Completion {
    type V = Tally;

    closed spec fn view(&self) -> Tally {
        Tally { pending: self.pending as nat, winner: self.winner }
    }
}

impl Completion {
    /// A completion point for `workers` workers that share `handle`.
    pub fn new(workers: usize, handle: CancellationToken) -> (completion: Completion)
        ensures
            completion@ == Tally::start(workers as nat),
    {
        Completion { pending: workers, winner: None, handle }
    }

    /// A completion point for as many workers as this process has
    /// processors to run them on, which is at least one.
    pub fn for_available_units(handle: CancellationToken) -> (completion: Completion)
        ensures
            completion@.pending >= 1,
            completion@ == Tally::start(completion@.pending),
    {
        Completion::new(num_cpus::get(), handle)
    }

    /// The number of workers that have yet to report.
    pub fn pending(&self) -> (pending: usize)
        ensures
            pending == self@.pending,
    {
        self.pending
    }

    /// Takes one worker's report. The first report that brings a nonce is
    /// accepted: its nonce becomes the winner, and the shared handle is
    /// cancelled. Every other report is dropped.
    pub fn offer(&mut self, report: SearchOutcome) -> (accepted: bool)
        ensures
            accepted == old(self)@.accepts(report),
            final(self)@ == old(self)@.offer(report),
    {
        let expected: bool = self.pending > 0;
        if expected {
            self.pending = self.pending - 1;
        }
        match report {
            SearchOutcome::Found(nonce) => {
                if expected && self.winner.is_none() {
                    self.winner = Some(nonce);
                    self.handle.cancel();
                    true
                } else {
                    false
                }
            },
            _ => false,
        }
    }

    /// Whether the search is over: a nonce has won, or every worker has
    /// reported.
    pub fn is_settled(&self) -> (settled: bool)
        ensures
            settled == self@.is_settled(),
    {
        self.winner.is_some() || self.pending == 0
    }

    /// The nonce that won, nothing while none has.
    pub fn result(&self) -> (winner: Option<u64>)
        ensures
            winner == self@.winner,
    {
        self.winner
    }
}

} // verus!
