//! The challenge session: which search is the current one, and which search
//! results may still be answered. Every new challenge supersedes the search
//! before it, and a superseded search is never answered.

use vstd::prelude::*;
use crate::search::SearchOutcome;
use crate::wire::{encode_response, le_value, lemma_pair_fields, response_bytes, Challenge};
use tokio_util::sync::CancellationToken;

verus! {

/// What a search carries to prove, when it ends, that it is still the
/// session's current search: the generation it was started in and the
/// challenge it was started for.
#[derive(Clone, Copy, Debug, PartialEq, Eq, Structural)]
pub struct Ticket {
    pub generation: u64,
    pub challenge: Challenge,
}

/// The state of a session: the number of challenges it has taken so far, and
/// the challenge being searched for, if a search is in flight.
pub struct SessionState {
    pub generation: nat,
    pub current: Option<Challenge>,
}

/// What can happen to a session.
pub enum SessionEvent {
    /// A challenge arrived.
    Arrived(Challenge),
    /// The search that holds this ticket ended with this outcome.
    Completed(Ticket, SearchOutcome),
}

impl SessionState {
    /// A session that has taken no challenge yet.
    pub open spec fn idle() -> SessionState {
        SessionState { generation: 0, current: None }
    }

    /// Whether no search is in flight.
    pub open spec fn is_idle(self) -> bool {
        self.current is None
    }

    /// Whether `ticket` belongs to the search in flight.
    pub open spec fn admits(self, ticket: Ticket) -> bool {
        self.current == Some(ticket.challenge) && self.generation == ticket.generation
    }

    /// The session after a challenge has arrived: one generation on, with
    /// that challenge in flight.
    pub open spec fn supersede(self, challenge: Challenge) -> SessionState {
        SessionState { generation: self.generation + 1, current: Some(challenge) }
    }

    /// The ticket of the search in flight.
    pub open spec fn ticket(self) -> Ticket {
        Ticket { generation: self.generation as u64, challenge: self.current.unwrap() }
    }

    /// The session after the search that holds `ticket` has ended: idle if
    /// it was the search in flight, unchanged if it was an earlier one.
    pub open spec fn complete(self, ticket: Ticket) -> SessionState {
        if self.admits(ticket) {
            SessionState { generation: self.generation, current: None }
        } else {
            self
        }
    }

    /// The response to send for a nonce that the search holding `ticket`
    /// found: none unless it is the search in flight.
    pub open spec fn response(self, ticket: Ticket, nonce: u64) -> Option<Seq<u8>> {
        if self.admits(ticket) {
            Some(response_bytes(ticket.challenge.seed, nonce))
        } else {
            None
        }
    }

    /// The response to send when the search holding `ticket` ends with
    /// `outcome`: none unless it is the search in flight and found a nonce.
    pub open spec fn answer(self, ticket: Ticket, outcome: SearchOutcome) -> Option<Seq<u8>> {
        match outcome {
            SearchOutcome::Found(nonce) => self.response(ticket, nonce),
            _ => None,
        }
    }

    /// The session after one event.
    pub open spec fn step(self, event: SessionEvent) -> SessionState {
        match event {
            SessionEvent::Arrived(challenge) => self.supersede(challenge),
            SessionEvent::Completed(ticket, _) => self.complete(ticket),
        }
    }

    /// The session after a sequence of events, in the order they happened.
    pub open spec fn run(self, events: Seq<SessionEvent>) -> SessionState
        decreases events.len(),
    {
        if events.len() == 0 {
            self
        } else {
            self.step(events[0]).run(events.drop_first())
        }
    }
}

/// At any moment at most one ticket is admitted.
pub proof fn lemma_one_current_ticket(state: SessionState, a: Ticket, b: Ticket)
    requires
        state.admits(a),
        state.admits(b),
    ensures
        a == b,
{
}

/// The ticket issued for a challenge is admitted until something else
/// happens to the session.
pub proof fn lemma_issued_ticket_is_admitted(state: SessionState, challenge: Challenge)
    requires
        state.generation < u64::MAX,
    ensures
        state.supersede(challenge).admits(state.supersede(challenge).ticket()),
        state.supersede(challenge).ticket().challenge == challenge,
{
}

/// A new challenge makes every ticket issued so far stale.
pub proof fn lemma_supersede_retires_tickets(
    state: SessionState,
    challenge: Challenge,
    ticket: Ticket,
)
    requires
        ticket.generation <= state.generation,
    ensures
        !state.supersede(challenge).admits(ticket),
{
}

/// A ticket that the session has moved past is never admitted again,
/// whatever happens later.
pub proof fn lemma_stale_forever(state: SessionState, ticket: Ticket, events: Seq<SessionEvent>)
    requires
        ticket.generation <= state.generation,
        !state.admits(ticket),
    ensures
        ticket.generation <= state.run(events).generation,
        !state.run(events).admits(ticket),
    decreases events.len(),
{
    if events.len() > 0 {
        lemma_stale_forever(state.step(events[0]), ticket, events.drop_first());
    }
}

/// The generation never goes back.
pub proof fn lemma_generation_grows(state: SessionState, events: Seq<SessionEvent>)
    ensures
        state.generation <= state.run(events).generation,
    decreases events.len(),
{
    if events.len() > 0 {
        lemma_generation_grows(state.step(events[0]), events.drop_first());
    }
}

/// A search that a newer challenge has superseded is never answered: once
/// `newer` has arrived, the ticket issued for `older` yields no response,
/// whatever the search found and whatever has happened in between and since.
pub proof fn lemma_superseded_search_is_never_answered(
    state: SessionState,
    older: Challenge,
    between: Seq<SessionEvent>,
    newer: Challenge,
    since: Seq<SessionEvent>,
    outcome: SearchOutcome,
)
    requires
        state.generation < u64::MAX,
    ensures
        state.supersede(older).run(between).supersede(newer).run(since).answer(
            state.supersede(older).ticket(),
            outcome,
        ) is None,
{
    let ticket = state.supersede(older).ticket();
    let before = state.supersede(older).run(between);
    lemma_generation_grows(state.supersede(older), between);
    lemma_supersede_retires_tickets(before, newer, ticket);
    lemma_stale_forever(before.supersede(newer), ticket, since);
}

/// Every response echoes the seed of the challenge in flight, and carries
/// the nonce it was made for.
pub proof fn lemma_response_is_for_current(state: SessionState, ticket: Ticket, nonce: u64)
    requires
        state.response(ticket, nonce) is Some,
    ensures
        state.current is Some,
        state.response(ticket, nonce).unwrap().len() == 16,
        le_value(state.response(ticket, nonce).unwrap().subrange(0, 8))
            == state.current.unwrap().seed,
        le_value(state.response(ticket, nonce).unwrap().subrange(8, 16)) == nonce,
{
    lemma_pair_fields(ticket.challenge.seed, nonce);
}

/// The bytes of a response message, if there is one.
pub open spec fn bytes_of(response: Option<[u8; 16]>) -> Option<Seq<u8>> {
    match response {
        Some(bytes) => Some(bytes@),
        None => None,
    }
}

/// A session: the generation counter, the challenge in flight, and the
/// handle that the workers of the search in flight share.
pub struct Session {
    generation: u64,
    current: Option<Challenge>,
    handle: CancellationToken,
}

impl View for Session {
    type V = SessionState;

    closed spec fn view(&self) -> SessionState {
        SessionState { generation: self.generation as nat, current: self.current }
    }
}

impl Session {
    /// A session that has taken no challenge yet.
    pub fn new() -> (session: Session)
        ensures
            session@ == SessionState::idle(),
    {
        Session { generation: 0, current: None, handle: CancellationToken::new() }
    }

    /// The number of challenges taken so far.
    pub fn generation(&self) -> (generation: u64)
        ensures
            generation == self@.generation,
    {
        self.generation
    }

    /// Whether no search is in flight.
    pub fn is_idle(&self) -> (idle: bool)
        ensures
            idle == self@.is_idle(),
    {
        self.current.is_none()
    }

    /// Takes a new challenge. The handle of the search before is cancelled,
    /// so that its workers stop; a fresh handle is installed and the
    /// generation moves on. Returns the ticket of the new search and a
    /// holder of its handle for the workers.
    pub fn begin(&mut self, challenge: Challenge) -> (issued: (Ticket, CancellationToken))
        requires
            old(self)@.generation < u64::MAX,
        ensures
            final(self)@ == old(self)@.supersede(challenge),
            issued.0 == final(self)@.ticket(),
    {
        self.handle.cancel();
        self.handle = CancellationToken::new();
        self.generation = self.generation + 1;
        self.current = Some(challenge);
        (Ticket { generation: self.generation, challenge }, self.handle.clone())
    }

    /// Whether `ticket` belongs to the search in flight.
    pub fn admits(&self, ticket: &Ticket) -> (admitted: bool)
        ensures
            admitted == self@.admits(*ticket),
    {
        match self.current {
            Some(challenge) => challenge == ticket.challenge && self.generation
                == ticket.generation,
            None => false,
        }
    }

    /// Checks a found nonce against the session before it is sent: the
    /// response message if `ticket` belongs to the search in flight,
    /// nothing if the search has been superseded or has already ended.
    pub fn deliver(&self, ticket: &Ticket, nonce: u64) -> (response: Option<[u8; 16]>)
        ensures
            bytes_of(response) == self@.response(*ticket, nonce),
    {
        if self.admits(ticket) {
            Some(encode_response(ticket.challenge.seed, nonce))
        } else {
            None
        }
    }

    /// Ends the search that holds `ticket`. If it is the search in flight,
    /// the session becomes idle, and a found nonce yields the response to
    /// send. A search that has been superseded changes nothing and yields
    /// nothing.
    pub fn complete(&mut self, ticket: &Ticket, outcome: SearchOutcome) -> (response: Option<
        [u8; 16],
    >)
        ensures
            final(self)@ == old(self)@.complete(*ticket),
            bytes_of(response) == old(self)@.answer(*ticket, outcome),
    {
        let response: Option<[u8; 16]> = match outcome {
            SearchOutcome::Found(nonce) => self.deliver(ticket, nonce),
            _ => None,
        };
        if self.admits(ticket) {
            self.current = None;
        }
        response
    }
}

} // verus!
