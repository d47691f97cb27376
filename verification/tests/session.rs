use ws_replier::search::SearchOutcome;
use ws_replier::session::{Session, Ticket};
use ws_replier::wire::{encode_response, Challenge};

const A: Challenge = Challenge { seed: 1, difficulty: 2 };
const B: Challenge = Challenge { seed: 2, difficulty: 2 };

fn seed_of(response: &[u8; 16]) -> u64 {
    let mut seed = [0u8; 8];
    seed.copy_from_slice(&response[..8]);
    u64::from_le_bytes(seed)
}

#[test]
fn new_session_is_idle() {
    let session = Session::new();
    assert!(session.is_idle());
    assert_eq!(session.generation(), 0);
}

#[test]
fn begin_issues_the_next_generation() {
    let mut session = Session::new();
    let (first, _) = session.begin(A);
    assert_eq!(first, Ticket { generation: 1, challenge: A });
    assert!(!session.is_idle());
    assert_eq!(session.generation(), 1);
    let (second, _) = session.begin(B);
    assert_eq!(second, Ticket { generation: 2, challenge: B });
    assert_eq!(session.generation(), 2);
    assert!(session.admits(&second));
    assert!(!session.admits(&first));
}

#[test]
fn begin_cancels_the_handle_before() {
    let mut session = Session::new();
    let (_, first) = session.begin(A);
    assert!(!first.is_cancelled());
    let (_, second) = session.begin(B);
    assert!(first.is_cancelled());
    assert!(!second.is_cancelled());
    let (_, third) = session.begin(A);
    assert!(first.is_cancelled());
    assert!(second.is_cancelled());
    assert!(!third.is_cancelled());
}

#[test]
fn superseded_search_is_never_answered() {
    let mut session = Session::new();
    let (ticket_a, _) = session.begin(A);
    let (ticket_b, _) = session.begin(B);
    assert_eq!(session.deliver(&ticket_a, 13), None);
    assert_eq!(session.complete(&ticket_a, SearchOutcome::Found(13)), None);
    assert!(!session.is_idle());
    let response = session.complete(&ticket_b, SearchOutcome::Found(21)).expect("B is current");
    assert_eq!(seed_of(&response), 2);
    assert_eq!(response, encode_response(2, 21));
    assert_eq!(session.complete(&ticket_a, SearchOutcome::Found(13)), None);
    assert_eq!(session.deliver(&ticket_a, 13), None);
}

#[test]
fn superseded_search_stays_stale_when_the_newer_one_fails() {
    let mut session = Session::new();
    let (ticket_a, _) = session.begin(A);
    let (ticket_b, _) = session.begin(B);
    assert_eq!(session.complete(&ticket_b, SearchOutcome::TimedOut), None);
    assert!(session.is_idle());
    assert_eq!(session.complete(&ticket_a, SearchOutcome::Found(13)), None);
    assert_eq!(session.deliver(&ticket_a, 13), None);
    assert_eq!(session.deliver(&ticket_b, 13), None);
}

#[test]
fn current_search_is_answered_once() {
    let mut session = Session::new();
    let (ticket, _) = session.begin(A);
    assert_eq!(session.deliver(&ticket, 13), Some(encode_response(1, 13)));
    assert_eq!(session.complete(&ticket, SearchOutcome::Found(13)), Some(encode_response(1, 13)));
    assert!(session.is_idle());
    assert_eq!(session.complete(&ticket, SearchOutcome::Found(13)), None);
    assert_eq!(session.deliver(&ticket, 13), None);
    assert_eq!(session.generation(), 1);
}

#[test]
fn cancelled_and_timed_out_searches_yield_no_response() {
    let mut session = Session::new();
    let (ticket, _) = session.begin(A);
    assert_eq!(session.complete(&ticket, SearchOutcome::Cancelled), None);
    assert!(session.is_idle());
    let (ticket, _) = session.begin(A);
    assert_eq!(session.complete(&ticket, SearchOutcome::TimedOut), None);
    assert!(session.is_idle());
}

#[test]
fn stale_completion_changes_nothing() {
    let mut session = Session::new();
    let (ticket_a, _) = session.begin(A);
    let (ticket_b, _) = session.begin(B);
    assert_eq!(session.complete(&ticket_a, SearchOutcome::Cancelled), None);
    assert!(!session.is_idle());
    assert!(session.admits(&ticket_b));
    assert_eq!(session.generation(), 2);
}

#[test]
fn same_challenge_again_is_a_new_generation() {
    let mut session = Session::new();
    let (first, _) = session.begin(A);
    let (second, _) = session.begin(A);
    assert_ne!(first, second);
    assert!(!session.admits(&first));
    assert!(session.admits(&second));
    assert_eq!(session.complete(&first, SearchOutcome::Found(13)), None);
    assert_eq!(session.complete(&second, SearchOutcome::Found(13)), Some(encode_response(1, 13)));
}

#[test]
fn forged_ticket_is_not_admitted() {
    let mut session = Session::new();
    let (ticket, _) = session.begin(A);
    assert!(!session.admits(&Ticket { generation: ticket.generation, challenge: B }));
    assert!(!session.admits(&Ticket { generation: ticket.generation + 1, challenge: A }));
    assert!(!session.admits(&Ticket { generation: 0, challenge: A }));
    assert!(session.admits(&Ticket { generation: 1, challenge: A }));
}

#[test]
fn idle_session_admits_nothing() {
    let session = Session::new();
    assert!(!session.admits(&Ticket { generation: 0, challenge: A }));
    assert_eq!(session.deliver(&Ticket { generation: 0, challenge: A }, 1), None);
}
