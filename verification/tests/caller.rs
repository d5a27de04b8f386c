use ceilidh::caller::transition_allowed;
use ceilidh::protocol::TurnStatus::{Claimed, Done, Queued, Working};

#[test]
fn happy_path_is_legal() {
    assert!(transition_allowed(Queued, Claimed));
    assert!(transition_allowed(Claimed, Working));
    assert!(transition_allowed(Working, Done));
}

#[test]
fn done_is_terminal() {
    assert!(!transition_allowed(Done, Queued));
    assert!(!transition_allowed(Done, Working));
}
