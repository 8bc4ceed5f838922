use vstd::prelude::*;

use crate::time::Timestamp;
use crate::world::{BallState, PrimaryState, Role};

verus! {

/// The ball position to remember after a cycle: the one observed in it, or the
/// remembered one where no ball was observed.
pub open spec fn next_ball_position<P>(remembered: P, ball: Option<BallState<P>>) -> P {
    match ball {
        Some(ball) => ball.ball_in_field,
        None => remembered,
    }
}

/// The start of the current active stretch after a cycle at `now`. It is armed
/// on entering an active state, kept while the robot stays active, and cleared
/// as soon as it leaves.
pub open spec fn next_active_since(
    active_since: Option<Timestamp>,
    primary_state: PrimaryState,
    now: Timestamp,
) -> Option<Timestamp> {
    if primary_state.spec_is_active() {
        if active_since is Some {
            active_since
        } else {
            Some(now)
        }
    } else {
        None
    }
}

/// A role that a robot holds only in passing, while the ball is lost.
pub open spec fn is_transient(role: Role) -> bool {
    role == Role::Searcher || role == Role::Loser
}

/// The last meaningful role after a cycle in which the robot holds `role`.
/// Transient roles are not recorded, and a recorded keeper stays a keeper.
pub open spec fn next_previous_role(previous: Role, role: Role) -> Role {
    if previous != Role::Keeper && !is_transient(role) {
        role
    } else {
        previous
    }
}

/// Remembers the observed ball position, if there is one.
pub fn update_ball_position<P: Copy>(remembered: P, ball: &Option<BallState<P>>) -> (next: P)
    ensures
        next == next_ball_position(remembered, *ball),
{
    match ball {
        Some(ball) => ball.ball_in_field,
        None => remembered,
    }
}

/// Applies the transition table of the active-since timestamp.
pub fn update_active_since(
    active_since: Option<Timestamp>,
    primary_state: PrimaryState,
    now: Timestamp,
) -> (next: Option<Timestamp>)
    ensures
        next == next_active_since(active_since, primary_state, now),
{
    match (active_since, primary_state.is_active()) {
        (None, true) => Some(now),
        (None, false) => None,
        (Some(since), true) => Some(since),
        (Some(_), false) => None,
    }
}

/// Debounces the role.
pub fn update_previous_role(previous: Role, role: Role) -> (next: Role)
    ensures
        next == next_previous_role(previous, role),
{
    if previous != role && role != Role::Searcher && role != Role::Loser && previous
        != Role::Keeper {
        role
    } else {
        previous
    }
}

} // verus!
