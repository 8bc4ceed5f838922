//! What holds of the arbitration for every input, stated over the spec
//! functions that the contracts of the executable functions use.

use vstd::prelude::*;

use crate::action::Action;
use crate::arbiter::{all_declined, always_commands, may_answer, some_always_commands};
use crate::candidates::{
    candidate_actions, in_penalty_shootout, keeper_actions, look_around_due,
    opponent_penalty_kick_in_play, role_actions, safety_prefix, striker_action,
};
use crate::hysteresis::{
    is_transient, next_active_since, next_ball_position, next_previous_role,
};
use crate::time::{Nanoseconds, Timestamp};
use crate::world::{
    BallState, FilteredGameControllerState, PrimaryState, Role, SubState, Team,
};

verus! {

/// Every candidate list opens with the safety prefix, in its fixed order, and
/// holds nothing but the prefix, at most one look-around, and the role's
/// actions.
pub proof fn law_candidates_open_with_safety_prefix(
    role: Role,
    state: Option<FilteredGameControllerState>,
    look_around: bool,
)
    ensures
        safety_prefix().len() == 11,
        safety_prefix().is_prefix_of(candidate_actions(role, state, look_around)),
        candidate_actions(role, state, look_around).len() == 11 + (if look_around {
            1int
        } else {
            0int
        }) + role_actions(role, state).len(),
        1 <= role_actions(role, state).len() <= 2,
{
    let rest = (if look_around {
        seq![Action::LookAround]
    } else {
        Seq::<Action>::empty()
    }) + role_actions(role, state);
    assert(candidate_actions(role, state, look_around) =~= safety_prefix() + rest);
}

/// Where the executor is sure to give a command for some action of the safety
/// prefix, it cannot decline every candidate: the arbitration then commits,
/// whatever the role and the game state are.
pub proof fn law_reliable_safety_action_commits<C, X, F: Fn(Action, &X) -> Option<C>>(
    execute: F,
    inputs: X,
    role: Role,
    state: Option<FilteredGameControllerState>,
    look_around: bool,
)
    requires
        some_always_commands(execute, inputs, safety_prefix()),
    ensures
        some_always_commands(execute, inputs, candidate_actions(role, state, look_around)),
        !all_declined(execute, inputs, candidate_actions(role, state, look_around)),
{
    let candidates = candidate_actions(role, state, look_around);
    law_candidates_open_with_safety_prefix(role, state, look_around);
    let index = choose|index: int|
        0 <= index < safety_prefix().len() && always_commands(
            execute,
            inputs,
            #[trigger] safety_prefix()[index],
        );
    assert(candidates[index] == safety_prefix()[index]);
    assert(always_commands(execute, inputs, candidates[index]));
    if all_declined(execute, inputs, candidates) {
        assert(may_answer(execute, inputs, candidates[index], None::<C>));
    }
}

/// The four cells of the transition table of the active-since timestamp.
pub proof fn law_active_since_table(
    active_since: Option<Timestamp>,
    primary_state: PrimaryState,
    now: Timestamp,
)
    ensures
        active_since is None && primary_state.spec_is_active() ==> next_active_since(
            active_since,
            primary_state,
            now,
        ) == Some(now),
        active_since is None && !primary_state.spec_is_active() ==> next_active_since(
            active_since,
            primary_state,
            now,
        ) is None,
        active_since is Some && primary_state.spec_is_active() ==> next_active_since(
            active_since,
            primary_state,
            now,
        ) == active_since,
        active_since is Some && !primary_state.spec_is_active() ==> next_active_since(
            active_since,
            primary_state,
            now,
        ) is None,
        next_active_since(active_since, primary_state, now) is Some
            <==> primary_state.spec_is_active(),
{
}

/// The active-since timestamp after a run of cycles, each with its primary
/// state and time.
pub open spec fn active_since_after(
    active_since: Option<Timestamp>,
    cycles: Seq<(PrimaryState, Timestamp)>,
) -> Option<Timestamp>
    decreases cycles.len(),
{
    if cycles.len() == 0 {
        active_since
    } else {
        next_active_since(
            active_since_after(active_since, cycles.drop_last()),
            cycles.last().0,
            cycles.last().1,
        )
    }
}

/// After a run of cycles, the active-since timestamp is set exactly when the
/// last cycle was active. It is then the time of the cycle in which the robot
/// entered the unbroken active stretch that reaches to the end of the run, or
/// the timestamp from before the run where that stretch spans the whole run and
/// the robot was active before it.
pub proof fn law_active_since_marks_the_current_stretch(
    active_since: Option<Timestamp>,
    cycles: Seq<(PrimaryState, Timestamp)>,
    start: int,
)
    requires
        0 <= start < cycles.len(),
        forall|i: int| start <= i < cycles.len() ==> (#[trigger] cycles[i]).0.spec_is_active(),
        start > 0 ==> !cycles[start - 1].0.spec_is_active(),
    ensures
        active_since_after(active_since, cycles) == (if start == 0 && active_since is Some {
            active_since
        } else {
            Some(cycles[start].1)
        }),
    decreases cycles.len(),
{
    let front = cycles.drop_last();
    assert(cycles[cycles.len() - 1].0.spec_is_active());
    if start < cycles.len() - 1 {
        assert forall|i: int| start <= i < front.len() implies (
        #[trigger] front[i]).0.spec_is_active() by {
            assert(front[i] == cycles[i]);
        }
        if start > 0 {
            assert(front[start - 1] == cycles[start - 1]);
        }
        law_active_since_marks_the_current_stretch(active_since, front, start);
        assert(front[start] == cycles[start]);
    } else if start > 0 {
        assert(front.last() == cycles[start - 1]);
        law_inactive_cycle_clears(active_since, front);
    } else {
        assert(active_since_after(active_since, front) == active_since);
    }
}

/// After a run of cycles that ends in an inactive one, no timestamp is set.
pub proof fn law_inactive_cycle_clears(
    active_since: Option<Timestamp>,
    cycles: Seq<(PrimaryState, Timestamp)>,
)
    requires
        cycles.len() > 0,
        !cycles.last().0.spec_is_active(),
    ensures
        active_since_after(active_since, cycles) is None,
{
}

/// One step of the role debounce: the recorded role changes only to the
/// current role, only if that role is not transient, and never away from
/// keeper.
pub proof fn law_role_debounce_step(previous: Role, role: Role)
    ensures
        previous == Role::Keeper ==> next_previous_role(previous, role) == Role::Keeper,
        is_transient(role) ==> next_previous_role(previous, role) == previous,
        previous != Role::Keeper && !is_transient(role) ==> next_previous_role(previous, role)
            == role,
        next_previous_role(previous, role) != previous ==> next_previous_role(previous, role)
            == role && !is_transient(role),
{
}

/// The recorded role after a run of cycles with the given roles.
pub open spec fn previous_role_after(previous: Role, roles: Seq<Role>) -> Role
    decreases roles.len(),
{
    if roles.len() == 0 {
        previous
    } else {
        next_previous_role(previous_role_after(previous, roles.drop_last()), roles.last())
    }
}

/// A recorded keeper stays recorded, whatever roles follow.
pub proof fn law_keeper_is_sticky(roles: Seq<Role>)
    ensures
        previous_role_after(Role::Keeper, roles) == Role::Keeper,
    decreases roles.len(),
{
    if roles.len() > 0 {
        law_keeper_is_sticky(roles.drop_last());
    }
}

/// Transient roles leave no trace: while only searcher and loser follow, the
/// recorded role stays what it was.
pub proof fn law_transient_roles_leave_no_trace(previous: Role, roles: Seq<Role>)
    requires
        forall|i: int| 0 <= i < roles.len() ==> is_transient(#[trigger] roles[i]),
    ensures
        previous_role_after(previous, roles) == previous,
    decreases roles.len(),
{
    if roles.len() > 0 {
        let front = roles.drop_last();
        assert forall|i: int| 0 <= i < front.len() implies is_transient(#[trigger] front[i]) by {
            assert(front[i] == roles[i]);
        }
        law_transient_roles_leave_no_trace(previous, front);
        assert(is_transient(roles[roles.len() - 1]));
    }
}

/// The recorded role never becomes loser, and becomes searcher only by having
/// been searcher from the start.
pub proof fn law_recorded_role_is_never_transient(previous: Role, roles: Seq<Role>)
    ensures
        previous_role_after(previous, roles) == previous || !is_transient(
            previous_role_after(previous, roles),
        ),
    decreases roles.len(),
{
    if roles.len() > 0 {
        law_recorded_role_is_never_transient(previous, roles.drop_last());
    }
}

/// The striker's decision table, row by row.
pub proof fn law_striker_table(state: Option<FilteredGameControllerState>)
    ensures
        state is None ==> striker_action(state) == Action::Dribble,
        state is Some && state->0.game_state is Playing && state->0.game_state->ball_is_free
            ==> striker_action(state) == Action::Dribble,
        state is Some && state->0.game_state is Ready && state->0.game_state->kicking_team
            == Team::Hulks && state->0.sub_state == Some(SubState::PenaltyKick) ==> striker_action(
            state,
        ) == Action::WalkToPenaltyKick,
        state is Some && state->0.game_state is Ready && state->0.game_state->kicking_team
            == Team::Hulks && state->0.sub_state != Some(SubState::PenaltyKick) ==> striker_action(
            state,
        ) == Action::WalkToKickOff,
        state is Some && state->0.game_state is Ready && state->0.game_state->kicking_team
            != Team::Hulks && state->0.sub_state == Some(SubState::PenaltyKick)
            && state->0.kicking_team == Team::Opponent ==> striker_action(state)
            == Action::DefendPenaltyKick,
        state is Some && !(state->0.game_state is Playing && state->0.game_state->ball_is_free)
            && !(state->0.game_state is Ready && state->0.game_state->kicking_team == Team::Hulks)
            && !(state->0.game_state is Ready && state->0.sub_state == Some(SubState::PenaltyKick)
            && state->0.kicking_team == Team::Opponent) ==> striker_action(state)
            == Action::DefendKickOff,
        role_actions(Role::Striker, state) == seq![striker_action(state)],
{
}

/// The keeper's branch: in a penalty shoot-out, and when the opponent takes a
/// penalty kick during play, it tries to jump and falls back to the stance
/// that prepares the jump; in every other case it defends the goal.
pub proof fn law_keeper_branch(state: Option<FilteredGameControllerState>)
    ensures
        state is Some && in_penalty_shootout(state->0) ==> role_actions(Role::Keeper, state)
            == seq![Action::Jump, Action::PrepareJump],
        state is Some && opponent_penalty_kick_in_play(state->0) ==> role_actions(
            Role::Keeper,
            state,
        ) == seq![Action::Jump, Action::PrepareJump],
        state is None || (!in_penalty_shootout(state->0) && !opponent_penalty_kick_in_play(
            state->0,
        )) ==> role_actions(Role::Keeper, state) == seq![Action::DefendGoal],
        role_actions(Role::Keeper, state) == keeper_actions(state),
{
}

/// No role contributes the look-around, and the safety prefix does not hold it.
pub proof fn law_look_around_comes_only_from_the_gate(
    role: Role,
    state: Option<FilteredGameControllerState>,
)
    ensures
        !safety_prefix().contains(Action::LookAround),
        !role_actions(role, state).contains(Action::LookAround),
{
}

/// The look-around gate. While the localization has not converged and the
/// robot has been active for less than the maximum, the look-around stands
/// right behind the safety prefix and before the role's actions. Once the
/// active time has reached the maximum, or the localization has converged, or
/// the robot is not active, the candidate list does not hold it.
pub proof fn law_look_around_gate(
    role: Role,
    state: Option<FilteredGameControllerState>,
    active_since: Option<Timestamp>,
    now: Timestamp,
    is_localization_converged: bool,
    maximum: Nanoseconds,
)
    ensures
        ({
            let due = look_around_due(active_since, now, is_localization_converged, maximum);
            let candidates = candidate_actions(role, state, due);
            &&& (active_since is Some && active_since->0.nanos <= now.nanos
                && !is_localization_converged && now.nanos - active_since->0.nanos < maximum)
                ==> {
                &&& due
                &&& candidates[11] == Action::LookAround
                &&& candidates.subrange(0, 11) == safety_prefix()
                &&& candidates.subrange(12, candidates.len() as int) == role_actions(role, state)
            }
            &&& (active_since is None || is_localization_converged || (active_since->0.nanos
                <= now.nanos && now.nanos - active_since->0.nanos >= maximum)) ==> {
                &&& !due
                &&& !candidates.contains(Action::LookAround)
                &&& candidates == safety_prefix() + role_actions(role, state)
            }
        }),
{
    let due = look_around_due(active_since, now, is_localization_converged, maximum);
    let candidates = candidate_actions(role, state, due);
    law_candidates_open_with_safety_prefix(role, state, due);
    law_look_around_comes_only_from_the_gate(role, state);
    if due {
        assert(candidates.subrange(0, 11) =~= safety_prefix());
        assert(candidates.subrange(12, candidates.len() as int) =~= role_actions(role, state));
    } else {
        assert(candidates =~= safety_prefix() + role_actions(role, state));
        if candidates.contains(Action::LookAround) {
            let i = choose|i: int| 0 <= i < candidates.len() && candidates[i] == Action::LookAround;
            if i < 11 {
                assert(safety_prefix()[i] == Action::LookAround);
            } else {
                assert(role_actions(role, state)[i - 11] == Action::LookAround);
            }
        }
    }
}

/// The remembered ball position after a run of cycles, each with its ball
/// observation or none.
pub open spec fn ball_position_after<P>(remembered: P, balls: Seq<Option<BallState<P>>>) -> P
    decreases balls.len(),
{
    if balls.len() == 0 {
        remembered
    } else {
        next_ball_position(ball_position_after(remembered, balls.drop_last()), balls.last())
    }
}

/// Cycles without a ball observation do not touch the remembered position.
pub proof fn law_ball_memory_is_kept<P>(remembered: P, balls: Seq<Option<BallState<P>>>)
    requires
        forall|i: int| 0 <= i < balls.len() ==> (#[trigger] balls[i]) is None,
    ensures
        ball_position_after(remembered, balls) == remembered,
    decreases balls.len(),
{
    if balls.len() > 0 {
        let front = balls.drop_last();
        assert forall|i: int| 0 <= i < front.len() implies (#[trigger] front[i]) is None by {
            assert(front[i] == balls[i]);
        }
        law_ball_memory_is_kept(remembered, front);
        assert(balls[balls.len() - 1] is None);
    }
}

} // verus!
