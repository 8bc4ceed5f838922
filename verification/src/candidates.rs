use vstd::prelude::*;

use crate::action::Action;
use crate::time::{Nanoseconds, Timestamp};
use crate::world::{
    FilteredGameControllerState, FilteredGameState, GamePhase, Role, SubState, Team,
};

verus! {

/// The safety and system actions that open every candidate list, in priority
/// order. They are tried before any tactical behaviour, whatever the role.
pub open spec fn safety_prefix() -> Seq<Action> {
    seq![
        Action::Unstiff,
        Action::Animation,
        Action::SitDown,
        Action::Penalize,
        Action::Initial,
        Action::FallSafely,
        Action::StandUp,
        Action::NoGroundContact,
        Action::Stand,
        Action::InterceptBall,
        Action::Calibrate,
    ]
}

/// Whether the time-boxed look-around is due: the robot is active, its
/// localization has not converged, and it has been active for less than
/// `maximum` nanoseconds. A clock that ran backwards gives no look-around.
pub open spec fn look_around_due(
    active_since: Option<Timestamp>,
    now: Timestamp,
    is_localization_converged: bool,
    maximum: Nanoseconds,
) -> bool {
    &&& active_since is Some
    &&& active_since->0.nanos <= now.nanos
    &&& !is_localization_converged
    &&& now.nanos - active_since->0.nanos < maximum
}

/// The game is in a penalty shoot-out.
pub open spec fn in_penalty_shootout(state: FilteredGameControllerState) -> bool {
    state.game_phase is PenaltyShootout
}

/// The opponent takes a penalty kick during play.
pub open spec fn opponent_penalty_kick_in_play(state: FilteredGameControllerState) -> bool {
    &&& state.game_state is Playing
    &&& state.kicking_team == Team::Opponent
    &&& state.sub_state == Some(SubState::PenaltyKick)
}

/// The keeper has to expect a penalty shot: it then jumps instead of
/// defending the goal.
pub open spec fn keeper_faces_penalty(state: Option<FilteredGameControllerState>) -> bool {
    state is Some && (in_penalty_shootout(state->0) || opponent_penalty_kick_in_play(state->0))
}

/// What the keeper tries after the common actions.
pub open spec fn keeper_actions(state: Option<FilteredGameControllerState>) -> Seq<Action> {
    if keeper_faces_penalty(state) {
        seq![Action::Jump, Action::PrepareJump]
    } else {
        seq![Action::DefendGoal]
    }
}

/// The striker's decision table over the filtered game-controller state.
pub open spec fn striker_action(state: Option<FilteredGameControllerState>) -> Action {
    if state is None {
        Action::Dribble
    } else {
        let state = state->0;
        let penalty_kick = state.sub_state == Some(SubState::PenaltyKick);
        if state.game_state is Playing && state.game_state->ball_is_free {
            Action::Dribble
        } else if state.game_state is Ready && state.game_state->kicking_team == Team::Hulks {
            if penalty_kick {
                Action::WalkToPenaltyKick
            } else {
                Action::WalkToKickOff
            }
        } else if state.game_state is Ready && penalty_kick && state.kicking_team
            == Team::Opponent {
            Action::DefendPenaltyKick
        } else {
            Action::DefendKickOff
        }
    }
}

/// The actions that a role contributes, in priority order.
pub open spec fn role_actions(
    role: Role,
    state: Option<FilteredGameControllerState>,
) -> Seq<Action> {
    match role {
        Role::DefenderLeft => seq![Action::DefendLeft],
        Role::DefenderRight => seq![Action::DefendRight],
        Role::Keeper => keeper_actions(state),
        Role::Loser => seq![Action::SearchForLostBall],
        Role::MidfielderLeft => seq![Action::SupportLeft],
        Role::MidfielderRight => seq![Action::SupportRight],
        Role::ReplacementKeeper => seq![Action::DefendGoal],
        Role::Searcher => seq![Action::Search],
        Role::Striker => seq![striker_action(state)],
        Role::StrikerSupporter => seq![Action::SupportStriker],
    }
}

/// The candidate list of one cycle: the safety prefix, then the look-around
/// where it is due, then the role's actions.
pub open spec fn candidate_actions(
    role: Role,
    state: Option<FilteredGameControllerState>,
    look_around: bool,
) -> Seq<Action> {
    safety_prefix() + (if look_around {
        seq![Action::LookAround]
    } else {
        Seq::<Action>::empty()
    }) + role_actions(role, state)
}

/// Whether the keeper has to expect a penalty shot.
pub fn keeper_expects_penalty(state: &Option<FilteredGameControllerState>) -> (expects: bool)
    ensures
        expects == keeper_faces_penalty(*state),
{
    match state {
        Some(FilteredGameControllerState { game_phase: GamePhase::PenaltyShootout { .. }, .. }) => {
            true
        },
        Some(
            FilteredGameControllerState {
                game_state: FilteredGameState::Playing { .. },
                kicking_team: Team::Opponent,
                sub_state: Some(SubState::PenaltyKick),
                ..
            },
        ) => true,
        _ => false,
    }
}

/// The one action that a striker tries after the common actions.
pub fn choose_striker_action(state: &Option<FilteredGameControllerState>) -> (action: Action)
    ensures
        action == striker_action(*state),
{
    match state {
        None => Action::Dribble,
        Some(state) => match state.game_state {
            FilteredGameState::Playing { ball_is_free: true, .. } => Action::Dribble,
            FilteredGameState::Ready { kicking_team: Team::Hulks } => match state.sub_state {
                Some(SubState::PenaltyKick) => Action::WalkToPenaltyKick,
                _ => Action::WalkToKickOff,
            },
            FilteredGameState::Ready { .. } => match (state.sub_state, state.kicking_team) {
                (Some(SubState::PenaltyKick), Team::Opponent) => Action::DefendPenaltyKick,
                _ => Action::DefendKickOff,
            },
            _ => Action::DefendKickOff,
        },
    }
}

/// Appends the actions of `role` to `actions`.
pub fn push_role_actions(
    actions: &mut Vec<Action>,
    role: Role,
    state: &Option<FilteredGameControllerState>,
)
    ensures
        final(actions)@ == old(actions)@ + role_actions(role, *state),
{
    match role {
        Role::DefenderLeft => actions.push(Action::DefendLeft),
        Role::DefenderRight => actions.push(Action::DefendRight),
        Role::Keeper => {
            if keeper_expects_penalty(state) {
                actions.push(Action::Jump);
                actions.push(Action::PrepareJump);
            } else {
                actions.push(Action::DefendGoal);
            }
        },
        Role::Loser => actions.push(Action::SearchForLostBall),
        Role::MidfielderLeft => actions.push(Action::SupportLeft),
        Role::MidfielderRight => actions.push(Action::SupportRight),
        Role::ReplacementKeeper => actions.push(Action::DefendGoal),
        Role::Searcher => actions.push(Action::Search),
        Role::Striker => {
            let action = choose_striker_action(state);
            actions.push(action);
        },
        Role::StrikerSupporter => actions.push(Action::SupportStriker),
    }
    assert(final(actions)@ =~= old(actions)@ + role_actions(role, *state));
}

/// Whether the look-around belongs in this cycle's candidate list.
pub fn is_look_around_due(
    active_since: Option<Timestamp>,
    now: Timestamp,
    is_localization_converged: bool,
    maximum: Nanoseconds,
) -> (due: bool)
    ensures
        due == look_around_due(active_since, now, is_localization_converged, maximum),
{
    match active_since {
        Some(active_since) => match now.duration_since(active_since) {
            Some(duration_active) => !is_localization_converged && duration_active < maximum,
            None => false,
        },
        None => false,
    }
}

/// Builds the candidate list of one cycle from scratch.
pub fn build_candidates(
    role: Role,
    state: &Option<FilteredGameControllerState>,
    look_around: bool,
) -> (actions: Vec<Action>)
    ensures
        actions@ == candidate_actions(role, *state, look_around),
{
    let mut actions: Vec<Action> = Vec::new();
    actions.push(Action::Unstiff);
    actions.push(Action::Animation);
    actions.push(Action::SitDown);
    actions.push(Action::Penalize);
    actions.push(Action::Initial);
    actions.push(Action::FallSafely);
    actions.push(Action::StandUp);
    actions.push(Action::NoGroundContact);
    actions.push(Action::Stand);
    actions.push(Action::InterceptBall);
    actions.push(Action::Calibrate);
    assert(actions@ =~= safety_prefix());
    if look_around {
        actions.push(Action::LookAround);
    }
    assert(actions@ =~= safety_prefix() + (if look_around {
        seq![Action::LookAround]
    } else {
        Seq::<Action>::empty()
    }));
    push_role_actions(&mut actions, role, state);
    actions
}

} // verus!
