use control::action::Action;
use control::candidates::{
    build_candidates, choose_striker_action, is_look_around_due, keeper_expects_penalty,
    push_role_actions,
};
use control::time::Timestamp;
use control::world::{
    FilteredGameControllerState, FilteredGameState, GamePhase, Role, SubState, Team,
};

const PREFIX: [Action; 11] = [
    Action::Unstiff,
    Action::Animation,
    Action::SitDown,
    Action::Penalize,
    Action::Initial,
    Action::FallSafely,
    Action::StandUp,
    Action::NoGroundContact,
    Action::Stand,
    Action::InterceptBall,
    Action::Calibrate,
];

fn state(
    game_state: FilteredGameState,
    game_phase: GamePhase,
    kicking_team: Team,
    sub_state: Option<SubState>,
) -> Option<FilteredGameControllerState> {
    Some(FilteredGameControllerState { game_state, game_phase, kicking_team, sub_state })
}

fn playing(ball_is_free: bool) -> FilteredGameState {
    FilteredGameState::Playing { ball_is_free, kick_off: false }
}

fn ready(kicking_team: Team) -> FilteredGameState {
    FilteredGameState::Ready { kicking_team }
}

fn role_tail(role: Role, state: &Option<FilteredGameControllerState>) -> Vec<Action> {
    let mut actions = Vec::new();
    push_role_actions(&mut actions, role, state);
    actions
}

#[test]
fn safety_prefix_opens_every_list() {
    let roles = [
        Role::DefenderLeft,
        Role::DefenderRight,
        Role::Keeper,
        Role::Loser,
        Role::MidfielderLeft,
        Role::MidfielderRight,
        Role::ReplacementKeeper,
        Role::Searcher,
        Role::Striker,
        Role::StrikerSupporter,
    ];
    let states = [
        None,
        state(FilteredGameState::Initial, GamePhase::Normal, Team::Hulks, None),
        state(ready(Team::Opponent), GamePhase::Normal, Team::Opponent, Some(SubState::PenaltyKick)),
        state(playing(true), GamePhase::PenaltyShootout { kicking_team: Team::Hulks }, Team::Hulks, None),
        state(FilteredGameState::Finished, GamePhase::Timeout, Team::Uncertain, Some(SubState::KickIn)),
    ];
    for role in roles {
        for state in &states {
            for look_around in [false, true] {
                let actions = build_candidates(role, state, look_around);
                assert_eq!(&actions[..11], &PREFIX[..]);
                let tail = role_tail(role, state);
                assert!(!tail.is_empty());
                if look_around {
                    assert_eq!(actions[11], Action::LookAround);
                    assert_eq!(&actions[12..], &tail[..]);
                } else {
                    assert_eq!(&actions[11..], &tail[..]);
                    assert!(!actions.contains(&Action::LookAround));
                }
            }
        }
    }
}

#[test]
fn each_role_has_its_action() {
    let none = None;
    assert_eq!(role_tail(Role::DefenderLeft, &none), vec![Action::DefendLeft]);
    assert_eq!(role_tail(Role::DefenderRight, &none), vec![Action::DefendRight]);
    assert_eq!(role_tail(Role::Keeper, &none), vec![Action::DefendGoal]);
    assert_eq!(role_tail(Role::Loser, &none), vec![Action::SearchForLostBall]);
    assert_eq!(role_tail(Role::MidfielderLeft, &none), vec![Action::SupportLeft]);
    assert_eq!(role_tail(Role::MidfielderRight, &none), vec![Action::SupportRight]);
    assert_eq!(role_tail(Role::ReplacementKeeper, &none), vec![Action::DefendGoal]);
    assert_eq!(role_tail(Role::Searcher, &none), vec![Action::Search]);
    assert_eq!(role_tail(Role::Striker, &none), vec![Action::Dribble]);
    assert_eq!(role_tail(Role::StrikerSupporter, &none), vec![Action::SupportStriker]);
}

#[test]
fn striker_without_game_state_dribbles() {
    assert_eq!(choose_striker_action(&None), Action::Dribble);
}

#[test]
fn striker_dribbles_when_ball_is_free() {
    let state = state(playing(true), GamePhase::Normal, Team::Opponent, Some(SubState::PenaltyKick));
    assert_eq!(choose_striker_action(&state), Action::Dribble);
}

#[test]
fn striker_walks_to_own_penalty_kick() {
    let state = state(ready(Team::Hulks), GamePhase::Normal, Team::Hulks, Some(SubState::PenaltyKick));
    assert_eq!(choose_striker_action(&state), Action::WalkToPenaltyKick);
}

#[test]
fn striker_walks_to_own_kick_off() {
    let state = state(ready(Team::Hulks), GamePhase::Normal, Team::Hulks, None);
    assert_eq!(choose_striker_action(&state), Action::WalkToKickOff);
    let state = state_with_sub_state(SubState::CornerKick);
    assert_eq!(choose_striker_action(&state), Action::WalkToKickOff);
}

fn state_with_sub_state(sub_state: SubState) -> Option<FilteredGameControllerState> {
    state(ready(Team::Hulks), GamePhase::Normal, Team::Hulks, Some(sub_state))
}

#[test]
fn striker_defends_opponent_penalty_kick() {
    let state =
        state(ready(Team::Opponent), GamePhase::Normal, Team::Opponent, Some(SubState::PenaltyKick));
    assert_eq!(choose_striker_action(&state), Action::DefendPenaltyKick);
}

#[test]
fn striker_defends_kick_off_otherwise() {
    let cases = [
        state(ready(Team::Opponent), GamePhase::Normal, Team::Opponent, None),
        state(ready(Team::Opponent), GamePhase::Normal, Team::Hulks, Some(SubState::PenaltyKick)),
        state(ready(Team::Uncertain), GamePhase::Normal, Team::Uncertain, Some(SubState::PenaltyKick)),
        state(playing(false), GamePhase::Normal, Team::Opponent, Some(SubState::PenaltyKick)),
        state(FilteredGameState::Initial, GamePhase::Normal, Team::Hulks, None),
        state(FilteredGameState::InSet, GamePhase::Normal, Team::Hulks, None),
        state(FilteredGameState::Finished, GamePhase::Normal, Team::Hulks, None),
    ];
    for case in &cases {
        assert_eq!(choose_striker_action(case), Action::DefendKickOff);
    }
}

#[test]
fn keeper_jumps_in_penalty_shootout() {
    let state = state(
        FilteredGameState::Initial,
        GamePhase::PenaltyShootout { kicking_team: Team::Opponent },
        Team::Hulks,
        None,
    );
    assert!(keeper_expects_penalty(&state));
    assert_eq!(role_tail(Role::Keeper, &state), vec![Action::Jump, Action::PrepareJump]);
    let actions = build_candidates(Role::Keeper, &state, false);
    assert_eq!(actions.len(), 13);
    assert_eq!(&actions[11..], &[Action::Jump, Action::PrepareJump]);
}

#[test]
fn keeper_jumps_at_opponent_penalty_kick_in_play() {
    let state =
        state(playing(false), GamePhase::Normal, Team::Opponent, Some(SubState::PenaltyKick));
    assert!(keeper_expects_penalty(&state));
    assert_eq!(role_tail(Role::Keeper, &state), vec![Action::Jump, Action::PrepareJump]);
}

#[test]
fn keeper_defends_goal_otherwise() {
    let cases = [
        None,
        state(playing(true), GamePhase::Normal, Team::Hulks, Some(SubState::PenaltyKick)),
        state(playing(true), GamePhase::Normal, Team::Opponent, None),
        state(playing(true), GamePhase::Normal, Team::Opponent, Some(SubState::GoalKick)),
        state(ready(Team::Opponent), GamePhase::Normal, Team::Opponent, Some(SubState::PenaltyKick)),
        state(playing(true), GamePhase::Overtime, Team::Uncertain, Some(SubState::PenaltyKick)),
    ];
    for case in &cases {
        assert!(!keeper_expects_penalty(case));
        assert_eq!(role_tail(Role::Keeper, case), vec![Action::DefendGoal]);
    }
}

#[test]
fn look_around_is_time_boxed() {
    let since = Some(Timestamp { nanos: 1_000 });
    let at = |nanos: u128| Timestamp { nanos };
    assert!(is_look_around_due(since, at(1_000), false, 500));
    assert!(is_look_around_due(since, at(1_499), false, 500));
    assert!(!is_look_around_due(since, at(1_500), false, 500));
    assert!(!is_look_around_due(since, at(9_000), false, 500));
    assert!(!is_look_around_due(since, at(1_100), true, 500));
    assert!(!is_look_around_due(None, at(1_100), false, 500));
    assert!(!is_look_around_due(since, at(999), false, 500));
    assert!(!is_look_around_due(since, at(1_000), false, 0));
}
