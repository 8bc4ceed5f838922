use control::hysteresis::{update_active_since, update_ball_position, update_previous_role};
use control::time::Timestamp;
use control::world::{BallState, PrimaryState, Role};

const ALL_STATES: [PrimaryState; 10] = [
    PrimaryState::Unstiff,
    PrimaryState::Animation,
    PrimaryState::Initial,
    PrimaryState::Ready,
    PrimaryState::InSet,
    PrimaryState::Playing,
    PrimaryState::Penalized,
    PrimaryState::Finished,
    PrimaryState::Calibration,
    PrimaryState::Standby,
];

const ALL_ROLES: [Role; 10] = [
    Role::DefenderLeft,
    Role::DefenderRight,
    Role::Keeper,
    Role::Loser,
    Role::MidfielderLeft,
    Role::MidfielderRight,
    Role::ReplacementKeeper,
    Role::Searcher,
    Role::Striker,
    Role::StrikerSupporter,
];

#[test]
fn active_states_are_ready_set_playing() {
    for state in ALL_STATES {
        let expected = matches!(
            state,
            PrimaryState::Ready | PrimaryState::InSet | PrimaryState::Playing
        );
        assert_eq!(state.is_active(), expected);
    }
}

#[test]
fn active_since_follows_the_table() {
    let now = Timestamp { nanos: 70 };
    let earlier = Timestamp { nanos: 30 };
    for state in ALL_STATES {
        if state.is_active() {
            assert_eq!(update_active_since(None, state, now), Some(now));
            assert_eq!(update_active_since(Some(earlier), state, now), Some(earlier));
        } else {
            assert_eq!(update_active_since(None, state, now), None);
            assert_eq!(update_active_since(Some(earlier), state, now), None);
        }
    }
}

#[test]
fn active_since_is_armed_by_set_and_cleared_by_initial() {
    let armed = update_active_since(None, PrimaryState::InSet, Timestamp { nanos: 5 });
    assert_eq!(armed, Some(Timestamp { nanos: 5 }));
    let cleared = update_active_since(armed, PrimaryState::Initial, Timestamp { nanos: 6 });
    assert_eq!(cleared, None);
    let rearmed = update_active_since(cleared, PrimaryState::Playing, Timestamp { nanos: 7 });
    assert_eq!(rearmed, Some(Timestamp { nanos: 7 }));
}

#[test]
fn keeper_is_never_replaced() {
    for role in ALL_ROLES {
        assert_eq!(update_previous_role(Role::Keeper, role), Role::Keeper);
    }
}

#[test]
fn searcher_and_loser_are_not_recorded() {
    for previous in ALL_ROLES {
        assert_eq!(update_previous_role(previous, Role::Searcher), previous);
        assert_eq!(update_previous_role(previous, Role::Loser), previous);
    }
    assert_eq!(update_previous_role(Role::DefenderLeft, Role::Searcher), Role::DefenderLeft);
}

#[test]
fn meaningful_roles_are_recorded() {
    assert_eq!(update_previous_role(Role::Searcher, Role::Striker), Role::Striker);
    assert_eq!(update_previous_role(Role::DefenderLeft, Role::Keeper), Role::Keeper);
    assert_eq!(update_previous_role(Role::Striker, Role::Striker), Role::Striker);
    assert_eq!(
        update_previous_role(Role::ReplacementKeeper, Role::MidfielderRight),
        Role::MidfielderRight
    );
}

#[test]
fn ball_position_is_kept_without_observation() {
    assert_eq!(update_ball_position((1, 2), &None), (1, 2));
    assert_eq!(update_ball_position((1, 2), &Some(BallState { ball_in_field: (3, 4) })), (3, 4));
}

#[test]
fn duration_since_needs_a_forward_clock() {
    let early = Timestamp { nanos: 10 };
    let late = Timestamp { nanos: 25 };
    assert_eq!(late.duration_since(early), Some(15));
    assert_eq!(early.duration_since(early), Some(0));
    assert_eq!(early.duration_since(late), None);
}
