use control::game_controller_filter::{
    CreationContext, CycleContext, CycleOutputs, FilterError, GameControllerFilter,
    GameControllerStateMessage, GameState, ReceivedMessage, SourceAddress,
};
use control::time::Timestamp;
use control::world::{GamePhase, SubState, Team};

const SECOND: u128 = 1_000_000_000;

fn address(last: u32) -> SourceAddress {
    SourceAddress::V4 { octets: 0x0a00_0000 + last, port: 3838 }
}

fn message(game_state: GameState) -> GameControllerStateMessage<[u8; 2]> {
    GameControllerStateMessage {
        game_state,
        game_phase: GamePhase::Normal,
        kicking_team: Team::Opponent,
        sub_state: Some(SubState::GoalKick),
        penalties: [1, 2],
        remaining_amount_of_messages: 1200,
        hulks_team_is_home_after_coin_toss: true,
    }
}

fn received(nanos: u128, source: u32, game_state: GameState) -> ReceivedMessage<[u8; 2]> {
    ReceivedMessage {
        time: Timestamp { nanos },
        source_address: address(source),
        message: message(game_state),
    }
}

fn filter() -> GameControllerFilter<[u8; 2]> {
    GameControllerFilter::new(CreationContext {})
}

fn cycle(
    filter: &mut GameControllerFilter<[u8; 2]>,
    now: u128,
    messages: Vec<ReceivedMessage<[u8; 2]>>,
) -> Result<CycleOutputs<[u8; 2]>, FilterError> {
    filter.cycle(CycleContext {
        cycle_start_time: Timestamp { nanos: now },
        network_messages: messages,
        last_contact_subscribed: true,
    })
}

#[test]
fn silent_filter_knows_nothing() {
    let mut filter = filter();
    let outputs = cycle(&mut filter, 5, vec![]).unwrap();
    assert!(outputs.main_outputs.game_controller_state.is_none());
    assert_eq!(outputs.main_outputs.game_controller_address, None);
    assert_eq!(outputs.collision_warnings, 0);
    assert_eq!(outputs.last_contact, Some(vec![]));
}

#[test]
fn message_is_taken_over() {
    let mut filter = filter();
    let outputs = cycle(&mut filter, 70, vec![received(60, 1, GameState::Ready)]).unwrap();
    let state = outputs.main_outputs.game_controller_state.unwrap();
    assert_eq!(state.game_state, GameState::Ready);
    assert_eq!(state.game_phase, GamePhase::Normal);
    assert_eq!(state.kicking_team, Team::Opponent);
    assert_eq!(state.sub_state, Some(SubState::GoalKick));
    assert_eq!(state.penalties, [1, 2]);
    assert_eq!(state.remaining_amount_of_messages, 1200);
    assert!(state.hulks_team_is_home_after_coin_toss);
    assert_eq!(state.last_game_state_change, Timestamp { nanos: 70 });
    assert_eq!(outputs.main_outputs.game_controller_address, Some(address(1)));
    assert_eq!(outputs.last_contact, Some(vec![(address(1), Timestamp { nanos: 60 })]));
}

#[test]
fn change_time_moves_only_with_the_game_state() {
    let mut filter = filter();
    cycle(&mut filter, 10, vec![received(9, 1, GameState::Initial)]).unwrap();
    let outputs = cycle(&mut filter, 20, vec![received(19, 1, GameState::Initial)]).unwrap();
    let state = outputs.main_outputs.game_controller_state.unwrap();
    assert_eq!(state.last_game_state_change, Timestamp { nanos: 10 });
    let outputs = cycle(
        &mut filter,
        30,
        vec![received(28, 1, GameState::Ready), received(29, 1, GameState::Ready)],
    )
    .unwrap();
    let state = outputs.main_outputs.game_controller_state.unwrap();
    assert_eq!(state.game_state, GameState::Ready);
    assert_eq!(state.last_game_state_change, Timestamp { nanos: 30 });
    let outputs = cycle(&mut filter, 40, vec![]).unwrap();
    let state = outputs.main_outputs.game_controller_state.unwrap();
    assert_eq!(state.last_game_state_change, Timestamp { nanos: 30 });
}

#[test]
fn one_game_controller_is_no_collision() {
    let mut filter = filter();
    let messages = (0..20).map(|tick| received(tick * SECOND, 1, GameState::Playing)).collect();
    let outputs = cycle(&mut filter, 0, messages).unwrap();
    assert_eq!(outputs.collision_warnings, 0);
    assert_eq!(outputs.last_contact, Some(vec![(address(1), Timestamp { nanos: 19 * SECOND })]));
}

#[test]
fn two_game_controllers_collide() {
    let mut filter = filter();
    let now = Timestamp { nanos: 0 };
    assert_eq!(filter.receive(now, &received(100 * SECOND, 1, GameState::Playing)), Ok(false));
    assert_eq!(filter.receive(now, &received(101 * SECOND, 2, GameState::Playing)), Ok(true));
    assert_eq!(filter.latest_address(), Some(address(2)));
}

#[test]
fn old_contact_is_no_collision() {
    let mut filter = filter();
    let now = Timestamp { nanos: 0 };
    assert_eq!(filter.receive(now, &received(100 * SECOND, 1, GameState::Playing)), Ok(false));
    assert_eq!(filter.receive(now, &received(105 * SECOND, 2, GameState::Playing)), Ok(false));
    assert_eq!(filter.receive(now, &received(110 * SECOND - 1, 1, GameState::Playing)), Ok(true));
}

#[test]
fn warning_has_a_cooldown() {
    let mut filter = filter();
    let mut messages = Vec::new();
    for tick in 0..25u128 {
        messages.push(received(tick * SECOND, 1, GameState::Playing));
        messages.push(received(tick * SECOND + 1, 2, GameState::Playing));
    }
    let outputs = cycle(&mut filter, 0, messages).unwrap();
    assert_eq!(outputs.collision_warnings, 3);
    assert_eq!(outputs.main_outputs.game_controller_address, Some(address(2)));
}

#[test]
fn cooldown_ends_after_ten_seconds() {
    let mut filter = filter();
    let now = Timestamp { nanos: 0 };
    assert_eq!(filter.receive(now, &received(0, 1, GameState::Playing)), Ok(false));
    assert_eq!(filter.receive(now, &received(1, 2, GameState::Playing)), Ok(true));
    assert_eq!(filter.receive(now, &received(9 * SECOND, 1, GameState::Playing)), Ok(false));
    assert_eq!(filter.receive(now, &received(10 * SECOND, 2, GameState::Playing)), Ok(false));
    assert_eq!(filter.receive(now, &received(10 * SECOND + 1, 1, GameState::Playing)), Ok(true));
}

#[test]
fn backwards_time_is_refused() {
    let mut filter = filter();
    let outcome = cycle(
        &mut filter,
        0,
        vec![
            received(50, 1, GameState::Initial),
            received(49, 2, GameState::Ready),
            received(60, 1, GameState::Playing),
        ],
    );
    assert_eq!(outcome.err(), Some(FilterError::TimeRanBackwards));
    let outputs = cycle(&mut filter, 0, vec![]).unwrap();
    assert_eq!(outputs.main_outputs.game_controller_state.unwrap().game_state, GameState::Initial);
    assert_eq!(outputs.last_contact, Some(vec![(address(1), Timestamp { nanos: 50 })]));
}

#[test]
fn own_earlier_contact_is_overwritten() {
    let mut filter = filter();
    let now = Timestamp { nanos: 0 };
    assert_eq!(filter.receive(now, &received(50, 1, GameState::Initial)), Ok(false));
    assert_eq!(filter.receive(now, &received(40, 1, GameState::Initial)), Ok(false));
    assert_eq!(filter.contacts(), vec![(address(1), Timestamp { nanos: 40 })]);
}

#[test]
fn warning_time_is_a_time_on_record() {
    let mut filter = filter();
    let now = Timestamp { nanos: 0 };
    assert_eq!(filter.receive(now, &received(SECOND, 1, GameState::Playing)), Ok(false));
    assert_eq!(filter.receive(now, &received(SECOND, 2, GameState::Playing)), Ok(true));
    assert_eq!(
        filter.receive(now, &received(SECOND - 1, 2, GameState::Playing)),
        Err(FilterError::TimeRanBackwards)
    );
}

#[test]
fn contacts_are_published_on_request_only() {
    let mut filter = filter();
    let outputs = filter
        .cycle(CycleContext {
            cycle_start_time: Timestamp { nanos: 1 },
            network_messages: vec![received(1, 3, GameState::Finished)],
            last_contact_subscribed: false,
        })
        .unwrap();
    assert_eq!(outputs.last_contact, None);
    assert_eq!(outputs.main_outputs.game_controller_address, Some(address(3)));
}

#[test]
fn different_ports_are_different_sources() {
    let mut filter = filter();
    let now = Timestamp { nanos: 0 };
    let mut first = received(10, 1, GameState::Playing);
    first.source_address = SourceAddress::V6 { segments: 1, port: 1, flow_info: 0, scope_id: 0 };
    let mut second = received(11, 1, GameState::Playing);
    second.source_address = SourceAddress::V6 { segments: 1, port: 2, flow_info: 0, scope_id: 0 };
    assert_eq!(filter.receive(now, &first), Ok(false));
    assert_eq!(filter.receive(now, &second), Ok(true));
}
