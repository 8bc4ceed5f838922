use control::motion_interpolator::{
    KeyFrame, MotionFileFrame, MotionInterpolator, MotionItem, ValueError,
};

/// A spline for the tests: its key frames as (time, position), and the time passed.
#[derive(Clone, Debug, PartialEq)]
struct Track {
    keys: Vec<(u128, i32)>,
    elapsed: u128,
}

/// A condition for the tests: whether it is met, and the position it asks for.
#[derive(Clone, Debug, PartialEq)]
struct Wait {
    met: bool,
    hold: Option<i32>,
}

type Item = MotionItem<Track, Wait>;
type Player = MotionInterpolator<Track, Wait>;

fn track(keys: &[(u128, i32)]) -> Track {
    Track { keys: keys.to_vec(), elapsed: keys[0].0 }
}

fn make_track(keys: Vec<KeyFrame<i32>>) -> Result<Track, String> {
    if keys.len() < 2 {
        return Err(format!("{} key frame", keys.len()));
    }
    let keys: Vec<(u128, i32)> = keys.iter().map(|key| (key.time, key.positions)).collect();
    Ok(track(&keys))
}

fn track_is_finished(track: &Track) -> bool {
    track.elapsed >= track.keys.last().unwrap().0
}

fn wait_is_finished(wait: &Wait) -> bool {
    wait.met
}

fn track_value(track: &Track) -> Result<i32, String> {
    track
        .keys
        .iter()
        .rev()
        .find(|key| key.0 <= track.elapsed)
        .map(|key| key.1)
        .ok_or_else(|| "before the spline".to_string())
}

fn wait_value(wait: &Wait) -> Option<i32> {
    wait.hold
}

fn track_end(track: &Track) -> i32 {
    track.keys.last().unwrap().1
}

fn track_start(track: &Track) -> i32 {
    track.keys[0].1
}

fn joints(duration: u128, positions: i32) -> MotionFileFrame<i32, Wait> {
    MotionFileFrame::Joints { duration, positions }
}

fn wait(met: bool, hold: Option<i32>) -> MotionFileFrame<i32, Wait> {
    MotionFileFrame::Condition(Wait { met, hold })
}

fn items_of(player: &mut Player) -> Vec<Item> {
    let seen = std::cell::RefCell::new(Vec::new());
    player.for_each_item(
        &|track: Track| {
            seen.borrow_mut().push(MotionItem::Spline(track.clone()));
            track
        },
        &|wait: Wait| {
            seen.borrow_mut().push(MotionItem::Condition(wait.clone()));
            wait
        },
    );
    seen.into_inner()
}

fn same(left: &Item, right: &Item) -> bool {
    match (left, right) {
        (MotionItem::Spline(left), MotionItem::Spline(right)) => left == right,
        (MotionItem::Condition(left), MotionItem::Condition(right)) => left == right,
        _ => false,
    }
}

fn assert_items(player: &mut Player, expected: &[Item]) {
    let items = items_of(player);
    assert_eq!(items.len(), expected.len());
    for (item, expected) in items.iter().zip(expected) {
        assert!(same(item, expected));
    }
}

fn value(player: &Player) -> Result<i32, ValueError<String>> {
    player.value(&track_value, &wait_value, &track_end, &track_start)
}

fn step(player: &mut Player, time_step: u128) {
    player.advance_by(
        move |mut track: Track| {
            track.elapsed += time_step;
            track
        },
        &track_is_finished,
        &wait_is_finished,
    );
}

#[test]
fn frames_are_cut_at_conditions() {
    let frames = vec![
        joints(10, 1),
        joints(20, 2),
        wait(false, None),
        joints(5, 3),
        wait(true, Some(9)),
        joints(7, 4),
    ];
    let mut player = Player::try_from(0, frames, &make_track).ok().unwrap();
    assert_eq!(player.index(), 0);
    assert_items(
        &mut player,
        &[
            MotionItem::Spline(track(&[(0, 0), (10, 1), (30, 2)])),
            MotionItem::Condition(Wait { met: false, hold: None }),
            MotionItem::Spline(track(&[(30, 2), (35, 3)])),
            MotionItem::Condition(Wait { met: true, hold: Some(9) }),
        ],
    );
}

#[test]
fn frames_without_condition_make_no_item() {
    let mut player = Player::try_from(0, vec![joints(10, 1), joints(20, 2)], &make_track).ok().unwrap();
    assert_eq!(player.len(), 0);
    assert_items(&mut player, &[]);
}

#[test]
fn spline_error_ends_the_conversion() {
    let frames = vec![joints(10, 1), wait(false, None), wait(false, None), joints(1, 2)];
    let outcome = Player::try_from(0, frames, &make_track);
    assert_eq!(outcome.err(), Some("1 key frame".to_string()));
}

#[test]
fn interpolator_walks_through_its_items() {
    let frames = vec![joints(10, 1), wait(true, None), joints(10, 2), wait(false, Some(7))];
    let mut player = Player::try_from(0, frames, &make_track).ok().unwrap();
    assert_eq!(player.len(), 4);
    assert!(!player.is_finished(&track_is_finished, &wait_is_finished));
    step(&mut player, 4);
    assert_eq!(player.index(), 0);
    assert_eq!(value(&player).ok(), Some(0));
    step(&mut player, 6);
    assert_eq!(player.index(), 1);
    step(&mut player, 3);
    assert_eq!(player.index(), 2);
    step(&mut player, 3);
    assert_eq!(player.index(), 2);
    assert_eq!(value(&player).ok(), Some(1));
    step(&mut player, 7);
    assert_eq!(player.index(), 3);
    assert_eq!(value(&player).ok(), Some(7));
    assert!(!player.is_finished(&track_is_finished, &wait_is_finished));
    step(&mut player, 100);
    assert_eq!(player.index(), 3);
    player.update(&|mut wait: Wait| {
        wait.met = true;
        wait
    });
    assert!(player.is_finished(&track_is_finished, &wait_is_finished));
    step(&mut player, 1);
    assert_eq!(player.index(), 3);
}

#[test]
fn condition_borrows_positions_from_its_neighbours() {
    let spline = |keys: &[(u128, i32)]| MotionItem::Spline(track(keys));
    let condition = |hold| MotionItem::Condition(Wait { met: true, hold });

    let player = Player::new(vec![condition(Some(5)), spline(&[(0, 1), (1, 2)])]);
    assert_eq!(value(&player).ok(), Some(5));

    let player = Player::new(vec![condition(None), condition(None), spline(&[(0, 1), (1, 2)])]);
    assert_eq!(value(&player).ok(), Some(1));

    let mut player = Player::new(vec![
        spline(&[(0, 1), (1, 2)]),
        spline(&[(1, 3), (2, 4)]),
        condition(None),
        condition(None),
        spline(&[(2, 8), (3, 9)]),
    ]);
    step(&mut player, 1);
    step(&mut player, 1);
    assert_eq!(player.index(), 2);
    assert_eq!(value(&player).ok(), Some(4));
    assert!(matches!(player.get_prior_spline(), Some(prior) if prior.keys == vec![(1, 3), (2, 4)]));
    assert!(matches!(player.get_next_spline(), Some(next) if next.keys == vec![(2, 8), (3, 9)]));
    step(&mut player, 0);
    assert_eq!(player.index(), 3);
    assert_eq!(value(&player).ok(), Some(4));

    let player = Player::new(vec![condition(None)]);
    assert!(matches!(value(&player), Err(ValueError::NoSplines)));
    assert!(player.get_prior_spline().is_none());
    assert!(player.get_next_spline().is_none());
}

#[test]
fn spline_error_is_handed_on() {
    let mut early = track(&[(5, 1), (6, 2)]);
    early.elapsed = 0;
    let player = Player::new(vec![MotionItem::Spline(early)]);
    assert!(matches!(value(&player), Err(ValueError::Spline(text)) if text == "before the spline"));
}

#[test]
fn reset_keeps_the_place() {
    let frames = vec![joints(10, 1), wait(true, None), joints(10, 2), wait(true, None)];
    let mut player = Player::try_from(0, frames, &make_track).ok().unwrap();
    step(&mut player, 10);
    step(&mut player, 0);
    assert_eq!(player.index(), 2);
    player.reset(
        &|mut track: Track| {
            track.elapsed = track.keys[0].0;
            track
        },
        &|mut wait: Wait| {
            wait.met = false;
            wait
        },
    );
    assert_eq!(player.index(), 2);
    assert_items(
        &mut player,
        &[
            MotionItem::Spline(track(&[(0, 0), (10, 1)])),
            MotionItem::Condition(Wait { met: false, hold: None }),
            MotionItem::Spline(track(&[(10, 1), (20, 2)])),
            MotionItem::Condition(Wait { met: false, hold: None }),
        ],
    );
}

#[test]
fn update_leaves_splines_alone() {
    let mut player = Player::new(vec![
        MotionItem::Spline(track(&[(0, 1), (1, 2)])),
        MotionItem::Condition(Wait { met: false, hold: None }),
    ]);
    player.update(&|wait: Wait| Wait { met: true, hold: wait.hold.or(Some(3)) });
    assert_items(
        &mut player,
        &[
            MotionItem::Spline(track(&[(0, 1), (1, 2)])),
            MotionItem::Condition(Wait { met: true, hold: Some(3) }),
        ],
    );
}

#[test]
fn item_asks_its_own_test() {
    let spline: Item = MotionItem::Spline(track(&[(0, 1), (0, 2)]));
    let condition: Item = MotionItem::Condition(Wait { met: false, hold: None });
    assert!(spline.is_finished(&track_is_finished, &wait_is_finished));
    assert!(!condition.is_finished(&track_is_finished, &wait_is_finished));
}
