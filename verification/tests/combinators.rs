//! The sequence combinators: chaining, joining, racing, staggering, delaying.

use motiongfx::action::Action;
use motiongfx::action::ActionMeta;
use motiongfx::action::Interp;
use motiongfx::ease::EaseKind;
use motiongfx::player::seek_sequence;
use motiongfx::player::Object;
use motiongfx::sequence::all;
use motiongfx::sequence::any;
use motiongfx::sequence::chain;
use motiongfx::sequence::delay;
use motiongfx::sequence::flow;
use motiongfx::sequence::Sequence;
use motiongfx::sequence::SequenceTime;

fn one_action(action_id: usize, duration: u32) -> Sequence {
    Sequence::single(ActionMeta::new(action_id, duration))
}

#[test]
fn chain_sums_durations_and_shifts_children() {
    let combined = chain(&[one_action(0, 2_000), one_action(1, 3_000)]);
    assert_eq!(combined.duration(), 5_000);
    assert_eq!(combined.action_metas.len(), 2);
    assert_eq!(combined.action_metas[0].start_time, 0);
    assert_eq!(combined.action_metas[1].start_time, 2_000);
    assert_eq!(combined.action_metas[1].duration, 3_000);
}

#[test]
fn chain_of_nothing_is_empty() {
    let combined = chain(&[]);
    assert_eq!(combined.duration(), 0);
    assert_eq!(combined.action_metas.len(), 0);
}

#[test]
fn all_takes_longest_and_shifts_nothing() {
    let combined = all(&[one_action(0, 2_000), one_action(1, 3_000)]);
    assert_eq!(combined.duration(), 3_000);
    assert_eq!(combined.action_metas.len(), 2);
    assert_eq!(combined.action_metas[0].start_time, 0);
    assert_eq!(combined.action_metas[1].start_time, 0);
}

#[test]
fn any_takes_shortest_keeping_all_actions() {
    let combined = any(&[one_action(0, 3_000), one_action(1, 1_000)]);
    assert_eq!(combined.duration(), 1_000);
    assert_eq!(combined.action_metas.len(), 2);
    assert_eq!(combined.action_metas[0].start_time, 0);
    assert_eq!(combined.action_metas[1].start_time, 0);
}

#[test]
fn any_of_nothing_lasts_no_time() {
    let combined = any(&[]);
    assert_eq!(combined.duration(), 0);
}

#[test]
fn flow_staggers_children_by_the_gap() {
    let combined = flow(1_000, &[one_action(0, 2_000), one_action(1, 2_000)]);
    assert_eq!(combined.duration(), 3_000);
    assert_eq!(combined.action_metas[0].start_time, 0);
    assert_eq!(combined.action_metas[1].start_time, 1_000);
}

#[test]
fn flow_duration_is_latest_child_end() {
    // The first child outlasts the stagger of the second.
    let combined = flow(100, &[one_action(0, 5_000), one_action(1, 1_000)]);
    assert_eq!(combined.duration(), 5_000);
}

#[test]
fn delay_shifts_everything_uniformly() {
    let combined = delay(500, &one_action(0, 2_000));
    assert_eq!(combined.duration(), 2_500);
    assert_eq!(combined.action_metas[0].start_time, 500);
    assert_eq!(combined.action_metas[0].duration, 2_000);
}

#[test]
fn empty_sequence_is_pure_waiting_time() {
    let s = Sequence::empty(700);
    assert_eq!(s.duration(), 700);
    assert_eq!(s.action_metas.len(), 0);
}

#[test]
fn whole_sequence_re_ease_wins_over_previous() {
    let s = chain(&[one_action(0, 1_000), one_action(1, 1_000)]);
    let s = s.with_ease(EaseKind::QuadIn).with_ease(EaseKind::QuadOut);
    assert_eq!(s.action_metas[0].ease_fn, EaseKind::QuadOut);
    assert_eq!(s.action_metas[1].ease_fn, EaseKind::QuadOut);
    assert_eq!(s.duration(), 2_000);
}

#[test]
fn chained_child_plays_like_the_child_in_isolation() {
    let actions = vec![
        Some(Action::new(0, vec![0], vec![100], Interp::Property)),
        Some(Action::new(1, vec![0], vec![900], Interp::Property)),
    ];
    let mut resources: Vec<Vec<i64>> = Vec::new();
    let first = one_action(0, 1_000);
    let second = one_action(1, 1_000);
    let combined = chain(&[first, second]);

    // Scrub the combined timeline to 1250, inside the second child.
    let mut objects = vec![
        Some(Object { value: vec![0], should_build: false }),
        Some(Object { value: vec![0], should_build: false }),
    ];
    let mut time = SequenceTime::new();
    time.target_time = 1_250;
    seek_sequence(&combined, &mut time, &mut objects, &actions, &mut resources);

    // Scrub the second child in isolation to 1250 minus its offset of 1000.
    let mut alone_objects = vec![
        Some(Object { value: vec![0], should_build: false }),
        Some(Object { value: vec![0], should_build: false }),
    ];
    let mut alone_time = SequenceTime::new();
    alone_time.target_time = 250;
    seek_sequence(&one_action(1, 1_000), &mut alone_time, &mut alone_objects, &actions, &mut resources);

    assert_eq!(
        objects[1].as_ref().unwrap().value,
        alone_objects[1].as_ref().unwrap().value
    );
    assert_eq!(objects[1].as_ref().unwrap().value, vec![225]);
}

#[test]
fn combinators_compose() {
    // Two staggered pairs, run one after the other.
    let first = flow(500, &[one_action(0, 1_000), one_action(1, 1_000)]);
    let second = all(&[one_action(2, 400), one_action(3, 900)]);
    let combined = chain(&[first, second]);
    // flow: max(0 + 1000, 500 + 1000) = 1500; all: max(400, 900) = 900.
    assert_eq!(combined.duration(), 2_400);
    assert_eq!(combined.action_metas[2].start_time, 1_500);
    assert_eq!(combined.action_metas[3].start_time, 1_500);
}
