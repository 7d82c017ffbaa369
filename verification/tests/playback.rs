//! The per-frame scheduler: seeking, reconciliation, direction, silent skips.

use motiongfx::action::Action;
use motiongfx::action::ActionMeta;
use motiongfx::action::Interp;
use motiongfx::ease::EaseKind;
use motiongfx::player::play_sequence;
use motiongfx::player::seek_sequence;
use motiongfx::player::sequence_time_update_system;
use motiongfx::player::sequence_update_system;
use motiongfx::player::vector_builder;
use motiongfx::player::Object;
use motiongfx::sequence::all;
use motiongfx::sequence::Sequence;
use motiongfx::sequence::SequenceBundle;
use motiongfx::sequence::SequenceTime;

fn scalar_object(v: i64) -> Option<Object> {
    Some(Object { value: vec![v], should_build: false })
}

fn value_of(objects: &Vec<Option<Object>>, i: usize) -> i64 {
    objects[i].as_ref().unwrap().value[0]
}

#[test]
fn scrub_to_midpoint_then_clamp_past_the_end() {
    let mut objects = vec![scalar_object(0)];
    let actions = vec![Some(Action::new(0, vec![0], vec![10_000], Interp::Property))];
    let mut resources: Vec<Vec<i64>> = Vec::new();
    let sequence = Sequence::single(ActionMeta::new(0, 1_000));
    let mut time = SequenceTime::new();

    time.target_time = 500;
    seek_sequence(&sequence, &mut time, &mut objects, &actions, &mut resources);
    assert_eq!(value_of(&objects, 0), 5_000);
    assert_eq!(time.curr_time, 500);
    assert_eq!(time.target_time, 500);

    time.target_time = 1_500;
    seek_sequence(&sequence, &mut time, &mut objects, &actions, &mut resources);
    assert_eq!(time.target_time, 1_000);
    assert_eq!(time.curr_time, 1_000);
    assert_eq!(value_of(&objects, 0), 10_000);
}

#[test]
fn second_seek_with_unchanged_target_is_a_no_op() {
    let mut objects = vec![scalar_object(0)];
    let actions = vec![Some(Action::new(0, vec![0], vec![10_000], Interp::Property))];
    let mut resources: Vec<Vec<i64>> = Vec::new();
    let sequence = Sequence::single(ActionMeta::new(0, 1_000));
    let mut time = SequenceTime::new();

    time.target_time = 500;
    seek_sequence(&sequence, &mut time, &mut objects, &actions, &mut resources);
    // The first pass touched the object: the rebuild flag is up.
    assert_eq!(vector_builder(&mut objects), vec![0]);

    // Target unchanged: the second pass must invoke no interpolation at all,
    // observable through the rebuild flag staying down.
    seek_sequence(&sequence, &mut time, &mut objects, &actions, &mut resources);
    assert_eq!(value_of(&objects, 0), 5_000);
    assert_eq!(vector_builder(&mut objects), Vec::<usize>::new());
}

#[test]
fn seeking_back_to_zero_restores_begin_exactly() {
    let begin = 1_234;
    let mut objects = vec![scalar_object(begin)];
    let actions = vec![Some(Action::new(0, vec![begin], vec![9_876], Interp::Property))];
    let mut resources: Vec<Vec<i64>> = Vec::new();
    let sequence = Sequence::single(ActionMeta::new(0, 1_000));
    let mut time = SequenceTime::new();

    time.target_time = 1_000;
    seek_sequence(&sequence, &mut time, &mut objects, &actions, &mut resources);
    assert_eq!(value_of(&objects, 0), 9_876);

    time.target_time = 0;
    seek_sequence(&sequence, &mut time, &mut objects, &actions, &mut resources);
    assert_eq!(value_of(&objects, 0), begin);
}

#[test]
fn zero_duration_action_snaps_to_begin() {
    let mut objects = vec![scalar_object(0)];
    let actions = vec![Some(Action::new(0, vec![7_777], vec![9_999], Interp::Property))];
    let mut resources: Vec<Vec<i64>> = Vec::new();
    // An instantaneous snap inside a longer timeline.
    let snap = Sequence::single(ActionMeta::new(0, 0));
    let sequence = all(&[snap, Sequence::empty(1_000)]);
    let mut time = SequenceTime::new();

    time.target_time = 500;
    seek_sequence(&sequence, &mut time, &mut objects, &actions, &mut resources);
    // Progress of a zero-length window is exactly 0: the begin value, never
    // the end value and never a degenerate division.
    assert_eq!(value_of(&objects, 0), 7_777);
}

#[test]
fn eased_scrub_uses_the_curve() {
    let mut objects = vec![scalar_object(0)];
    let actions = vec![Some(Action::new(0, vec![0], vec![10_000], Interp::Property))];
    let mut resources: Vec<Vec<i64>> = Vec::new();
    let sequence = Sequence::single(ActionMeta::new(0, 1_000)).with_ease(EaseKind::QuadIn);
    let mut time = SequenceTime::new();

    time.target_time = 500;
    seek_sequence(&sequence, &mut time, &mut objects, &actions, &mut resources);
    // Progress 1/2 eased by t*t is 1/4.
    assert_eq!(value_of(&objects, 0), 2_500);
}

#[test]
fn iteration_order_follows_the_timeline_direction() {
    // Two overlapping actions on the same object: the one evaluated last
    // wins. Forward passes walk first to last; backward passes the reverse.
    let mut objects = vec![scalar_object(0)];
    let actions = vec![
        Some(Action::new(0, vec![10], vec![100], Interp::Property)),
        Some(Action::new(0, vec![20], vec![200], Interp::Property)),
    ];
    let mut resources: Vec<Vec<i64>> = Vec::new();
    let sequence = all(&[
        Sequence::single(ActionMeta::new(0, 10)),
        Sequence::single(ActionMeta::new(1, 10)),
    ]);
    let mut time = SequenceTime::new();

    time.target_time = 10;
    seek_sequence(&sequence, &mut time, &mut objects, &actions, &mut resources);
    // Forward: the second action is applied last.
    assert_eq!(value_of(&objects, 0), 200);

    time.target_time = 0;
    seek_sequence(&sequence, &mut time, &mut objects, &actions, &mut resources);
    // Backward: the first action is applied last.
    assert_eq!(value_of(&objects, 0), 10);
}

#[test]
fn resource_route_writes_through_the_handle() {
    // The object's property holds a handle (lane 0) into the resource table.
    let mut objects = vec![scalar_object(2)];
    let actions = vec![Some(Action::new(0, vec![0, 0], vec![100, 50], Interp::Resource))];
    let mut resources: Vec<Vec<i64>> = vec![vec![], vec![], vec![1, 1]];
    let sequence = Sequence::single(ActionMeta::new(0, 1_000));
    let mut time = SequenceTime::new();

    time.target_time = 500;
    seek_sequence(&sequence, &mut time, &mut objects, &actions, &mut resources);
    assert_eq!(resources[2], vec![50, 25]);
    // The object itself only carried the handle; it is untouched.
    assert_eq!(value_of(&objects, 0), 2);
}

#[test]
fn missing_target_object_is_skipped_silently() {
    let mut objects = vec![None, scalar_object(5)];
    let actions = vec![
        // Hole in the object store.
        Some(Action::new(0, vec![0], vec![100], Interp::Property)),
        // Index past the store entirely.
        Some(Action::new(7, vec![0], vec![100], Interp::Property)),
        Some(Action::new(1, vec![0], vec![100], Interp::Property)),
    ];
    let mut resources: Vec<Vec<i64>> = Vec::new();
    let sequence = all(&[
        Sequence::single(ActionMeta::new(0, 10)),
        Sequence::single(ActionMeta::new(1, 10)),
        Sequence::single(ActionMeta::new(2, 10)),
    ]);
    let mut time = SequenceTime::new();

    time.target_time = 10;
    seek_sequence(&sequence, &mut time, &mut objects, &actions, &mut resources);
    assert!(objects[0].is_none());
    assert_eq!(value_of(&objects, 1), 100);
}

#[test]
fn missing_action_record_is_skipped_silently() {
    let mut objects = vec![scalar_object(5)];
    let actions = vec![None, Some(Action::new(0, vec![0], vec![100], Interp::Property))];
    let mut resources: Vec<Vec<i64>> = Vec::new();
    let sequence = all(&[
        // Points at a removed action record.
        Sequence::single(ActionMeta::new(0, 10)),
        // Points past the action store.
        Sequence::single(ActionMeta::new(9, 10)),
        Sequence::single(ActionMeta::new(1, 10)),
    ]);
    let mut time = SequenceTime::new();

    time.target_time = 10;
    seek_sequence(&sequence, &mut time, &mut objects, &actions, &mut resources);
    assert_eq!(value_of(&objects, 0), 100);
}

#[test]
fn actions_outside_the_scrub_window_stay_untouched() {
    let mut objects = vec![scalar_object(1), scalar_object(2)];
    let actions = vec![
        Some(Action::new(0, vec![0], vec![100], Interp::Property)),
        Some(Action::new(1, vec![0], vec![100], Interp::Property)),
    ];
    let mut resources: Vec<Vec<i64>> = Vec::new();
    // The second action only starts at 5000; scrubbing to 1000 misses it.
    let first = Sequence::single(ActionMeta::new(0, 1_000));
    let second = motiongfx::sequence::delay(5_000, &Sequence::single(ActionMeta::new(1, 1_000)));
    let sequence = all(&[first, second]);
    let mut time = SequenceTime::new();

    time.target_time = 1_000;
    seek_sequence(&sequence, &mut time, &mut objects, &actions, &mut resources);
    assert_eq!(value_of(&objects, 0), 100);
    assert_eq!(value_of(&objects, 1), 2);
}

#[test]
fn play_pass_alone_leaves_playback_state_alone() {
    let mut objects = vec![scalar_object(0)];
    let actions = vec![Some(Action::new(0, vec![0], vec![1_000], Interp::Property))];
    let mut resources: Vec<Vec<i64>> = Vec::new();
    let sequence = Sequence::single(ActionMeta::new(0, 1_000));
    let time = SequenceTime { curr_time: 0, target_time: 250 };

    play_sequence(&mut objects, &actions, &mut resources, &sequence, &time);
    assert_eq!(value_of(&objects, 0), 250);
    assert_eq!(time.curr_time, 0);
    assert_eq!(time.target_time, 250);
}

#[test]
fn reconciliation_clamps_and_settles_every_timeline() {
    let mut bundles = vec![
        SequenceBundle::new(Sequence::empty(1_000)),
        SequenceBundle::new(Sequence::empty(300)),
    ];
    bundles[0].sequence_time.target_time = 650;
    bundles[1].sequence_time.target_time = 400;

    sequence_time_update_system(&mut bundles);
    assert_eq!(bundles[0].sequence_time.target_time, 650);
    assert_eq!(bundles[0].sequence_time.curr_time, 650);
    assert_eq!(bundles[1].sequence_time.target_time, 300);
    assert_eq!(bundles[1].sequence_time.curr_time, 300);
}

#[test]
fn update_system_plays_every_timeline_in_order() {
    let mut objects = vec![scalar_object(0), scalar_object(0)];
    let actions = vec![
        Some(Action::new(0, vec![0], vec![100], Interp::Property)),
        Some(Action::new(1, vec![0], vec![600], Interp::Property)),
    ];
    let mut resources: Vec<Vec<i64>> = Vec::new();
    let mut first = SequenceBundle::new(Sequence::single(ActionMeta::new(0, 100)));
    first.sequence_time.target_time = 50;
    let mut second = SequenceBundle::new(Sequence::single(ActionMeta::new(1, 600)));
    second.sequence_time.target_time = 200;
    let bundles = vec![first, second];

    sequence_update_system(&mut objects, &actions, &mut resources, &bundles);
    assert_eq!(value_of(&objects, 0), 50);
    assert_eq!(value_of(&objects, 1), 200);
}

#[test]
fn vector_builder_drains_flags_in_index_order() {
    let mut objects = vec![
        Some(Object { value: vec![1], should_build: true }),
        Some(Object { value: vec![2], should_build: false }),
        None,
        Some(Object { value: vec![4], should_build: true }),
    ];
    let targets = vector_builder(&mut objects);
    assert_eq!(targets, vec![0, 3]);
    assert!(!objects[0].as_ref().unwrap().should_build);
    assert!(!objects[3].as_ref().unwrap().should_build);
    // A second pass finds nothing to rebuild.
    assert_eq!(vector_builder(&mut objects), Vec::<usize>::new());
}

#[test]
fn rebuild_flag_accessors_round_trip() {
    let mut o = Object { value: vec![0], should_build: false };
    assert!(!o.should_build());
    o.set_should_build(true);
    assert!(o.should_build());
}
