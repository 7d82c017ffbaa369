//! Motion builders: consecutive actions chain from the running value.

use motiongfx::action::ActionMeta;
use motiongfx::action::Interp;
use motiongfx::ease::Progress;
use motiongfx::motion::Motion;
use motiongfx::player::seek_sequence;
use motiongfx::player::Object;
use motiongfx::sequence::chain;
use motiongfx::sequence::Sequence;
use motiongfx::sequence::SequenceTime;

#[test]
fn to_captures_begin_and_advances_the_running_value() {
    let mut motion = Motion::new(0, vec![0, 0, 0], Interp::Property);
    let a = motion.to(vec![10, 20, 30]);
    assert_eq!(a.target, 0);
    assert_eq!(a.begin, vec![0, 0, 0]);
    assert_eq!(a.end, vec![10, 20, 30]);
    assert_eq!(motion.value, vec![10, 20, 30]);

    let b = motion.to(vec![5, 5, 5]);
    assert_eq!(b.begin, vec![10, 20, 30]);
    assert_eq!(b.end, vec![5, 5, 5]);
}

#[test]
fn add_moves_relative_to_the_running_value() {
    let mut motion = Motion::new(3, vec![100, -50], Interp::Property);
    let a = motion.add(&vec![10, 10]);
    assert_eq!(a.begin, vec![100, -50]);
    assert_eq!(a.end, vec![110, -40]);
    assert_eq!(motion.value, vec![110, -40]);
}

#[test]
fn progress_is_clamped_into_the_window() {
    let meta = ActionMeta::new(0, 100);
    assert_eq!(meta.progress_at(0), Progress { num: 0, den: 100 });
    assert_eq!(meta.progress_at(40), Progress { num: 40, den: 100 });
    assert_eq!(meta.progress_at(100), Progress { num: 100, den: 100 });
    assert_eq!(meta.progress_at(5_000), Progress { num: 100, den: 100 });
}

#[test]
fn chained_motions_replay_like_the_builder_ran() {
    // Build two consecutive transitions on one object, chain them, and play
    // the timeline through both: the object retraces the builder's path.
    let mut objects = vec![Some(Object { value: vec![0], should_build: false })];
    let mut motion = Motion::new(0, vec![0], Interp::Property);
    let first = motion.to(vec![1_000]);
    let second = motion.to(vec![250]);
    let actions = vec![Some(first), Some(second)];
    let sequence = chain(&[
        Sequence::single(ActionMeta::new(0, 100)),
        Sequence::single(ActionMeta::new(1, 100)),
    ]);
    let mut time = SequenceTime::new();
    let mut resources: Vec<Vec<i64>> = Vec::new();

    time.target_time = 100;
    seek_sequence(&sequence, &mut time, &mut objects, &actions, &mut resources);
    assert_eq!(objects[0].as_ref().unwrap().value, vec![1_000]);

    time.target_time = 150;
    seek_sequence(&sequence, &mut time, &mut objects, &actions, &mut resources);
    assert_eq!(objects[0].as_ref().unwrap().value, vec![625]);

    time.target_time = 200;
    seek_sequence(&sequence, &mut time, &mut objects, &actions, &mut resources);
    assert_eq!(objects[0].as_ref().unwrap().value, vec![250]);
}
