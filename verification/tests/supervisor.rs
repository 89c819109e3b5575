//! The hot-reload supervisor: rebuild decisions, the latest-wins handoff,
//! and the poll discipline.

use sdf_playground::compiler::{supervisor_round, Artifact, Compiler};
use sdf_playground::sdf::Sdf;

fn artifact(stamp: u64) -> Artifact {
    Artifact { stamp, scene: Sdf::Sphere { radius: 65536 } }
}

#[test]
fn poll_returns_nothing_before_the_first_build() {
    let mut c = Compiler::new();
    assert!(c.poll().is_none());
    assert!(c.poll().is_none());
}

#[test]
fn first_observation_always_triggers_a_build() {
    let c = Compiler::new();
    assert!(c.observe(42));
}

#[test]
fn unchanged_timestamp_triggers_no_build() {
    let mut c = Compiler::new();
    c.finish_build(42, Some(artifact(42)));
    assert!(!c.observe(42));
    assert!(c.observe(43));
}

#[test]
fn successful_build_is_delivered_exactly_once() {
    let mut c = Compiler::new();
    c.finish_build(1, Some(artifact(1)));
    let first = c.poll().expect("one build finished");
    assert_eq!(first.stamp, 1);
    assert!(c.poll().is_none());
}

#[test]
fn failed_build_is_observed_but_publishes_nothing() {
    let mut c = Compiler::new();
    c.finish_build(7, None);
    assert!(c.poll().is_none());
    // The broken edit is not retried until the source changes again.
    assert!(!c.observe(7));
    assert!(c.observe(8));
}

#[test]
fn latest_build_wins_over_unconsumed_one() {
    let mut c = Compiler::new();
    c.finish_build(1, Some(artifact(1)));
    c.finish_build(2, Some(artifact(2)));
    let got = c.poll().expect("two builds finished");
    assert_eq!(got.stamp, 2);
    assert!(c.poll().is_none());
}

#[test]
fn three_changes_two_successes_deliver_exactly_two_in_order() {
    // The source changes three times; the middle build fails. Polling
    // after every round returns an artifact exactly twice, in timestamp
    // order, and nothing on any other call.
    let mut c = Compiler::new();
    let mut delivered: Vec<u64> = Vec::new();
    let mut none_count: u32 = 0;
    let rounds: [(u64, bool); 6] = [
        (10, true),
        (10, true),  // unchanged: no build attempted, poll empty
        (20, false), // changed but the build fails
        (20, true),  // unchanged: the broken build is not retried
        (30, true),
        (30, true),  // unchanged again
    ];
    for (mtime, ok) in rounds {
        let build = if ok { Some(artifact(mtime)) } else { None };
        match supervisor_round(&mut c, mtime, build) {
            Some(a) => delivered.push(a.stamp),
            None => none_count += 1,
        }
    }
    assert_eq!(delivered, vec![10, 30]);
    assert_eq!(none_count, 4);
}
