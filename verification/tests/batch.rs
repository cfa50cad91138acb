use dynboard_gen::attempt::{next_step, Event, Outcome, Step};
use dynboard_gen::batch::{summarize, Policy, Summary};
use dynboard_gen::error::ErrorKind;

fn unreachable_attempt() -> Outcome {
    match next_step(Step::Fetch, Event::Failed) {
        Step::Done(outcome) => outcome,
        step => panic!("the attempt went on to {step:?}"),
    }
}

#[test]
fn unreachable_endpoint_best_effort_counts_five_attempted_none_written() {
    let outcomes = vec![unreachable_attempt(); 5];
    assert_eq!(
        summarize(Policy::BestEffort, &outcomes),
        Ok(Summary { attempted: 5, written: 0, skipped: 0, failed: 5 })
    );
}

#[test]
fn unreachable_endpoint_strict_surfaces_the_transport_error() {
    let outcomes = vec![unreachable_attempt(); 5];
    assert!(outcomes.iter().all(|outcome| *outcome != Outcome::Written));
    assert_eq!(summarize(Policy::Strict, &outcomes), Err(ErrorKind::Transport));
}

#[test]
fn fifty_attempts_are_all_counted() {
    let mut outcomes = Vec::new();
    for i in 0..50 {
        outcomes.push(match i % 3 {
            0 => Outcome::Written,
            1 => Outcome::Skipped,
            _ => Outcome::Failed(ErrorKind::Decode),
        });
    }
    assert_eq!(
        summarize(Policy::BestEffort, &outcomes),
        Ok(Summary { attempted: 50, written: 17, skipped: 17, failed: 16 })
    );
}

#[test]
fn an_empty_batch_completes_under_both_policies() {
    let nothing = Summary { attempted: 0, written: 0, skipped: 0, failed: 0 };
    assert_eq!(summarize(Policy::BestEffort, &[]), Ok(nothing));
    assert_eq!(summarize(Policy::Strict, &[]), Ok(nothing));
}

#[test]
fn skipped_attempts_are_no_errors_under_strict_policy() {
    let outcomes = [Outcome::Written, Outcome::Skipped, Outcome::Skipped, Outcome::Written];
    let expected = Summary { attempted: 4, written: 2, skipped: 2, failed: 0 };
    assert_eq!(summarize(Policy::Strict, &outcomes), Ok(expected));
    assert_eq!(summarize(Policy::BestEffort, &outcomes), Ok(expected));
}

#[test]
fn strict_policy_reports_the_first_error_in_launch_order() {
    let outcomes = [
        Outcome::Written,
        Outcome::Failed(ErrorKind::Io),
        Outcome::Skipped,
        Outcome::Failed(ErrorKind::Transport),
        Outcome::Failed(ErrorKind::Filter),
    ];
    assert_eq!(summarize(Policy::Strict, &outcomes), Err(ErrorKind::Io));
    assert_eq!(
        summarize(Policy::BestEffort, &outcomes),
        Ok(Summary { attempted: 5, written: 1, skipped: 1, failed: 3 })
    );
}

#[test]
fn every_error_kind_can_end_a_strict_batch() {
    let kinds = [
        ErrorKind::ThemeSelection,
        ErrorKind::Transport,
        ErrorKind::Decode,
        ErrorKind::Filter,
        ErrorKind::Io,
    ];
    for kind in kinds {
        let outcomes = [Outcome::Skipped, Outcome::Failed(kind), Outcome::Written];
        assert_eq!(summarize(Policy::Strict, &outcomes), Err(kind));
    }
}

#[test]
fn counts_add_up_to_the_attempts() {
    let outcomes = [
        Outcome::Failed(ErrorKind::Decode),
        Outcome::Written,
        Outcome::Skipped,
        Outcome::Written,
        Outcome::Failed(ErrorKind::Io),
        Outcome::Written,
    ];
    let summary = summarize(Policy::BestEffort, &outcomes).expect("best effort completes");
    assert_eq!(summary.attempted, outcomes.len());
    assert_eq!(summary.written + summary.skipped + summary.failed, summary.attempted);
}
