use dynboard_gen::attempt::{first_step, next_step, status_is_success, Event, Outcome, Step};
use dynboard_gen::error::ErrorKind;
use dynboard_gen::render::RenderRequest;

fn run(events: &[Event]) -> Step {
    let mut step = Step::Fetch;
    for event in events {
        step = next_step(step, *event);
    }
    step
}

#[test]
fn success_codes_are_the_two_hundreds() {
    assert!(!status_is_success(0));
    assert!(!status_is_success(100));
    assert!(!status_is_success(199));
    assert!(status_is_success(200));
    assert!(status_is_success(204));
    assert!(status_is_success(299));
    assert!(!status_is_success(300));
    assert!(!status_is_success(404));
    assert!(!status_is_success(500));
    assert!(!status_is_success(u16::MAX));
}

#[test]
fn an_attempt_starts_by_fetching() {
    let request = RenderRequest { theme: "wood", encoding: "8/8/8/8/8/8/8/8 w KQkq - 0 1".to_string() };
    assert_eq!(first_step(&Ok(request)), Step::Fetch);
}

#[test]
fn an_attempt_without_a_theme_is_over_at_once() {
    assert_eq!(
        first_step(&Err(ErrorKind::ThemeSelection)),
        Step::Done(Outcome::Failed(ErrorKind::ThemeSelection))
    );
}

#[test]
fn a_complete_attempt_is_written() {
    let events = [
        Event::Status(200),
        Event::Completed,
        Event::Decoded(3),
        Event::Completed,
        Event::Completed,
    ];
    assert_eq!(run(&events[..0]), Step::Fetch);
    assert_eq!(run(&events[..1]), Step::ReadBody);
    assert_eq!(run(&events[..2]), Step::Decode);
    assert_eq!(run(&events[..3]), Step::Filter);
    assert_eq!(run(&events[..4]), Step::Write);
    assert_eq!(run(&events), Step::Done(Outcome::Written));
}

#[test]
fn one_and_four_channel_images_reach_the_filter() {
    for channels in [1, 3, 4] {
        assert_eq!(
            run(&[Event::Status(200), Event::Completed, Event::Decoded(channels)]),
            Step::Filter
        );
    }
}

#[test]
fn a_non_success_status_skips_without_error() {
    for status in [199, 301, 404, 500] {
        assert_eq!(run(&[Event::Status(status)]), Step::Done(Outcome::Skipped));
    }
}

#[test]
fn a_failed_request_is_a_transport_error() {
    assert_eq!(run(&[Event::Failed]), Step::Done(Outcome::Failed(ErrorKind::Transport)));
}

#[test]
fn a_body_that_cannot_be_read_is_a_transport_error() {
    assert_eq!(
        run(&[Event::Status(200), Event::Failed]),
        Step::Done(Outcome::Failed(ErrorKind::Transport))
    );
}

#[test]
fn bytes_that_are_no_image_are_a_decode_error() {
    assert_eq!(
        run(&[Event::Status(200), Event::Completed, Event::Failed]),
        Step::Done(Outcome::Failed(ErrorKind::Decode))
    );
}

#[test]
fn an_unsupported_channel_count_is_a_filter_error() {
    for channels in [0, 2, 5, -3] {
        assert_eq!(
            run(&[Event::Status(200), Event::Completed, Event::Decoded(channels)]),
            Step::Done(Outcome::Failed(ErrorKind::Filter))
        );
    }
}

#[test]
fn a_failing_image_operation_is_a_filter_error() {
    assert_eq!(
        run(&[Event::Status(200), Event::Completed, Event::Decoded(4), Event::Failed]),
        Step::Done(Outcome::Failed(ErrorKind::Filter))
    );
}

#[test]
fn a_failing_write_is_an_io_error() {
    assert_eq!(
        run(&[
            Event::Status(200),
            Event::Completed,
            Event::Decoded(1),
            Event::Completed,
            Event::Failed
        ]),
        Step::Done(Outcome::Failed(ErrorKind::Io))
    );
}

#[test]
fn a_finished_attempt_ignores_further_reports() {
    let ends = [
        Step::Done(Outcome::Written),
        Step::Done(Outcome::Skipped),
        Step::Done(Outcome::Failed(ErrorKind::Decode)),
    ];
    let events = [Event::Status(200), Event::Decoded(3), Event::Completed, Event::Failed];
    for end in ends {
        for event in events {
            assert_eq!(next_step(end, event), end);
        }
    }
}

#[test]
fn a_report_that_answers_another_step_changes_nothing() {
    assert_eq!(next_step(Step::Fetch, Event::Completed), Step::Fetch);
    assert_eq!(next_step(Step::Fetch, Event::Decoded(3)), Step::Fetch);
    assert_eq!(next_step(Step::ReadBody, Event::Status(200)), Step::ReadBody);
    assert_eq!(next_step(Step::Decode, Event::Completed), Step::Decode);
    assert_eq!(next_step(Step::Filter, Event::Decoded(3)), Step::Filter);
    assert_eq!(next_step(Step::Write, Event::Status(200)), Step::Write);
}

#[test]
fn nothing_is_written_before_the_filter_has_completed() {
    let events = [Event::Status(200), Event::Decoded(3), Event::Completed, Event::Failed];
    let steps = [Step::Fetch, Step::ReadBody, Step::Decode, Step::Filter, Step::Write];
    for step in steps {
        for event in events {
            let next = next_step(step, event);
            if next == Step::Write && step != Step::Write {
                assert_eq!((step, event), (Step::Filter, Event::Completed));
            }
            if next == Step::Done(Outcome::Written) {
                assert_eq!((step, event), (Step::Write, Event::Completed));
            }
        }
    }
}
