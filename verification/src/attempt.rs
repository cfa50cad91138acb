//! One generation attempt as a sequence of steps.
//!
//! An attempt fetches a drawn board, reads the body, decodes it, filters it
//! and writes the result. Each step is outside work; what follows from its
//! report is decided here. The caller performs the pending step, reports
//! what happened, and is told the next step, until the attempt is done.

use crate::error::ErrorKind;
use crate::filter::{grayscale_conversion, plan_for};
use crate::render::RenderRequest;
use vstd::prelude::*;

verus! {

/// How an attempt ended.
#[derive(Clone, Copy, PartialEq, Eq, Debug, Structural)]
pub enum Outcome {
    /// The filtered image is on disk.
    Written,
    /// The service answered with a non-success status: nothing to do, and no
    /// error.
    Skipped,
    /// The attempt was given up for this reason; no file was written.
    Failed(ErrorKind),
}

/// The work an attempt waits for, or its end.
#[derive(Clone, Copy, PartialEq, Eq, Debug, Structural)]
pub enum Step {
    /// Send the request.
    Fetch,
    /// Read the response body.
    ReadBody,
    /// Decode the body into an image.
    Decode,
    /// Run the edge filter's plan on the image.
    Filter,
    /// Write the encoded result to its path.
    Write,
    /// Nothing is left to do.
    Done(Outcome),
}

/// What the caller reports of the pending step.
#[derive(Clone, Copy, PartialEq, Eq, Debug, Structural)]
pub enum Event {
    /// The service answered with this status code.
    Status(u16),
    /// The image was decoded and has this many channels.
    Decoded(i32),
    /// The pending step succeeded and has nothing more to report.
    Completed,
    /// The pending step failed.
    Failed,
}

/// Whether a status code is a success: 200 to 299.
pub open spec fn is_success(status: u16) -> bool {
    200 <= status < 300
}

/// The error that a failure of `step` is; none for an attempt that is over,
/// which has nothing left to fail.
pub open spec fn failure_of(step: Step) -> Option<ErrorKind> {
    match step {
        Step::Fetch => Some(ErrorKind::Transport),
        Step::ReadBody => Some(ErrorKind::Transport),
        Step::Decode => Some(ErrorKind::Decode),
        Step::Filter => Some(ErrorKind::Filter),
        Step::Write => Some(ErrorKind::Io),
        Step::Done(_) => None,
    }
}

/// The step that follows `step` once `event` was reported. A report that
/// does not answer the pending step changes nothing.
pub open spec fn step_after(step: Step, event: Event) -> Step {
    match (step, event) {
        (_, Event::Failed) => match failure_of(step) {
            Some(kind) => Step::Done(Outcome::Failed(kind)),
            None => step,
        },
        (Step::Fetch, Event::Status(status)) => if is_success(status) {
            Step::ReadBody
        } else {
            Step::Done(Outcome::Skipped)
        },
        (Step::ReadBody, Event::Completed) => Step::Decode,
        (Step::Decode, Event::Decoded(channels)) => if plan_for(channels as int) is Some {
            Step::Filter
        } else {
            Step::Done(Outcome::Failed(ErrorKind::Filter))
        },
        (Step::Filter, Event::Completed) => Step::Write,
        (Step::Write, Event::Completed) => Step::Done(Outcome::Written),
        _ => step,
    }
}

/// The step an attempt is at after a sequence of reports.
pub open spec fn step_after_all(start: Step, events: Seq<Event>) -> Step
    decreases events.len(),
{
    if events.len() == 0 {
        start
    } else {
        step_after(step_after_all(start, events.drop_last()), events.last())
    }
}

/// Tells whether a status code is a success.
pub fn status_is_success(status: u16) -> (success: bool)
    ensures
        success == is_success(status),
{
    200 <= status && status < 300
}

/// The first step of an attempt: fetching, or the end where no request
/// could be made.
pub fn first_step(request: &Result<RenderRequest, ErrorKind>) -> (step: Step)
    ensures
        step == match *request {
            Ok(_) => Step::Fetch,
            Err(kind) => Step::Done(Outcome::Failed(kind)),
        },
{
    match request {
        Ok(_) => Step::Fetch,
        Err(kind) => Step::Done(Outcome::Failed(*kind)),
    }
}

/// Decides the next step from the pending one and the caller's report.
pub fn next_step(step: Step, event: Event) -> (next: Step)
    ensures
        next == step_after(step, event),
{
    match step {
        Step::Done(_) => step,
        Step::Fetch => match event {
            Event::Failed => Step::Done(Outcome::Failed(ErrorKind::Transport)),
            Event::Status(status) => if status_is_success(status) {
                Step::ReadBody
            } else {
                Step::Done(Outcome::Skipped)
            },
            _ => step,
        },
        Step::ReadBody => match event {
            Event::Failed => Step::Done(Outcome::Failed(ErrorKind::Transport)),
            Event::Completed => Step::Decode,
            _ => step,
        },
        Step::Decode => match event {
            Event::Failed => Step::Done(Outcome::Failed(ErrorKind::Decode)),
            Event::Decoded(channels) => match grayscale_conversion(channels) {
                Some(_) => Step::Filter,
                None => Step::Done(Outcome::Failed(ErrorKind::Filter)),
            },
            _ => step,
        },
        Step::Filter => match event {
            Event::Failed => Step::Done(Outcome::Failed(ErrorKind::Filter)),
            Event::Completed => Step::Write,
            _ => step,
        },
        Step::Write => match event {
            Event::Failed => Step::Done(Outcome::Failed(ErrorKind::Io)),
            Event::Completed => Step::Done(Outcome::Written),
            _ => step,
        },
    }
}

/// A finished attempt stays finished, whatever is reported.
pub proof fn lemma_done_is_final(outcome: Outcome, events: Seq<Event>)
    ensures
        step_after_all(Step::Done(outcome), events) == Step::Done(outcome),
    decreases events.len(),
{
    if events.len() > 0 {
        lemma_done_is_final(outcome, events.drop_last());
    }
}

/// Writing begins only when the filter has completed, and an attempt counts
/// as written only when the write has completed: no report sequence puts a
/// file on disk before the whole filter succeeded.
pub proof fn lemma_write_follows_filter(step: Step, event: Event)
    ensures
        step_after(step, event) == Step::Write ==> step == Step::Write || (step == Step::Filter
            && event == Event::Completed),
        step_after(step, event) == Step::Done(Outcome::Written) ==> step == Step::Done(
            Outcome::Written,
        ) || (step == Step::Write && event == Event::Completed),
{
}

/// A response with a non-success status ends the attempt as skipped, never
/// as failed.
pub proof fn lemma_bad_status_skips(status: u16)
    requires
        !is_success(status),
    ensures
        step_after(Step::Fetch, Event::Status(status)) == Step::Done(Outcome::Skipped),
{
}

/// Whether, in the course of `events`, the filter was pending and reported
/// complete.
pub open spec fn filter_completed(events: Seq<Event>) -> bool {
    exists|i: int|
        0 <= i < events.len() && step_after_all(Step::Fetch, events.take(i)) == Step::Filter
            && #[trigger] events[i] == Event::Completed
}

/// Whatever is reported, an attempt gets to writing, or ends as written,
/// only if the filter has completed before.
pub proof fn lemma_write_needs_filter(events: Seq<Event>)
    ensures
        step_after_all(Step::Fetch, events) == Step::Write || step_after_all(Step::Fetch, events)
            == Step::Done(Outcome::Written) ==> filter_completed(events),
    decreases events.len(),
{
    let now = step_after_all(Step::Fetch, events);
    if events.len() > 0 && (now == Step::Write || now == Step::Done(Outcome::Written)) {
        let earlier = events.drop_last();
        let before = step_after_all(Step::Fetch, earlier);
        lemma_write_needs_filter(earlier);
        lemma_write_follows_filter(before, events.last());
        if before == Step::Filter {
            assert(events.take(events.len() - 1) =~= earlier);
            assert(events[events.len() - 1] == Event::Completed);
        } else {
            let i = choose|i: int|
                0 <= i < earlier.len() && step_after_all(Step::Fetch, earlier.take(i))
                    == Step::Filter && #[trigger] earlier[i] == Event::Completed;
            assert(events.take(i) =~= earlier.take(i));
            assert(events[i] == earlier[i]);
        }
    }
}

} // verus!
