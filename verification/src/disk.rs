//! Writing a bundle to disk, as a sequence of decisions.
//!
//! The library writes nothing itself. The caller does what the writer asks
//! for and tells it what came of it; `step` decides what to do next. A run
//! goes through at most three steps: the target is probed, its directory is
//! made, and the files are written, every one of them whatever becomes of
//! the others.

use crate::images::Images;
use crate::webpage::WebPage;
use crate::webpage::WebPageError;
use vstd::prelude::*;

verus! {

/// Where a write stands.
#[derive(Debug, Clone, Copy, PartialEq, Eq, Structural)]
pub enum WriterState {
    /// It is not known yet whether the target is free.
    AwaitingProbe,
    /// The directory is being made.
    AwaitingDirectory,
    /// The files are being written.
    AwaitingWrites,
    /// The write is over and its result was reported.
    Finished,
}

/// What the caller saw happen.
#[derive(Debug, PartialEq, Eq)]
pub enum WriterEvent {
    /// The target was looked at: whether a file or a directory is there.
    Probed(bool),
    /// Making the directory ended so.
    DirectoryCreated(Result<(), WebPageError>),
    /// Every write was attempted; they ended so, in the order in which
    /// they were issued.
    WritesSettled(Vec<Result<(), WebPageError>>),
}

/// What the caller is to do next.
#[derive(Debug, PartialEq, Eq)]
pub enum WriterAction {
    /// Look whether the target is there, as a file or as a directory.
    ProbeTarget,
    /// Make the directory.
    CreateDirectory,
    /// Issue every write and wait for all of them.
    WriteArtifacts,
    /// The write is over with this result.
    Report(Result<(), WebPageError>),
    /// The event does not belong to this state: go on waiting.
    Ignore,
}

/// The first failure among `outcomes`, or success where there is none.
pub open spec fn first_failure(outcomes: Seq<Result<(), WebPageError>>) -> Result<
    (),
    WebPageError,
>
    decreases outcomes.len(),
{
    if outcomes.len() == 0 {
        Ok(())
    } else {
        match first_failure(outcomes.drop_last()) {
            Ok(_) => outcomes.last(),
            Err(error) => Err(error),
        }
    }
}

/// The state that follows `state` on `event`, and what is to be done then.
///
/// A target that is taken ends the write before anything is made. A
/// directory that cannot be made ends it before anything is written. Once
/// the writes have settled, the first failure among them is reported.
pub open spec fn next(state: WriterState, event: WriterEvent) -> (WriterState, WriterAction) {
    match (state, event) {
        (WriterState::AwaitingProbe, WriterEvent::Probed(exists)) => if exists {
            (WriterState::Finished, WriterAction::Report(Err(WebPageError::PathExistsError)))
        } else {
            (WriterState::AwaitingDirectory, WriterAction::CreateDirectory)
        },
        (WriterState::AwaitingDirectory, WriterEvent::DirectoryCreated(outcome)) => match outcome {
            Ok(_) => (WriterState::AwaitingWrites, WriterAction::WriteArtifacts),
            Err(error) => (WriterState::Finished, WriterAction::Report(Err(error))),
        },
        (WriterState::AwaitingWrites, WriterEvent::WritesSettled(outcomes)) => (
            WriterState::Finished,
            WriterAction::Report(first_failure(outcomes@)),
        ),
        _ => (state, WriterAction::Ignore),
    }
}

/// The state that a run from `state` reaches over `events`.
pub open spec fn state_after(state: WriterState, events: Seq<WriterEvent>) -> WriterState
    decreases events.len(),
{
    if events.len() == 0 {
        state
    } else {
        next(state_after(state, events.drop_last()), events.last()).0
    }
}

/// What a run from `state` asks for on the last of `events`.
pub open spec fn action_after(state: WriterState, events: Seq<WriterEvent>) -> WriterAction
    recommends
        events.len() > 0,
{
    next(state_after(state, events.drop_last()), events.last()).1
}

/// Whether `action` changes what is on disk.
pub open spec fn touches_disk(action: WriterAction) -> bool {
    action is CreateDirectory || action is WriteArtifacts
}

/// Finds the first failure among settled writes.
pub fn first_error(outcomes: Vec<Result<(), WebPageError>>) -> (r: Result<(), WebPageError>)
    ensures
        r == first_failure(outcomes@),
{
    let mut result: Result<(), WebPageError> = Ok(());
    for outcome in it: outcomes
        invariant
            it.seq() == outcomes@,
            result == first_failure(outcomes@.take(it.index() as int)),
    {
        assert(outcomes@.take(it.index() + 1).drop_last() =~= outcomes@.take(it.index() as int));
        if result.is_ok() {
            result = outcome;
        }
    }
    assert(outcomes@.take(outcomes@.len() as int) =~= outcomes@);
    result
}

/// Decides what follows `state` on `event`.
pub fn step(state: WriterState, event: WriterEvent) -> (r: (WriterState, WriterAction))
    ensures
        r == next(state, event),
{
    match (state, event) {
        (WriterState::AwaitingProbe, WriterEvent::Probed(exists)) => {
            if exists {
                (WriterState::Finished, WriterAction::Report(Err(WebPageError::PathExistsError)))
            } else {
                (WriterState::AwaitingDirectory, WriterAction::CreateDirectory)
            }
        },
        (WriterState::AwaitingDirectory, WriterEvent::DirectoryCreated(outcome)) => {
            match outcome {
                Ok(_) => (WriterState::AwaitingWrites, WriterAction::WriteArtifacts),
                Err(error) => (WriterState::Finished, WriterAction::Report(Err(error))),
            }
        },
        (WriterState::AwaitingWrites, WriterEvent::WritesSettled(outcomes)) => {
            (WriterState::Finished, WriterAction::Report(first_error(outcomes)))
        },
        (state, _) => (state, WriterAction::Ignore),
    }
}

impl WebPage {
    /// Begins writing the bundle into a directory of its own: the target
    /// is probed first, for it must not be there yet.
    ///
    /// The writes of a bundle are issued and reported in this order: the
    /// markup, the printed page, the converted text, the images directory,
    /// the record.
    pub fn write_to_disk(&self) -> (r: (WriterState, WriterAction))
        ensures
            r == (WriterState::AwaitingProbe, WriterAction::ProbeTarget),
    {
        (WriterState::AwaitingProbe, WriterAction::ProbeTarget)
    }
}

impl Images {
    /// Begins writing the images into their directory. Where there is no
    /// image, no directory is made and the write is over at once.
    pub fn write_images_to_disk(&self) -> (r: (WriterState, WriterAction))
        ensures
            r == if self@.len() == 0 {
                (WriterState::Finished, WriterAction::Report(Ok(())))
            } else {
                (WriterState::AwaitingDirectory, WriterAction::CreateDirectory)
            },
    {
        if self.len() == 0 {
            (WriterState::Finished, WriterAction::Report(Ok(())))
        } else {
            (WriterState::AwaitingDirectory, WriterAction::CreateDirectory)
        }
    }
}

/// Whether the write at position `i` failed with `error` and every write
/// before it succeeded.
pub open spec fn fails_first_at(
    outcomes: Seq<Result<(), WebPageError>>,
    i: int,
    error: WebPageError,
) -> bool {
    &&& 0 <= i < outcomes.len()
    &&& outcomes[i] == Err::<(), WebPageError>(error)
    &&& forall|j: int| 0 <= j < i ==> (#[trigger] outcomes[j]) is Ok
}

/// The first failure is the failure of one of the writes, and every write
/// before that one succeeded; success means that every write succeeded.
pub proof fn lemma_first_failure(outcomes: Seq<Result<(), WebPageError>>)
    ensures
        match first_failure(outcomes) {
            Ok(_) => forall|i: int| 0 <= i < outcomes.len() ==> (#[trigger] outcomes[i]) is Ok,
            Err(error) => exists|i: int| fails_first_at(outcomes, i, error),
        },
    decreases outcomes.len(),
{
    if outcomes.len() > 0 {
        let rest = outcomes.drop_last();
        lemma_first_failure(rest);
        match first_failure(rest) {
            Ok(_) => {
                assert forall|i: int| 0 <= i < outcomes.len() - 1 implies (
                #[trigger] outcomes[i]) is Ok by {
                    assert(rest[i] is Ok);
                }
                if outcomes.last() is Err {
                    assert(fails_first_at(outcomes, outcomes.len() - 1, outcomes.last()->Err_0));
                }
            },
            Err(error) => {
                let i = choose|i: int| fails_first_at(rest, i, error);
                assert forall|j: int| 0 <= j < i implies (#[trigger] outcomes[j]) is Ok by {
                    assert(rest[j] is Ok);
                }
                assert(outcomes[i] == rest[i]);
                assert(fails_first_at(outcomes, i, error));
            },
        }
    }
}

/// Once a write is over, nothing more is asked for.
pub proof fn lemma_finished_stays_finished(events: Seq<WriterEvent>)
    ensures
        state_after(WriterState::Finished, events) == WriterState::Finished,
        events.len() > 0 ==> action_after(WriterState::Finished, events) is Ignore,
    decreases events.len(),
{
    if events.len() > 0 {
        lemma_finished_stays_finished(events.drop_last());
    }
}

/// A write to a place that is taken fails with `PathExistsError` and leaves
/// what is there as it is: whatever may follow, the directory is never made
/// and no file is ever written.
pub proof fn lemma_taken_target_is_left_alone(events: Seq<WriterEvent>, n: int)
    requires
        0 < n <= events.len(),
        events[0] == WriterEvent::Probed(true),
    ensures
        action_after(WriterState::AwaitingProbe, events.take(1)) == WriterAction::Report(
            Err(WebPageError::PathExistsError),
        ),
        state_after(WriterState::AwaitingProbe, events.take(n)) == WriterState::Finished,
        !touches_disk(action_after(WriterState::AwaitingProbe, events.take(n))),
    decreases n,
{
    let first = events.take(1);
    assert(first.drop_last() =~= Seq::<WriterEvent>::empty());
    assert(first.last() == events[0]);
    if n > 1 {
        lemma_taken_target_is_left_alone(events, n - 1);
        assert(events.take(n).drop_last() =~= events.take(n - 1));
    }
}

/// Files are written only into a directory that was made: a run from the
/// start asks for the writes only on the news that the directory is there,
/// and for the directory only on the news that the target is free.
pub proof fn lemma_writes_follow_the_directory(events: Seq<WriterEvent>)
    requires
        events.len() > 0,
    ensures
        action_after(WriterState::AwaitingProbe, events) is WriteArtifacts ==> (
        events.last() matches WriterEvent::DirectoryCreated(outcome) && outcome is Ok),
        action_after(WriterState::AwaitingProbe, events) is CreateDirectory ==> events.last()
            == WriterEvent::Probed(false),
{
}

} // verus!
