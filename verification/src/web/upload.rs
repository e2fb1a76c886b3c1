//! The life of an uploaded model file, from the form that brought it to the
//! answer: which step follows which outcome, and what is cleaned up.
//!
//! Directories, files, the trial of the model and the registry belong to the
//! program around this; it carries out an action and hands back its outcome.

use vstd::prelude::*;
use super::api::{is_error, Reply};
use super::models::{
    model_rejected, reason, step_failure, upload_failed, ActivateError, UploadStep,
};

verus! {

/// Why an upload is refused after its form was in order.
#[derive(Debug)]
pub enum UploadFailure {
    /// A step failed, with a detail.
    Cut(UploadStep, String),
    /// The model did not load.
    Rejected(ActivateError),
}

/// Where an upload stands: which action is under way.
#[derive(Debug)]
pub enum UploadState {
    /// The directory is being made.
    MakingDir,
    /// The file is being written under its temporary name.
    Writing,
    /// The model is being tried.
    Validating,
    /// The file is being moved to its final name. The number is the side
    /// length of the model's input.
    Renaming(u32),
    /// The model is being entered in the registry.
    Registering(u32),
    /// The temporary file is being removed.
    RemovingTemp(UploadFailure),
    /// The file under its final name is being removed.
    RemovingFinal(UploadFailure),
    /// The upload has been accepted.
    Accepted(u32),
    /// The upload has been refused.
    Refused(UploadFailure),
}

/// The outcome of an action.
#[derive(Debug)]
pub enum UploadEvent {
    /// It is done. A file that was to be removed is not there.
    Done,
    /// The model loads, with an input of this side length.
    Loaded(u32),
    /// The model does not load.
    Rejected(ActivateError),
    /// The action failed, with a detail.
    Failed(String),
}

/// What is to be done next.
pub enum UploadAction {
    /// Make the directory for models.
    MakeDir,
    /// Write the file under its temporary name.
    WriteTemp,
    /// Try the model in the temporary file.
    Validate,
    /// Move the file to its final name.
    Rename,
    /// Enter the model in the registry, with this side length.
    Register(u32),
    /// Remove the temporary file.
    RemoveTemp,
    /// Remove the file under its final name.
    RemoveFinal,
    /// Answer: with the accepted model, or with a refusal.
    Answer(Result<u32, Reply>),
}

/// An action, by what it says.
pub enum DueAction {
    MakeDir,
    WriteTemp,
    Validate,
    Rename,
    Register(u32),
    RemoveTemp,
    RemoveFinal,
    Accept(u32),
    Refuse(u16, Seq<char>),
}

/// Status and message of a refusal.
pub open spec fn refusal_of(f: UploadFailure) -> (u16, Seq<char>) {
    match f {
        UploadFailure::Cut(step, detail) => (
            step_failure(step).0,
            step_failure(step).1 + detail@,
        ),
        UploadFailure::Rejected(e) => (400, "model failed validation: "@ + reason(e)),
    }
}

/// The action that is under way in a state.
pub open spec fn action_in(state: UploadState) -> DueAction {
    match state {
        UploadState::MakingDir => DueAction::MakeDir,
        UploadState::Writing => DueAction::WriteTemp,
        UploadState::Validating => DueAction::Validate,
        UploadState::Renaming(_) => DueAction::Rename,
        UploadState::Registering(input) => DueAction::Register(input),
        UploadState::RemovingTemp(_) => DueAction::RemoveTemp,
        UploadState::RemovingFinal(_) => DueAction::RemoveFinal,
        UploadState::Accepted(input) => DueAction::Accept(input),
        UploadState::Refused(f) => DueAction::Refuse(refusal_of(f).0, refusal_of(f).1),
    }
}

/// Whether an action is the one that is due.
pub open spec fn is_action(action: UploadAction, due: DueAction) -> bool {
    match due {
        DueAction::MakeDir => action is MakeDir,
        DueAction::WriteTemp => action is WriteTemp,
        DueAction::Validate => action is Validate,
        DueAction::Rename => action is Rename,
        DueAction::Register(input) => action == UploadAction::Register(input),
        DueAction::RemoveTemp => action is RemoveTemp,
        DueAction::RemoveFinal => action is RemoveFinal,
        DueAction::Accept(input) => action == UploadAction::Answer(Ok(input)),
        DueAction::Refuse(status, message) => action matches UploadAction::Answer(Err(r))
            && is_error(r, status, message),
    }
}

/// Where an upload stands after the outcome of its action. What is no outcome
/// of the action that is under way changes nothing.
pub open spec fn next_upload_state(state: UploadState, event: UploadEvent) -> UploadState {
    match (state, event) {
        (UploadState::MakingDir, UploadEvent::Done) => UploadState::Writing,
        (UploadState::MakingDir, UploadEvent::Failed(e)) => UploadState::Refused(
            UploadFailure::Cut(UploadStep::MakeDir, e),
        ),
        (UploadState::Writing, UploadEvent::Done) => UploadState::Validating,
        (UploadState::Writing, UploadEvent::Failed(e)) => UploadState::RemovingTemp(
            UploadFailure::Cut(UploadStep::Write, e),
        ),
        (UploadState::Validating, UploadEvent::Loaded(input)) => UploadState::Renaming(input),
        (UploadState::Validating, UploadEvent::Rejected(e)) => UploadState::RemovingTemp(
            UploadFailure::Rejected(e),
        ),
        (UploadState::Validating, UploadEvent::Failed(e)) => UploadState::RemovingTemp(
            UploadFailure::Cut(UploadStep::Validate, e),
        ),
        (UploadState::Renaming(input), UploadEvent::Done) => UploadState::Registering(input),
        (UploadState::Renaming(_), UploadEvent::Failed(e)) => UploadState::RemovingTemp(
            UploadFailure::Cut(UploadStep::Rename, e),
        ),
        (UploadState::Registering(input), UploadEvent::Done) => UploadState::Accepted(input),
        (UploadState::Registering(_), UploadEvent::Failed(e)) => UploadState::RemovingFinal(
            UploadFailure::Cut(UploadStep::Register, e),
        ),
        (UploadState::RemovingTemp(f), UploadEvent::Done) => UploadState::Refused(f),
        (UploadState::RemovingTemp(f), UploadEvent::Failed(_)) => UploadState::Refused(f),
        (UploadState::RemovingFinal(f), UploadEvent::Done) => UploadState::Refused(f),
        (UploadState::RemovingFinal(f), UploadEvent::Failed(_)) => UploadState::Refused(f),
        (state, _) => state,
    }
}

/// What is to be done after the outcome of an action.
pub open spec fn upload_action(state: UploadState, event: UploadEvent) -> DueAction {
    action_in(next_upload_state(state, event))
}

/// Answers an upload that is refused.
pub fn refuse_upload(f: &UploadFailure) -> (r: Reply)
    ensures
        is_error(r, refusal_of(*f).0, refusal_of(*f).1),
{
    match f {
        UploadFailure::Cut(step, detail) => upload_failed(*step, detail.as_str()),
        UploadFailure::Rejected(e) => model_rejected(e),
    }
}

/// Begins an upload whose form is in order.
pub fn begin_upload() -> (r: (UploadState, UploadAction))
    ensures
        r.0 is MakingDir,
        is_action(r.1, action_in(r.0)),
{
    (UploadState::MakingDir, UploadAction::MakeDir)
}

/// Takes in the outcome of an action, and gives the next one.
pub fn upload_step(state: UploadState, event: UploadEvent) -> (r: (UploadState, UploadAction))
    ensures
        r.0 == next_upload_state(state, event),
        is_action(r.1, upload_action(state, event)),
{
    let next = match (state, event) {
        (UploadState::MakingDir, UploadEvent::Done) => UploadState::Writing,
        (UploadState::MakingDir, UploadEvent::Failed(e)) => UploadState::Refused(
            UploadFailure::Cut(UploadStep::MakeDir, e),
        ),
        (UploadState::Writing, UploadEvent::Done) => UploadState::Validating,
        (UploadState::Writing, UploadEvent::Failed(e)) => UploadState::RemovingTemp(
            UploadFailure::Cut(UploadStep::Write, e),
        ),
        (UploadState::Validating, UploadEvent::Loaded(input)) => UploadState::Renaming(input),
        (UploadState::Validating, UploadEvent::Rejected(e)) => UploadState::RemovingTemp(
            UploadFailure::Rejected(e),
        ),
        (UploadState::Validating, UploadEvent::Failed(e)) => UploadState::RemovingTemp(
            UploadFailure::Cut(UploadStep::Validate, e),
        ),
        (UploadState::Renaming(input), UploadEvent::Done) => UploadState::Registering(input),
        (UploadState::Renaming(_), UploadEvent::Failed(e)) => UploadState::RemovingTemp(
            UploadFailure::Cut(UploadStep::Rename, e),
        ),
        (UploadState::Registering(input), UploadEvent::Done) => UploadState::Accepted(input),
        (UploadState::Registering(_), UploadEvent::Failed(e)) => UploadState::RemovingFinal(
            UploadFailure::Cut(UploadStep::Register, e),
        ),
        (UploadState::RemovingTemp(f), UploadEvent::Done) => UploadState::Refused(f),
        (UploadState::RemovingTemp(f), UploadEvent::Failed(_)) => UploadState::Refused(f),
        (UploadState::RemovingFinal(f), UploadEvent::Done) => UploadState::Refused(f),
        (UploadState::RemovingFinal(f), UploadEvent::Failed(_)) => UploadState::Refused(f),
        (state, _) => state,
    };
    let action = match &next {
        UploadState::MakingDir => UploadAction::MakeDir,
        UploadState::Writing => UploadAction::WriteTemp,
        UploadState::Validating => UploadAction::Validate,
        UploadState::Renaming(_) => UploadAction::Rename,
        UploadState::Registering(input) => UploadAction::Register(*input),
        UploadState::RemovingTemp(_) => UploadAction::RemoveTemp,
        UploadState::RemovingFinal(_) => UploadAction::RemoveFinal,
        UploadState::Accepted(input) => UploadAction::Answer(Ok(*input)),
        UploadState::Refused(f) => UploadAction::Answer(Err(refuse_upload(f))),
    };
    (next, action)
}

// ---------------------------------------------------------------------------
// Whole uploads
// ---------------------------------------------------------------------------

/// The files that an upload can leave behind.
pub enum UploadFile {
    Temp,
    Final,
}

/// Where an upload stands after the outcomes of its actions.
pub open spec fn state_after(events: Seq<UploadEvent>) -> UploadState
    decreases events.len(),
{
    if events.len() == 0 {
        UploadState::MakingDir
    } else {
        next_upload_state(state_after(events.drop_last()), events.last())
    }
}

/// The files of an upload after the outcome of the action that was under way.
/// A write that fails can leave part of the file; a move that fails leaves the
/// file where it was.
pub open spec fn with_outcome(
    files: Set<UploadFile>,
    state: UploadState,
    event: UploadEvent,
) -> Set<UploadFile> {
    match (state, event) {
        (UploadState::Writing, UploadEvent::Done) => files.insert(UploadFile::Temp),
        (UploadState::Writing, UploadEvent::Failed(_)) => files.insert(UploadFile::Temp),
        (UploadState::Renaming(_), UploadEvent::Done) => files.remove(UploadFile::Temp).insert(
            UploadFile::Final,
        ),
        (UploadState::RemovingTemp(_), UploadEvent::Done) => files.remove(UploadFile::Temp),
        (UploadState::RemovingFinal(_), UploadEvent::Done) => files.remove(UploadFile::Final),
        _ => files,
    }
}

/// The files of an upload after the outcomes of its actions.
pub open spec fn files_after(events: Seq<UploadEvent>) -> Set<UploadFile>
    decreases events.len(),
{
    if events.len() == 0 {
        Set::empty()
    } else {
        let before = events.drop_last();
        with_outcome(files_after(before), state_after(before), events.last())
    }
}

/// Whether the outcomes enter a model in the registry.
pub open spec fn is_registered(events: Seq<UploadEvent>) -> bool
    decreases events.len(),
{
    events.len() > 0 && (is_registered(events.drop_last()) || (state_after(
        events.drop_last(),
    ) is Registering && events.last() is Done))
}

/// The answer after the outcomes, where there is one.
pub open spec fn answer_after(events: Seq<UploadEvent>) -> Option<
    Result<u32, (u16, Seq<char>)>,
> {
    match state_after(events) {
        UploadState::Accepted(input) => Some(Ok(input)),
        UploadState::Refused(f) => Some(Err(refusal_of(f))),
        _ => None,
    }
}

/// Whether every file that was to be removed is gone.
pub open spec fn removals_work(events: Seq<UploadEvent>) -> bool
    decreases events.len(),
{
    events.len() == 0 || (removals_work(events.drop_last()) && !((state_after(
        events.drop_last(),
    ) is RemovingTemp || state_after(events.drop_last()) is RemovingFinal)
        && events.last() is Failed))
}

/// Whether a model with an input of this side length was tried and loaded.
pub open spec fn has_loaded(events: Seq<UploadEvent>, input: u32) -> bool
    decreases events.len(),
{
    events.len() > 0 && (has_loaded(events.drop_last(), input) || (state_after(
        events.drop_last(),
    ) is Validating && events.last() == UploadEvent::Loaded(input)))
}

/// The files that an upload has in a state.
spec fn files_in(state: UploadState) -> Set<UploadFile> {
    match state {
        UploadState::MakingDir | UploadState::Writing | UploadState::Refused(_) => Set::empty(),
        UploadState::Validating | UploadState::Renaming(_) | UploadState::RemovingTemp(_) => set![
            UploadFile::Temp,
        ],
        UploadState::Registering(_) | UploadState::RemovingFinal(_) | UploadState::Accepted(
            _,
        ) => set![UploadFile::Final],
    }
}

proof fn lemma_files(events: Seq<UploadEvent>)
    requires
        removals_work(events),
    ensures
        files_after(events) == files_in(state_after(events)),
    decreases events.len(),
{
    if events.len() > 0 {
        lemma_files(events.drop_last());
        assert(files_after(events) =~= files_in(state_after(events)));
    }
}

/// An upload that is refused leaves no file behind, whatever step failed, as
/// long as what is to be removed can be.
pub proof fn failed_uploads_leave_no_trace(events: Seq<UploadEvent>)
    requires
        removals_work(events),
    ensures
        answer_after(events) matches Some(Err(_)) ==> files_after(events) == Set::<
            UploadFile,
        >::empty(),
{
    lemma_files(events);
}

/// An upload that is accepted leaves its file under the final name, and no
/// other.
pub proof fn accepted_uploads_leave_one_file(events: Seq<UploadEvent>)
    requires
        removals_work(events),
    ensures
        answer_after(events) matches Some(Ok(_)) ==> files_after(events) == set![
            UploadFile::Final,
        ],
{
    lemma_files(events);
}

/// A model that was not tried, or did not load, is never entered in the
/// registry; an upload is accepted exactly where its model was entered, and
/// with the side length that was found in the trial.
pub proof fn only_validated_models_are_registered(events: Seq<UploadEvent>)
    ensures
        is_registered(events) <==> answer_after(events) matches Some(Ok(_)),
        is_registered(events) ==> exists|input: u32| #[trigger] has_loaded(events, input),
        answer_after(events) matches Some(Ok(input)) ==> has_loaded(events, input),
        state_after(events) matches UploadState::Registering(input) ==> has_loaded(events, input),
        state_after(events) matches UploadState::Renaming(input) ==> has_loaded(events, input),
    decreases events.len(),
{
    if events.len() > 0 {
        only_validated_models_are_registered(events.drop_last());
    }
    if let UploadState::Accepted(input) = state_after(events) {
        assert(has_loaded(events, input));
    }
}

/// An upload at which every action works is accepted, with the side length that
/// the model was found to have.
pub proof fn uploads_that_work_are_accepted(input: u32)
    ensures
        ({
            let a = next_upload_state(UploadState::MakingDir, UploadEvent::Done);
            let b = next_upload_state(a, UploadEvent::Done);
            let c = next_upload_state(b, UploadEvent::Loaded(input));
            let d = next_upload_state(c, UploadEvent::Done);
            let e = next_upload_state(d, UploadEvent::Done);
            &&& action_in(UploadState::MakingDir) is MakeDir
            &&& action_in(a) is WriteTemp
            &&& action_in(b) is Validate
            &&& action_in(c) is Rename
            &&& action_in(d) == DueAction::Register(input)
            &&& action_in(e) == DueAction::Accept(input)
        }),
{
}

/// An upload at which an action fails is refused with the detail, after the
/// file that is there by then has been removed, whether or not that works.
pub proof fn uploads_that_fail_are_refused(detail: String, e: ActivateError, input: u32, end: UploadEvent)
    requires
        end is Done || end is Failed,
    ensures
        upload_action(UploadState::MakingDir, UploadEvent::Failed(detail)) == DueAction::Refuse(
            500,
            "models dir: "@ + detail@,
        ),
        ({
            let cut = next_upload_state(UploadState::Writing, UploadEvent::Failed(detail));
            &&& action_in(cut) is RemoveTemp
            &&& upload_action(cut, end) == DueAction::Refuse(500, "write: "@ + detail@)
        }),
        ({
            let cut = next_upload_state(UploadState::Validating, UploadEvent::Failed(detail));
            &&& action_in(cut) is RemoveTemp
            &&& upload_action(cut, end) == DueAction::Refuse(
                500,
                "model validator task failed: "@ + detail@,
            )
        }),
        ({
            let cut = next_upload_state(UploadState::Validating, UploadEvent::Rejected(e));
            &&& action_in(cut) is RemoveTemp
            &&& upload_action(cut, end) == DueAction::Refuse(
                400,
                "model failed validation: "@ + reason(e),
            )
        }),
        ({
            let cut = next_upload_state(UploadState::Renaming(input), UploadEvent::Failed(detail));
            &&& action_in(cut) is RemoveTemp
            &&& upload_action(cut, end) == DueAction::Refuse(500, "rename: "@ + detail@)
        }),
        ({
            let cut = next_upload_state(
                UploadState::Registering(input),
                UploadEvent::Failed(detail),
            );
            &&& action_in(cut) is RemoveFinal
            &&& upload_action(cut, end) == DueAction::Refuse(
                500,
                "manifest write failed: "@ + detail@,
            )
        }),
{
}

/// An upload that has been answered stays as it is.
pub proof fn answered_uploads_stay(f: UploadFailure, input: u32, event: UploadEvent)
    ensures
        next_upload_state(UploadState::Accepted(input), event) == UploadState::Accepted(input),
        next_upload_state(UploadState::Refused(f), event) == UploadState::Refused(f),
{
}

} // verus!
