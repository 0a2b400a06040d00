//! The installation pipeline: extraction, validation, installation, cleanup.
//!
//! The pipeline decides; a driver acts. The pipeline names the action that is
//! due, the driver carries it out and hands back an event that says how it
//! went. A failure of any stage aborts the installation, and the staging
//! location is cleaned up on every path.

use crate::store::StoreError;
use crate::validation::ValidationError;
use vstd::prelude::*;

verus! {

/// Why an artifact could not be unpacked.
#[derive(Clone, Copy, Debug, PartialEq, Eq)]
pub enum ExtractionError {
    /// The artifact is not an archive of the expected form.
    Malformed,
    /// The metadata subtree or the program subtree is absent.
    MissingSubtree,
    /// The artifact could not be read, or the staging location not written.
    Io,
}

/// Why a validated package could not be installed.
#[derive(Clone, Copy, Debug, PartialEq, Eq)]
pub enum InstallError {
    /// The program subtree could not be copied. What was copied stays.
    Io,
    /// The package could not be recorded. Nothing was committed.
    Metadata(StoreError),
}

/// Why an installation was aborted.
#[derive(Debug, PartialEq, Eq)]
pub enum AbortReason {
    Extraction(ExtractionError),
    Validation(ValidationError),
    Install(InstallError),
}

/// The state of an installation, as callers see it.
#[derive(Debug, PartialEq, Eq)]
pub enum PipelineState {
    /// Nothing was done yet.
    Created,
    /// The artifact is unpacked in the staging location.
    Extracted,
    /// The metadata passed every check.
    Validated,
    /// The files are in place and the package is recorded.
    Installed,
    /// The package is installed and the staging location is gone.
    CleanedUp,
    /// A stage failed.
    Aborted(AbortReason),
}

/// What the driver is to do.
#[derive(Clone, Copy, Debug, PartialEq, Eq)]
pub enum PipelineAction {
    /// Unpack the artifact into the staging location.
    Extract,
    /// Check the metadata against the store.
    Validate,
    /// Copy the program subtree to where it is installed.
    CopyProgram,
    /// Record the package in the store, in one transaction.
    RecordPackage,
    /// Remove the staging location.
    Cleanup,
    /// Nothing more: the installation is over.
    Finish,
}

/// How an action went.
#[derive(Debug, PartialEq, Eq)]
pub enum StageEvent {
    Extracted(Result<(), ExtractionError>),
    Validated(Result<(), ValidationError>),
    /// Whether every file of the program subtree was copied.
    Copied(bool),
    Recorded(Result<(), StoreError>),
    /// The staging location is gone, or was not there.
    CleanedUp,
}

/// What an installation is: its state, whether the files were copied, and
/// whether the staging location was cleaned up.
pub struct PipelineView {
    pub state: PipelineState,
    pub copied: bool,
    pub cleaned: bool,
}

/// An installation in progress.
#[derive(Debug, PartialEq, Eq)]
pub struct Pipeline {
    state: PipelineState,
    copied: bool,
    cleaned: bool,
}

impl View for Pipeline {
    type V = PipelineView;

    closed spec fn view(&self) -> PipelineView {
        PipelineView { state: self.state, copied: self.copied, cleaned: self.cleaned }
    }
}

/// An installation of which nothing was done yet.
pub open spec fn start() -> PipelineView {
    PipelineView { state: PipelineState::Created, copied: false, cleaned: false }
}

/// The action that is due.
pub open spec fn pending(p: PipelineView) -> PipelineAction {
    match p.state {
        PipelineState::Created => PipelineAction::Extract,
        PipelineState::Extracted => PipelineAction::Validate,
        PipelineState::Validated => if p.copied {
            PipelineAction::RecordPackage
        } else {
            PipelineAction::CopyProgram
        },
        PipelineState::Installed => PipelineAction::Cleanup,
        PipelineState::CleanedUp => PipelineAction::Finish,
        PipelineState::Aborted(_) => if p.cleaned {
            PipelineAction::Finish
        } else {
            PipelineAction::Cleanup
        },
    }
}

/// The event says how `action` went.
pub open spec fn answers(action: PipelineAction, event: StageEvent) -> bool {
    match (action, event) {
        (PipelineAction::Extract, StageEvent::Extracted(_)) => true,
        (PipelineAction::Validate, StageEvent::Validated(_)) => true,
        (PipelineAction::CopyProgram, StageEvent::Copied(_)) => true,
        (PipelineAction::RecordPackage, StageEvent::Recorded(_)) => true,
        (PipelineAction::Cleanup, StageEvent::CleanedUp) => true,
        _ => false,
    }
}

/// The event reports a success.
pub open spec fn went_well(event: StageEvent) -> bool {
    match event {
        StageEvent::Extracted(r) => r is Ok,
        StageEvent::Validated(r) => r is Ok,
        StageEvent::Copied(ok) => ok,
        StageEvent::Recorded(r) => r is Ok,
        StageEvent::CleanedUp => true,
    }
}

/// The installation aborted for `reason`. The cleanup is still due.
pub open spec fn aborted(p: PipelineView, reason: AbortReason) -> PipelineView {
    PipelineView { state: PipelineState::Aborted(reason), copied: p.copied, cleaned: false }
}

/// The installation after `event`. An event that does not answer the action
/// that is due changes nothing.
pub open spec fn after(p: PipelineView, event: StageEvent) -> PipelineView {
    if !answers(pending(p), event) {
        p
    } else {
        match event {
            StageEvent::Extracted(Ok(_)) => PipelineView { state: PipelineState::Extracted, ..p },
            StageEvent::Extracted(Err(e)) => aborted(p, AbortReason::Extraction(e)),
            StageEvent::Validated(Ok(_)) => PipelineView { state: PipelineState::Validated, ..p },
            StageEvent::Validated(Err(e)) => aborted(p, AbortReason::Validation(e)),
            StageEvent::Copied(ok) => if ok {
                PipelineView { copied: true, ..p }
            } else {
                aborted(p, AbortReason::Install(InstallError::Io))
            },
            StageEvent::Recorded(Ok(_)) => PipelineView { state: PipelineState::Installed, ..p },
            StageEvent::Recorded(Err(e)) => aborted(
                p,
                AbortReason::Install(InstallError::Metadata(e)),
            ),
            StageEvent::CleanedUp => match p.state {
                PipelineState::Installed => PipelineView { state: PipelineState::CleanedUp, cleaned: true, ..p },
                _ => PipelineView { cleaned: true, ..p },
            },
        }
    }
}

/// The installation after `events`, from the start.
pub open spec fn after_all(events: Seq<StageEvent>) -> PipelineView
    decreases events.len(),
{
    if events.len() == 0 {
        start()
    } else {
        after(after_all(events.drop_last()), events.last())
    }
}

/// In the run `events`, `action` was due at some point and an event answered
/// it; if `well` is set, the event reported a success.
pub open spec fn answered(events: Seq<StageEvent>, action: PipelineAction, well: bool) -> bool
    decreases events.len(),
{
    if events.len() == 0 {
        false
    } else {
        ||| answered(events.drop_last(), action, well)
        ||| {
            &&& pending(after_all(events.drop_last())) == action
            &&& answers(action, events.last())
            &&& well ==> went_well(events.last())
        }
    }
}

impl Pipeline {
    /// An installation of which nothing was done yet.
    pub fn new() -> (p: Pipeline)
        ensures
            p@ == start(),
    {
        Pipeline { state: PipelineState::Created, copied: false, cleaned: false }
    }

    /// The state of the installation.
    pub fn state(&self) -> (state: &PipelineState)
        ensures
            *state == self@.state,
    {
        &self.state
    }

    /// Gives the state up.
    pub fn into_state(self) -> (state: PipelineState)
        ensures
            state == self@.state,
    {
        self.state
    }

    /// The action that is due.
    pub fn action(&self) -> (action: PipelineAction)
        ensures
            action == pending(self@),
    {
        match &self.state {
            PipelineState::Created => PipelineAction::Extract,
            PipelineState::Extracted => PipelineAction::Validate,
            PipelineState::Validated => if self.copied {
                PipelineAction::RecordPackage
            } else {
                PipelineAction::CopyProgram
            },
            PipelineState::Installed => PipelineAction::Cleanup,
            PipelineState::CleanedUp => PipelineAction::Finish,
            PipelineState::Aborted(_) => if self.cleaned {
                PipelineAction::Finish
            } else {
                PipelineAction::Cleanup
            },
        }
    }

    /// Tells whether the installation is over.
    pub fn is_finished(&self) -> (finished: bool)
        ensures
            finished == (pending(self@) == PipelineAction::Finish),
    {
        match self.action() {
            PipelineAction::Finish => true,
            _ => false,
        }
    }

    /// Tells whether the package is installed: the files are in place and the
    /// package is recorded.
    pub fn is_installed(&self) -> (installed: bool)
        ensures
            installed == (self@.state is Installed || self@.state is CleanedUp),
    {
        match &self.state {
            PipelineState::Installed => true,
            PipelineState::CleanedUp => true,
            _ => false,
        }
    }

    /// Takes note of how the action that was due went.
    pub fn handle(self, event: StageEvent) -> (next: Pipeline)
        ensures
            next@ == after(self@, event),
    {
        let copied = self.copied;
        match (self.action(), event) {
            (PipelineAction::Extract, StageEvent::Extracted(r)) => match r {
                Ok(_) => Pipeline { state: PipelineState::Extracted, copied, cleaned: self.cleaned },
                Err(e) => Pipeline::abort(copied, AbortReason::Extraction(e)),
            },
            (PipelineAction::Validate, StageEvent::Validated(r)) => match r {
                Ok(_) => Pipeline { state: PipelineState::Validated, copied, cleaned: self.cleaned },
                Err(e) => Pipeline::abort(copied, AbortReason::Validation(e)),
            },
            (PipelineAction::CopyProgram, StageEvent::Copied(ok)) => if ok {
                Pipeline { state: self.state, copied: true, cleaned: self.cleaned }
            } else {
                Pipeline::abort(copied, AbortReason::Install(InstallError::Io))
            },
            (PipelineAction::RecordPackage, StageEvent::Recorded(r)) => match r {
                Ok(_) => Pipeline { state: PipelineState::Installed, copied, cleaned: self.cleaned },
                Err(e) => Pipeline::abort(copied, AbortReason::Install(InstallError::Metadata(e))),
            },
            (PipelineAction::Cleanup, StageEvent::CleanedUp) => match self.state {
                PipelineState::Installed => Pipeline {
                    state: PipelineState::CleanedUp,
                    copied,
                    cleaned: true,
                },
                state => Pipeline { state, copied, cleaned: true },
            },
            _ => self,
        }
    }

    /// An installation that aborted for `reason`.
    fn abort(copied: bool, reason: AbortReason) -> (p: Pipeline)
        ensures
            p@ == (PipelineView { state: PipelineState::Aborted(reason), copied, cleaned: false }),
    {
        Pipeline { state: PipelineState::Aborted(reason), copied, cleaned: false }
    }
}

/// What the run `events` must have held for the installation to be as `p` is.
spec fn trace_fits(events: Seq<StageEvent>, p: PipelineView) -> bool {
    let extracted = answered(events, PipelineAction::Extract, true);
    let validated = answered(events, PipelineAction::Validate, true);
    let copied = answered(events, PipelineAction::CopyProgram, true);
    let recorded = answered(events, PipelineAction::RecordPackage, true);
    let tried_validation = answered(events, PipelineAction::Validate, false);
    let tried_copy = answered(events, PipelineAction::CopyProgram, false);
    let tried_record = answered(events, PipelineAction::RecordPackage, false);
    let cleaned = answered(events, PipelineAction::Cleanup, false);
    &&& p.cleaned == cleaned
    &&& p.copied == copied
    &&& match p.state {
        PipelineState::Created => !answered(events, PipelineAction::Extract, false)
            && !tried_validation && !tried_copy && !tried_record && !cleaned,
        PipelineState::Extracted => extracted && !tried_validation && !tried_copy && !tried_record
            && !cleaned,
        PipelineState::Validated => extracted && validated && !tried_record && !cleaned && (
        tried_copy ==> copied),
        PipelineState::Installed => extracted && validated && copied && recorded && !cleaned,
        PipelineState::CleanedUp => extracted && validated && copied && recorded && cleaned,
        PipelineState::Aborted(reason) => match reason {
            AbortReason::Extraction(_) => !extracted && !tried_validation && !tried_copy
                && !tried_record,
            AbortReason::Validation(_) => extracted && !validated && !tried_copy && !tried_record,
            AbortReason::Install(InstallError::Io) => extracted && validated && !copied
                && !tried_record,
            AbortReason::Install(InstallError::Metadata(_)) => extracted && validated && copied
                && !recorded,
        },
    }
}

/// An action that went well was answered.
pub proof fn lemma_answered_well(events: Seq<StageEvent>, action: PipelineAction)
    ensures
        answered(events, action, true) ==> answered(events, action, false),
    decreases events.len(),
{
    if events.len() > 0 {
        lemma_answered_well(events.drop_last(), action);
    }
}

/// Every run fits the installation that it leads to.
proof fn lemma_trace_fits(events: Seq<StageEvent>)
    ensures
        trace_fits(events, after_all(events)),
    decreases events.len(),
{
    if events.len() > 0 {
        let before = events.drop_last();
        lemma_trace_fits(before);
        lemma_answered_well(before, PipelineAction::Extract);
        lemma_answered_well(before, PipelineAction::Validate);
        lemma_answered_well(before, PipelineAction::CopyProgram);
        lemma_answered_well(before, PipelineAction::RecordPackage);
        let p = after_all(before);
        let event = events.last();
        if answers(pending(p), event) {
            assert(trace_fits(events, after(p, event)));
        } else {
            assert(trace_fits(events, p));
        }
    }
}

/// Cleanup runs on every path: an installation is over only after the
/// staging location was cleaned up.
pub proof fn lemma_cleanup_on_every_path(events: Seq<StageEvent>)
    ensures
        pending(after_all(events)) == PipelineAction::Finish ==> answered(
            events,
            PipelineAction::Cleanup,
            false,
        ),
{
    lemma_trace_fits(events);
}

/// An installation that aborted in extraction or in validation never copied a
/// file and never touched the store.
pub proof fn lemma_abort_before_install_changes_nothing(events: Seq<StageEvent>)
    ensures
        after_all(events).state matches PipelineState::Aborted(reason) && !(reason is Install)
            ==> !answered(events, PipelineAction::CopyProgram, false) && !answered(
            events,
            PipelineAction::RecordPackage,
            false,
        ),
{
    lemma_trace_fits(events);
}

/// Files first, record second: the package is recorded only after the
/// metadata passed validation and every file was copied.
pub proof fn lemma_record_needs_copy(events: Seq<StageEvent>)
    ensures
        answered(events, PipelineAction::RecordPackage, false) ==> answered(
            events,
            PipelineAction::Validate,
            true,
        ) && answered(events, PipelineAction::CopyProgram, true),
        answered(events, PipelineAction::CopyProgram, false) ==> answered(
            events,
            PipelineAction::Extract,
            true,
        ) && answered(events, PipelineAction::Validate, true),
{
    lemma_trace_fits(events);
}

/// A package counts as installed only when its files were copied and its
/// record was committed.
pub proof fn lemma_installed_needs_both(events: Seq<StageEvent>)
    ensures
        after_all(events).state is Installed || after_all(events).state is CleanedUp ==> answered(
            events,
            PipelineAction::CopyProgram,
            true,
        ) && answered(events, PipelineAction::RecordPackage, true),
        after_all(events).state is CleanedUp ==> answered(events, PipelineAction::Cleanup, false),
{
    lemma_trace_fits(events);
}

/// Once an installation is over, no event changes it.
pub proof fn lemma_finished_stays(p: PipelineView, event: StageEvent)
    requires
        pending(p) == PipelineAction::Finish,
    ensures
        after(p, event) == p,
{
}

/// When every stage goes well the installation ends cleaned up, after five events.
pub proof fn lemma_success_path()
    ensures
        after_all(
            seq![
                StageEvent::Extracted(Ok(())),
                StageEvent::Validated(Ok(())),
                StageEvent::Copied(true),
                StageEvent::Recorded(Ok(())),
                StageEvent::CleanedUp,
            ],
        ) == (PipelineView { state: PipelineState::CleanedUp, copied: true, cleaned: true }),
{
    let e0 = StageEvent::Extracted(Ok(()));
    let e1 = StageEvent::Validated(Ok(()));
    let e2 = StageEvent::Copied(true);
    let e3 = StageEvent::Recorded(Ok(()));
    let e4 = StageEvent::CleanedUp;
    let s0 = Seq::<StageEvent>::empty();
    let s1 = seq![e0];
    let s2 = seq![e0, e1];
    let s3 = seq![e0, e1, e2];
    let s4 = seq![e0, e1, e2, e3];
    let s5 = seq![e0, e1, e2, e3, e4];
    assert(s1.drop_last() =~= s0);
    assert(s2.drop_last() =~= s1);
    assert(s3.drop_last() =~= s2);
    assert(s4.drop_last() =~= s3);
    assert(s5.drop_last() =~= s4);
    assert(after_all(s0) == start());
    assert(after_all(s1).state is Extracted);
    assert(after_all(s2).state is Validated);
    assert(after_all(s3).copied);
    assert(after_all(s4).state is Installed);
}

} // verus!
