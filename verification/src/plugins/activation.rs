//! The installation protocol of a confirmed Component: the journal of the
//! pending activation is written first, then the staged index, and only then
//! is the activation published to the registry; a failed staging or
//! publication removes the journal again, and a publication is followed by
//! reconciliation.
//!
//! Like reconciliation, the protocol is a state machine: `begin_installation`
//! gives the first state and action, and `installation_step` takes the state
//! and the outcome of the last action to the next state and action.
use vstd::prelude::*;
use crate::plugins::{PendingActivation, PluginDeploymentLock, PluginGrantKey, PluginIndex,
    InstalledPlugin, ReleaseIdentity};
use crate::plugins::error::PluginError;
use crate::plugins::install::{installation_journal, journal_of, record_installation,
    records_installation};

verus! {

/// Where an installation stands.
#[derive(Debug)]
pub enum InstallState {
    /// The journal write was asked for; the staged index comes next.
    WritingJournal(InstalledPlugin, PluginIndex),
    /// The staged index write was asked for.
    StagingIndex(InstalledPlugin),
    /// Publication to the registry was asked for.
    Publishing(InstalledPlugin),
    /// After a failure, removal of the journal was asked for.
    DiscardingAfterFailure,
    /// Reconciliation of the published activation was asked for.
    Reconciling(InstalledPlugin),
    /// Done, successfully or not.
    Finished,
}

/// The outcome of the last action.
#[derive(Debug)]
pub enum InstallEvent {
    /// The journal was written.
    JournalWritten,
    /// The journal could not be written.
    JournalFailed,
    /// The staged index was written.
    StagedIndexWritten,
    /// The staged index could not be written.
    StagingFailed,
    /// The registry published the activation.
    Published,
    /// The registry refused or failed the publication.
    PublicationFailed,
    /// The journal and staged index were removed.
    JournalDiscarded,
    /// Reconciliation succeeded.
    Reconciled,
    /// Reconciliation failed.
    ReconciliationFailed,
}

/// What the caller does next.
#[derive(Debug)]
pub enum InstallAction {
    /// Write this journal of the pending activation.
    WriteJournal(PendingActivation),
    /// Write this staged index.
    WriteStagedIndex(PluginIndex),
    /// Publish the compiled activation with the approved grants.
    Publish,
    /// Remove the journal and the staged index.
    DiscardJournal,
    /// Reconcile pending installs.
    Reconcile,
    /// The installation succeeded with this record.
    Complete(InstalledPlugin),
    /// The installation failed with the error of its last step.
    FailWithError,
    /// The activation is committed but its reconciliation failed; the
    /// package and generation are reported with the reconciliation's error.
    FailReconciliationPending(String, u64),
    /// The installation failed with this error.
    Fail(PluginError),
}

/// The step from `state` on `event` to `next` with action `act`.
pub open spec fn install_transition(
    state: InstallState,
    event: InstallEvent,
    next: InstallState,
    act: InstallAction,
) -> bool {
    match (state, event) {
        (InstallState::WritingJournal(p, index), InstallEvent::JournalWritten) => next
            == InstallState::StagingIndex(p) && act == InstallAction::WriteStagedIndex(index),
        (InstallState::WritingJournal(_, _), InstallEvent::JournalFailed) => next is Finished
            && act is FailWithError,
        (InstallState::StagingIndex(p), InstallEvent::StagedIndexWritten) => next
            == InstallState::Publishing(p) && act is Publish,
        (InstallState::StagingIndex(_), InstallEvent::StagingFailed) => next is DiscardingAfterFailure
            && act is DiscardJournal,
        (InstallState::Publishing(p), InstallEvent::Published) => next == InstallState::Reconciling(p)
            && act is Reconcile,
        (InstallState::Publishing(_), InstallEvent::PublicationFailed) => next is DiscardingAfterFailure
            && act is DiscardJournal,
        (InstallState::DiscardingAfterFailure, InstallEvent::JournalDiscarded) => next is Finished
            && act is FailWithError,
        (InstallState::Reconciling(p), InstallEvent::Reconciled) => next is Finished && act
            == InstallAction::Complete(p),
        (InstallState::Reconciling(p), InstallEvent::ReconciliationFailed) => next is Finished && (
        act matches InstallAction::FailReconciliationPending(package, generation) && package@
            == p.release.package@ && generation == p.activation_generation),
        _ => next is Finished && act == InstallAction::Fail(PluginError::UnexpectedEvent),
    }
}

/// The record of a confirmed installation: the exact release, the triggers
/// of its root, the generation reserved for it, its deployment lock, the
/// approved grants and the host interfaces that needed consent; a freshly
/// installed Component is enabled.
pub open spec fn new_record(
    p: InstalledPlugin,
    release: ReleaseIdentity,
    triggers: Vec<String>,
    generation: u64,
    deployment_lock: PluginDeploymentLock,
    grants: Vec<PluginGrantKey>,
    root_host_interfaces: Vec<String>,
) -> bool {
    p == InstalledPlugin {
        release,
        triggers,
        enabled: true,
        activation_generation: generation,
        deployment_lock,
        grants,
        root_host_interfaces,
    }
}

/// Starts the installation of a confirmed Component: builds its enabled
/// record, the index that records it and the journal of its pending
/// activation, and asks for the journal to be written first.
pub fn begin_installation(
    index: PluginIndex,
    release: ReleaseIdentity,
    triggers: Vec<String>,
    generation: u64,
    deployment_lock: PluginDeploymentLock,
    grants: Vec<PluginGrantKey>,
    root_host_interfaces: Vec<String>,
) -> (res: (InstallState, InstallAction))
    ensures
        res.0 matches InstallState::WritingJournal(p, staged) && new_record(
            p,
            release,
            triggers,
            generation,
            deployment_lock,
            grants,
            root_host_interfaces,
        ) && exists|copy: InstalledPlugin|
            copy@ == p@ && records_installation(index, copy, staged),
        res.0 matches InstallState::WritingJournal(p, _) && (res.1 matches InstallAction::WriteJournal(
            j,
        ) && journal_of(j, p)),
{
    let installed = InstalledPlugin {
        release,
        triggers,
        enabled: true,
        activation_generation: generation,
        deployment_lock,
        grants,
        root_host_interfaces,
    };
    let copy = installed.copy_plugin();
    let staged = record_installation(index, copy);
    let journal = installation_journal(&installed);
    (InstallState::WritingJournal(installed, staged), InstallAction::WriteJournal(journal))
}

/// One step of the installation protocol: from the current state and the
/// outcome of the last action to the next state and action.
pub fn installation_step(state: InstallState, event: InstallEvent) -> (res: (
    InstallState,
    InstallAction,
))
    ensures
        install_transition(state, event, res.0, res.1),
{
    match (state, event) {
        (InstallState::WritingJournal(p, index), InstallEvent::JournalWritten) => {
            (InstallState::StagingIndex(p), InstallAction::WriteStagedIndex(index))
        },
        (InstallState::WritingJournal(_, _), InstallEvent::JournalFailed) => {
            (InstallState::Finished, InstallAction::FailWithError)
        },
        (InstallState::StagingIndex(p), InstallEvent::StagedIndexWritten) => {
            (InstallState::Publishing(p), InstallAction::Publish)
        },
        (InstallState::StagingIndex(_), InstallEvent::StagingFailed) => {
            (InstallState::DiscardingAfterFailure, InstallAction::DiscardJournal)
        },
        (InstallState::Publishing(p), InstallEvent::Published) => {
            (InstallState::Reconciling(p), InstallAction::Reconcile)
        },
        (InstallState::Publishing(_), InstallEvent::PublicationFailed) => {
            (InstallState::DiscardingAfterFailure, InstallAction::DiscardJournal)
        },
        (InstallState::DiscardingAfterFailure, InstallEvent::JournalDiscarded) => {
            (InstallState::Finished, InstallAction::FailWithError)
        },
        (InstallState::Reconciling(p), InstallEvent::Reconciled) => {
            (InstallState::Finished, InstallAction::Complete(p))
        },
        (InstallState::Reconciling(p), InstallEvent::ReconciliationFailed) => {
            let package = p.release.package.clone();
            let generation = p.activation_generation;
            (InstallState::Finished, InstallAction::FailReconciliationPending(package, generation))
        },
        _ => (InstallState::Finished, InstallAction::Fail(PluginError::UnexpectedEvent)),
    }
}

/// The journal precedes publication: publication is asked for only right
/// after the staged index was written, and the staged index only right
/// after the journal was written.
pub proof fn journal_precedes_publication(
    state: InstallState,
    event: InstallEvent,
    next: InstallState,
    act: InstallAction,
)
    requires
        install_transition(state, event, next, act),
    ensures
        act is Publish ==> state is StagingIndex && event is StagedIndexWritten,
        act is WriteStagedIndex ==> state is WritingJournal && event is JournalWritten,
{
}

/// A failed staging or publication leaves no journal: the journal's removal
/// is asked for at once, after which the installation only fails; it is
/// never published or completed.
pub proof fn failed_publication_leaves_no_journal(
    state: InstallState,
    event: InstallEvent,
    mid: InstallState,
    first: InstallAction,
    event2: InstallEvent,
    next: InstallState,
    act: InstallAction,
)
    requires
        (state is StagingIndex && event is StagingFailed) || (state is Publishing
            && event is PublicationFailed),
        install_transition(state, event, mid, first),
        install_transition(mid, event2, next, act),
    ensures
        first is DiscardJournal,
        next is Finished,
        !(act is Publish) && !(act is Complete),
{
}

/// An installation completes only after its activation was published and
/// reconciled, and it completes with the record it began with.
pub proof fn completion_follows_publication(
    p: InstalledPlugin,
    e1: InstallEvent,
    s1: InstallState,
    a1: InstallAction,
    e2: InstallEvent,
    s2: InstallState,
    a2: InstallAction,
)
    requires
        install_transition(InstallState::Publishing(p), e1, s1, a1),
        install_transition(s1, e2, s2, a2),
        a2 is Complete,
    ensures
        e1 is Published,
        e2 is Reconciled,
        a2 == InstallAction::Complete(p),
{
}

} // verus!
