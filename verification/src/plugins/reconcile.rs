//! Recovery of plugin state before the application accepts plugin work.
//!
//! An installation first journals its pending activation and stages the new
//! product index, then publishes the activation to the registry, then
//! commits the projection. If the application stops in between, the next
//! reconciliation rolls the journal forward when the registry committed
//! exactly the journaled generation, and discards it when the registry never
//! did. It then drops the index records of generations whose retirement the
//! registry has begun.
//!
//! Reconciliation is a state machine: `reconcile_start` gives the first
//! action, and `reconcile_pending_at` takes the state and the outcome of the
//! last action (an event) to the next state and action, until the machine
//! finishes.
use vstd::prelude::*;
use crate::plugins::{grants_view, copy_grants, ActiveGeneration, InstalledPlugin, PendingActivation,
    PluginGrantKey, PluginIndex, ReleaseIdentity, RetiredGeneration, same_grants};
use crate::plugins::error::PluginError;
use crate::text::str_eq;

verus! {

/// Where a reconciliation stands.
#[derive(Debug)]
pub enum ReconcileState {
    /// Waiting for the journal of a pending activation.
    LoadingJournal,
    /// Waiting for the registry's active generation of the journaled release.
    CheckingActive(PendingActivation),
    /// Waiting for the journal and its staged index to be removed.
    DiscardingJournal,
    /// Waiting for the committed projection: the staged index moved into
    /// place, or the current index when none is staged.
    CommittingProjection(PendingActivation),
    /// Waiting for the grants to be stored, the context published and the
    /// journal removed.
    CommittingGrants,
    /// Waiting for the registry's pending retirements.
    ListingRetirements,
    /// Waiting for the current index, to drop retired records from it.
    LoadingIndex(Vec<RetiredGeneration>),
    /// Waiting for the index write, context publication and retirement
    /// finalization.
    Finalizing,
    /// Done, successfully or not.
    Finished,
}

/// The outcome of the last action.
#[derive(Debug)]
pub enum ReconcileEvent {
    /// The journal, if one exists.
    Journal(Option<PendingActivation>),
    /// The registry's active generation of the journaled release, if any.
    Active(Option<ActiveGeneration>),
    /// The journal and its staged index were removed.
    JournalDiscarded,
    /// The committed projection.
    Projection(PluginIndex),
    /// Grants stored, context published, journal removed.
    GrantsCommitted,
    /// The registry's pending retirements.
    Retirements(Vec<RetiredGeneration>),
    /// The current index.
    Index(PluginIndex),
    /// Index written (if asked), context published, retirements finalized
    /// and unreachable content collected.
    Finalized,
}

/// What the caller does next.
#[derive(Debug)]
pub enum ReconcileAction {
    /// Load the journal of a pending activation.
    LoadJournal,
    /// Ask the registry for the active generation of this release.
    QueryActive(ReleaseIdentity),
    /// Remove the journal and its staged index.
    DiscardJournal,
    /// Move the staged index into place (or load the current index when
    /// none is staged) and report it.
    CommitProjection,
    /// Store these grants, publish the context, remove the journal.
    CommitGrants(Vec<PluginGrantKey>),
    /// Ask the registry for its pending retirements.
    ListRetirements,
    /// Load the current index.
    LoadIndex,
    /// Write this index if given, publish the context, finalize the
    /// retirements and collect unreachable content.
    Finalize(Option<PluginIndex>),
    /// Reconciliation succeeded.
    Complete,
    /// Reconciliation failed with this error.
    Fail(PluginError),
}

/// `plugin` is the exact record that the journal `pending` commits.
pub open spec fn exact_record(plugin: InstalledPlugin, pending: PendingActivation) -> bool {
    &&& plugin.release@ == pending.target_release@
    &&& plugin.activation_generation == pending.target_generation
    &&& plugin.deployment_lock@ == pending.deployment_lock@
    &&& grants_view(plugin.grants@) == grants_view(pending.grants@)
}

/// The committed projection `index` carries the journaled record and has
/// seen its generation.
pub open spec fn projection_commits(index: PluginIndex, pending: PendingActivation) -> bool {
    &&& exists|i: int| 0 <= i < index.plugins@.len() && exact_record(index.plugins@[i], pending)
    &&& index.next_generation >= pending.target_generation
}

/// The registry's active generation is exactly the journaled one.
pub open spec fn exactly_active(active: ActiveGeneration, pending: PendingActivation) -> bool {
    active.root@ == pending.target_release@ && active.generation == pending.target_generation
}

/// `plugin` is the record of one of the retiring generations.
pub open spec fn retired(plugin: InstalledPlugin, retirements: Seq<RetiredGeneration>) -> bool {
    exists|k: int|
        0 <= k < retirements.len() && plugin.release@ == (#[trigger] retirements[k]).root@
            && plugin.activation_generation == retirements[k].generation
}

/// Records that are not of a retiring generation.
pub open spec fn unretired(retirements: Seq<RetiredGeneration>) -> spec_fn(InstalledPlugin) -> bool {
    |p: InstalledPlugin| !retired(p, retirements)
}

/// The next state is `Finished` and the action fails with `e`.
pub open spec fn fails_with(next: ReconcileState, act: ReconcileAction, e: PluginError) -> bool {
    next is Finished && act == ReconcileAction::Fail(e)
}

/// The step from `state` on `event` to `next` with action `act`.
pub open spec fn reconcile_transition(
    state: ReconcileState,
    event: ReconcileEvent,
    next: ReconcileState,
    act: ReconcileAction,
) -> bool {
    match (state, event) {
        (ReconcileState::LoadingJournal, ReconcileEvent::Journal(None)) => next is ListingRetirements
            && act is ListRetirements,
        (ReconcileState::LoadingJournal, ReconcileEvent::Journal(Some(p))) => next
            == ReconcileState::CheckingActive(p) && (act matches ReconcileAction::QueryActive(r)
            && r@ == p.target_release@),
        (ReconcileState::CheckingActive(_), ReconcileEvent::Active(None)) => next is DiscardingJournal
            && act is DiscardJournal,
        (ReconcileState::CheckingActive(p), ReconcileEvent::Active(Some(a))) => if exactly_active(
            a,
            p,
        ) {
            if p.staged_index_file@ == "installed.pending.json"@ {
                next == ReconcileState::CommittingProjection(p) && act is CommitProjection
            } else {
                fails_with(next, act, PluginError::UnexpectedStagedProjection)
            }
        } else if a.generation < p.target_generation {
            next is DiscardingJournal && act is DiscardJournal
        } else {
            fails_with(next, act, PluginError::NewerActivationActive(p.target_generation))
        },
        (ReconcileState::DiscardingJournal, ReconcileEvent::JournalDiscarded) => next is ListingRetirements
            && act is ListRetirements,
        (ReconcileState::CommittingProjection(p), ReconcileEvent::Projection(index)) => if projection_commits(
            index,
            p,
        ) {
            next is CommittingGrants && (act matches ReconcileAction::CommitGrants(g) && grants_view(
                g@,
            ) == grants_view(p.grants@))
        } else {
            fails_with(next, act, PluginError::ProjectionMismatch)
        },
        (ReconcileState::CommittingGrants, ReconcileEvent::GrantsCommitted) => next is ListingRetirements
            && act is ListRetirements,
        (ReconcileState::ListingRetirements, ReconcileEvent::Retirements(r)) => if r.len() == 0 {
            next is Finished && act is Complete
        } else {
            next == ReconcileState::LoadingIndex(r) && act is LoadIndex
        },
        (ReconcileState::LoadingIndex(r), ReconcileEvent::Index(index)) => {
            let kept = index.plugins@.filter(unretired(r@));
            &&& next is Finalizing
            &&& if kept.len() < index.plugins@.len() {
                act matches ReconcileAction::Finalize(Some(n)) && n.plugins@ == kept
                    && n.next_generation == index.next_generation
            } else {
                act matches ReconcileAction::Finalize(None)
            }
        },
        (ReconcileState::Finalizing, ReconcileEvent::Finalized) => next is Finished && act is Complete,
        _ => fails_with(next, act, PluginError::UnexpectedEvent),
    }
}

/// The first state and action of a reconciliation.
pub fn reconcile_start() -> (res: (ReconcileState, ReconcileAction))
    ensures
        res.0 is LoadingJournal,
        res.1 is LoadJournal,
{
    (ReconcileState::LoadingJournal, ReconcileAction::LoadJournal)
}

/// Whether `index` holds the exact record that `pending` journals.
fn holds_exact_record(index: &PluginIndex, pending: &PendingActivation) -> (res: bool)
    ensures
        res == exists|i: int| 0 <= i < index.plugins@.len() && exact_record(index.plugins@[i], *pending),
{
    let mut i: usize = 0;
    while i < index.plugins.len()
        invariant
            i <= index.plugins.len(),
            forall|k: int| 0 <= k < i ==> !exact_record(#[trigger] index.plugins@[k], *pending),
        decreases index.plugins.len() - i,
    {
        let plugin = &index.plugins[i];
        if plugin.release.same_release(&pending.target_release) && plugin.activation_generation
            == pending.target_generation && plugin.deployment_lock.same_lock(
            &pending.deployment_lock,
        ) && same_grants(&plugin.grants, &pending.grants) {
            assert(exact_record(index.plugins@[i as int], *pending));
            return true;
        }
        i = i + 1;
    }
    false
}

/// Whether `plugin` is the record of one of the retiring generations.
fn is_retired(plugin: &InstalledPlugin, retirements: &Vec<RetiredGeneration>) -> (res: bool)
    ensures
        res == retired(*plugin, retirements@),
{
    let mut k: usize = 0;
    while k < retirements.len()
        invariant
            k <= retirements.len(),
            forall|j: int|
                0 <= j < k ==> !(plugin.release@ == (#[trigger] retirements@[j]).root@
                    && plugin.activation_generation == retirements@[j].generation),
        decreases retirements.len() - k,
    {
        if plugin.release.same_release(&retirements[k].root) && plugin.activation_generation
            == retirements[k].generation {
            return true;
        }
        k = k + 1;
    }
    false
}

/// The records of `plugins` that are not of a retiring generation.
fn drop_retired(plugins: Vec<InstalledPlugin>, retirements: &Vec<RetiredGeneration>) -> (res: Vec<
    InstalledPlugin,
>)
    ensures
        res@ == plugins@.filter(unretired(retirements@)),
{
    let ghost pred = unretired(retirements@);
    let ghost orig = plugins@;
    let mut rest = plugins;
    let mut kept: Vec<InstalledPlugin> = Vec::new();
    let ghost mut n: int = 0;
    assert(orig.take(0) =~= Seq::<InstalledPlugin>::empty());
    assert(orig.skip(0) =~= orig);
    proof {
        reveal(Seq::filter);
    }
    while rest.len() > 0
        invariant
            0 <= n <= orig.len(),
            rest@ == orig.skip(n),
            kept@ == orig.take(n).filter(pred),
            pred == unretired(retirements@),
        decreases rest.len(),
    {
        let p = rest.remove(0);
        assert(orig.skip(n)[0] == p);
        assert(orig.skip(n).drop_first() =~= orig.skip(n + 1));
        assert(orig.take(n + 1).drop_last() =~= orig.take(n));
        assert(orig.take(n + 1).last() == p);
        proof {
            reveal(Seq::filter);
        }
        if !is_retired(&p, retirements) {
            kept.push(p);
        }
        proof {
            n = n + 1;
        }
        assert(kept@ =~= orig.take(n).filter(pred));
    }
    assert(orig.take(n) =~= orig);
    kept
}

/// One step of the reconciliation of pending installs: from the current
/// state and the outcome of the last action to the next state and action.
/// An event that does not answer the last action fails the
/// reconciliation.
pub fn reconcile_pending_at(state: ReconcileState, event: ReconcileEvent) -> (res: (
    ReconcileState,
    ReconcileAction,
))
    ensures
        reconcile_transition(state, event, res.0, res.1),
{
    match (state, event) {
        (ReconcileState::LoadingJournal, ReconcileEvent::Journal(None)) => {
            (ReconcileState::ListingRetirements, ReconcileAction::ListRetirements)
        },
        (ReconcileState::LoadingJournal, ReconcileEvent::Journal(Some(p))) => {
            let target = p.target_release.copy_release();
            (ReconcileState::CheckingActive(p), ReconcileAction::QueryActive(target))
        },
        (ReconcileState::CheckingActive(_), ReconcileEvent::Active(None)) => {
            (ReconcileState::DiscardingJournal, ReconcileAction::DiscardJournal)
        },
        (ReconcileState::CheckingActive(p), ReconcileEvent::Active(Some(a))) => {
            if a.root.same_release(&p.target_release) && a.generation == p.target_generation {
                if str_eq(p.staged_index_file.as_str(), "installed.pending.json") {
                    (ReconcileState::CommittingProjection(p), ReconcileAction::CommitProjection)
                } else {
                    (
                        ReconcileState::Finished,
                        ReconcileAction::Fail(PluginError::UnexpectedStagedProjection),
                    )
                }
            } else if a.generation < p.target_generation {
                (ReconcileState::DiscardingJournal, ReconcileAction::DiscardJournal)
            } else {
                (
                    ReconcileState::Finished,
                    ReconcileAction::Fail(PluginError::NewerActivationActive(p.target_generation)),
                )
            }
        },
        (ReconcileState::DiscardingJournal, ReconcileEvent::JournalDiscarded) => {
            (ReconcileState::ListingRetirements, ReconcileAction::ListRetirements)
        },
        (ReconcileState::CommittingProjection(p), ReconcileEvent::Projection(index)) => {
            if holds_exact_record(&index, &p) && index.next_generation >= p.target_generation {
                let grants = copy_grants(&p.grants);
                (ReconcileState::CommittingGrants, ReconcileAction::CommitGrants(grants))
            } else {
                (ReconcileState::Finished, ReconcileAction::Fail(PluginError::ProjectionMismatch))
            }
        },
        (ReconcileState::CommittingGrants, ReconcileEvent::GrantsCommitted) => {
            (ReconcileState::ListingRetirements, ReconcileAction::ListRetirements)
        },
        (ReconcileState::ListingRetirements, ReconcileEvent::Retirements(r)) => {
            if r.len() == 0 {
                (ReconcileState::Finished, ReconcileAction::Complete)
            } else {
                (ReconcileState::LoadingIndex(r), ReconcileAction::LoadIndex)
            }
        },
        (ReconcileState::LoadingIndex(r), ReconcileEvent::Index(index)) => {
            let previous_len = index.plugins.len();
            let next_generation = index.next_generation;
            let kept = drop_retired(index.plugins, &r);
            proof {
                index.plugins@.lemma_filter_len(unretired(r@));
            }
            if kept.len() != previous_len {
                (
                    ReconcileState::Finalizing,
                    ReconcileAction::Finalize(Some(PluginIndex { next_generation, plugins: kept })),
                )
            } else {
                (ReconcileState::Finalizing, ReconcileAction::Finalize(None))
            }
        },
        (ReconcileState::Finalizing, ReconcileEvent::Finalized) => {
            (ReconcileState::Finished, ReconcileAction::Complete)
        },
        _ => (ReconcileState::Finished, ReconcileAction::Fail(PluginError::UnexpectedEvent)),
    }
}

/// How many steps at most remain before the machine finishes.
pub open spec fn remaining_steps(s: ReconcileState) -> nat {
    match s {
        ReconcileState::LoadingJournal => 8,
        ReconcileState::CheckingActive(_) => 7,
        ReconcileState::CommittingProjection(_) => 6,
        ReconcileState::DiscardingJournal => 5,
        ReconcileState::CommittingGrants => 5,
        ReconcileState::ListingRetirements => 3,
        ReconcileState::LoadingIndex(_) => 2,
        ReconcileState::Finalizing => 1,
        ReconcileState::Finished => 0,
    }
}

/// Reconciliation always finishes: every step from an unfinished state
/// lowers the number of steps that remain, so at most eight events follow
/// the first action; the machine finishes exactly when it reports success
/// or failure, and it stays finished.
pub proof fn reconciliation_terminates(
    state: ReconcileState,
    event: ReconcileEvent,
    next: ReconcileState,
    act: ReconcileAction,
)
    requires
        reconcile_transition(state, event, next, act),
    ensures
        !(state is Finished) ==> remaining_steps(next) < remaining_steps(state),
        state is Finished ==> next is Finished,
        next is Finished <==> (act is Complete || act is Fail),
{
}

/// The grants of a journaled activation are committed only after the
/// registry reported exactly the journaled generation as active and the
/// committed projection carries the exact journaled record; the grants
/// committed are the journaled ones.
pub proof fn grants_committed_only_for_exact_activation(
    pending: PendingActivation,
    active: Option<ActiveGeneration>,
    mid: ReconcileState,
    first: ReconcileAction,
    event: ReconcileEvent,
    next: ReconcileState,
    act: ReconcileAction,
)
    requires
        reconcile_transition(
            ReconcileState::CheckingActive(pending),
            ReconcileEvent::Active(active),
            mid,
            first,
        ),
        reconcile_transition(mid, event, next, act),
        act is CommitGrants,
    ensures
        active matches Some(a) && exactly_active(a, pending),
        event matches ReconcileEvent::Projection(index) && projection_commits(index, pending),
        act matches ReconcileAction::CommitGrants(g) && grants_view(g@) == grants_view(
            pending.grants@,
        ),
{
}

/// A journal whose generation the registry committed exactly is rolled
/// forward: its projection is committed, and when that projection carries
/// the journaled record the journaled grants are committed.
pub proof fn registry_committed_journal_rolls_forward(
    pending: PendingActivation,
    active: ActiveGeneration,
    mid: ReconcileState,
    first: ReconcileAction,
    index: PluginIndex,
    next: ReconcileState,
    act: ReconcileAction,
)
    requires
        exactly_active(active, pending),
        pending.staged_index_file@ == "installed.pending.json"@,
        projection_commits(index, pending),
        reconcile_transition(
            ReconcileState::CheckingActive(pending),
            ReconcileEvent::Active(Some(active)),
            mid,
            first,
        ),
        reconcile_transition(mid, ReconcileEvent::Projection(index), next, act),
    ensures
        first is CommitProjection,
        act matches ReconcileAction::CommitGrants(g) && grants_view(g@) == grants_view(
            pending.grants@,
        ),
{
}

/// A journal that never reached a registry commit (the registry has no
/// active generation of its release, or only an older one) is discarded,
/// and reconciliation goes on with the retirements.
pub proof fn uncommitted_journal_is_discarded(
    pending: PendingActivation,
    active: Option<ActiveGeneration>,
    mid: ReconcileState,
    first: ReconcileAction,
    next: ReconcileState,
    act: ReconcileAction,
)
    requires
        active matches Some(a) ==> !exactly_active(a, pending) && a.generation
            < pending.target_generation,
        reconcile_transition(
            ReconcileState::CheckingActive(pending),
            ReconcileEvent::Active(active),
            mid,
            first,
        ),
        reconcile_transition(mid, ReconcileEvent::JournalDiscarded, next, act),
    ensures
        first is DiscardJournal,
        act is ListRetirements,
{
}

/// After reconciliation the index holds no record of a retiring
/// generation, keeps every other record in order, and is rewritten only
/// when a record was dropped.
pub proof fn retired_records_are_dropped(
    retirements: Vec<RetiredGeneration>,
    index: PluginIndex,
    next: ReconcileState,
    act: ReconcileAction,
)
    requires
        reconcile_transition(
            ReconcileState::LoadingIndex(retirements),
            ReconcileEvent::Index(index),
            next,
            act,
        ),
    ensures
        act matches ReconcileAction::Finalize(Some(n)) ==> (forall|i: int|
            0 <= i < n.plugins@.len() ==> !retired(#[trigger] n.plugins@[i], retirements@))
            && n.plugins@ == index.plugins@.filter(unretired(retirements@))
            && n.plugins@.len() < index.plugins@.len(),
        act matches ReconcileAction::Finalize(None) ==> forall|i: int|
            0 <= i < index.plugins@.len() ==> !retired(#[trigger] index.plugins@[i], retirements@),
{
    let pred = unretired(retirements@);
    let kept = index.plugins@.filter(pred);
    assert forall|i: int| 0 <= i < kept.len() implies !retired(#[trigger] kept[i], retirements@) by {
        index.plugins@.lemma_filter_pred(pred, i);
    }
    if kept.len() >= index.plugins@.len() {
        assert forall|i: int| 0 <= i < index.plugins@.len() implies !retired(
            #[trigger] index.plugins@[i],
            retirements@,
        ) by {
            lemma_full_filter_keeps_all(index.plugins@, pred, i);
        }
    }
}

/// The journal is settled before the retirements are listed: the machine
/// reaches them only when no journal was found, after the journal was
/// discarded, or after the journaled grants were committed (which removes
/// the journal); and it waits for a discard or a grant commit only after
/// asking for one.
pub proof fn retirements_follow_a_settled_journal(
    state: ReconcileState,
    event: ReconcileEvent,
    next: ReconcileState,
    act: ReconcileAction,
)
    requires
        reconcile_transition(state, event, next, act),
    ensures
        next is ListingRetirements ==> (state is LoadingJournal && event matches ReconcileEvent::Journal(
            None,
        )) || (state is DiscardingJournal && event is JournalDiscarded) || (state is CommittingGrants
            && event is GrantsCommitted),
        next is DiscardingJournal ==> act is DiscardJournal,
        next is CommittingGrants ==> act is CommitGrants,
{
}

/// Reconciling settled state changes nothing: when no journal is left and
/// the index holds no record of a retiring generation, as a successful
/// reconciliation leaves them, a second reconciliation completes without
/// discarding or committing a journal and without rewriting the index.
pub proof fn settled_state_reconciles_without_writes(
    retirements: Vec<RetiredGeneration>,
    index: PluginIndex,
    s1: ReconcileState,
    a1: ReconcileAction,
    s2: ReconcileState,
    a2: ReconcileAction,
    s3: ReconcileState,
    a3: ReconcileAction,
)
    requires
        forall|i: int|
            0 <= i < index.plugins@.len() ==> !retired(#[trigger] index.plugins@[i], retirements@),
        reconcile_transition(ReconcileState::LoadingJournal, ReconcileEvent::Journal(None), s1, a1),
        reconcile_transition(s1, ReconcileEvent::Retirements(retirements), s2, a2),
        retirements.len() > 0 ==> reconcile_transition(s2, ReconcileEvent::Index(index), s3, a3),
    ensures
        a1 is ListRetirements,
        retirements.len() == 0 ==> s2 is Finished && a2 is Complete,
        retirements.len() > 0 ==> a2 is LoadIndex && s3 is Finalizing && a3
            == ReconcileAction::Finalize(None),
{
    if retirements.len() > 0 {
        lemma_filter_keeps_passing(index.plugins@, unretired(retirements@));
    }
}

/// Reconciling twice writes nothing the second time: after a
/// reconciliation dropped the records of the retiring generations (leaving
/// `left`, the index it wrote or the one it kept), a second reconciliation
/// that finds no journal and is shown the same retirements, or some of
/// them, completes without discarding or committing a journal and without
/// rewriting the index.
pub proof fn reconciling_again_writes_nothing(
    retirements: Vec<RetiredGeneration>,
    index: PluginIndex,
    s_first: ReconcileState,
    first: ReconcileAction,
    left: PluginIndex,
    later: Vec<RetiredGeneration>,
    s1: ReconcileState,
    a1: ReconcileAction,
    s2: ReconcileState,
    a2: ReconcileAction,
    s3: ReconcileState,
    a3: ReconcileAction,
)
    requires
        reconcile_transition(
            ReconcileState::LoadingIndex(retirements),
            ReconcileEvent::Index(index),
            s_first,
            first,
        ),
        first matches ReconcileAction::Finalize(Some(n)) ==> left == n,
        first matches ReconcileAction::Finalize(None) ==> left == index,
        forall|k: int| 0 <= k < later@.len() ==> retirements@.contains(#[trigger] later@[k]),
        reconcile_transition(ReconcileState::LoadingJournal, ReconcileEvent::Journal(None), s1, a1),
        reconcile_transition(s1, ReconcileEvent::Retirements(later), s2, a2),
        later.len() > 0 ==> reconcile_transition(s2, ReconcileEvent::Index(left), s3, a3),
    ensures
        a1 is ListRetirements,
        later.len() == 0 ==> s2 is Finished && a2 is Complete,
        later.len() > 0 ==> a2 is LoadIndex && s3 is Finalizing && a3
            == ReconcileAction::Finalize(None),
{
    retired_records_are_dropped(retirements, index, s_first, first);
    assert forall|i: int| 0 <= i < left.plugins@.len() implies !retired(
        #[trigger] left.plugins@[i],
        later@,
    ) by {
        let p = left.plugins@[i];
        if retired(p, later@) {
            let k = choose|k: int|
                0 <= k < later@.len() && p.release@ == (#[trigger] later@[k]).root@
                    && p.activation_generation == later@[k].generation;
            assert(retirements@.contains(later@[k]));
            let j = choose|j: int| 0 <= j < retirements@.len() && retirements@[j] == later@[k];
            assert(retired(p, retirements@));
        }
    }
    settled_state_reconciles_without_writes(later, left, s1, a1, s2, a2, s3, a3);
}

/// A filter that every element passes keeps the sequence whole.
proof fn lemma_filter_keeps_passing<A>(s: Seq<A>, pred: spec_fn(A) -> bool)
    requires
        forall|i: int| 0 <= i < s.len() ==> pred(#[trigger] s[i]),
    ensures
        s.filter(pred) == s,
    decreases s.len(),
{
    reveal(Seq::filter);
    if s.len() > 0 {
        let sub = s.drop_last();
        assert forall|i: int| 0 <= i < sub.len() implies pred(#[trigger] sub[i]) by {
            assert(sub[i] == s[i]);
        }
        lemma_filter_keeps_passing(sub, pred);
        assert(pred(s[s.len() - 1]));
        assert(sub.push(s.last()) =~= s);
    }
}

/// A filter that keeps as many elements as it was given keeps every one.
proof fn lemma_full_filter_keeps_all<A>(s: Seq<A>, pred: spec_fn(A) -> bool, i: int)
    requires
        s.filter(pred).len() >= s.len(),
        0 <= i < s.len(),
    ensures
        pred(s[i]),
    decreases s.len(),
{
    reveal(Seq::filter);
    let sub = s.drop_last();
    sub.lemma_filter_len(pred);
    if !pred(s.last()) {
        assert(s.filter(pred) == sub.filter(pred));
    } else {
        assert(s.filter(pred) == sub.filter(pred).push(s.last()));
        if i < s.len() - 1 {
            assert(sub[i] == s[i]);
            lemma_full_filter_keeps_all(sub, pred, i);
        }
    }
}

} // verus!
