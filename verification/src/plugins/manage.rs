//! The Plugin Manager's decisions on installed records: who is asking,
//! enabling and disabling, uninstalling, and checking that a record still
//! matches the registry before it is shown.
use vstd::prelude::*;
use crate::plugins::{copy_strings, strings_view, ActiveGeneration, GraphLifecycle, InstalledPlugin,
    InstalledPluginDto, PluginBookingMessageDto, PluginIndex, ProjectionInputs, ReleaseIdentity};
use crate::plugins::error::PluginError;

verus! {

/// The signed-in account on whose behalf plugin consent is given; without
/// one, consent is refused.
pub fn current_account(email: &Option<String>) -> (res: Result<String, PluginError>)
    ensures
        email is None <==> res is Err,
        res matches Ok(account) ==> email == Some(account),
        res matches Err(e) ==> e == PluginError::AccountRequired,
{
    match email {
        Some(account) => Ok(account.clone()),
        None => Err(PluginError::AccountRequired),
    }
}

/// `i` is the first record of `plugins` with the exact release `target`.
pub open spec fn first_record(plugins: Seq<InstalledPlugin>, target: ReleaseIdentity, i: int) -> bool {
    &&& 0 <= i < plugins.len()
    &&& plugins[i].release@ == target@
    &&& forall|k: int| 0 <= k < i ==> (#[trigger] plugins[k]).release@ != target@
}

/// No record of `plugins` has the exact release `target`.
pub open spec fn not_installed(plugins: Seq<InstalledPlugin>, target: ReleaseIdentity) -> bool {
    forall|k: int| 0 <= k < plugins.len() ==> (#[trigger] plugins[k]).release@ != target@
}

/// The position of the first record with the exact release `target`.
fn position(plugins: &Vec<InstalledPlugin>, target: &ReleaseIdentity) -> (res: Option<usize>)
    ensures
        res matches Some(i) ==> first_record(plugins@, *target, i as int),
        res is None ==> not_installed(plugins@, *target),
{
    let mut i: usize = 0;
    while i < plugins.len()
        invariant
            i <= plugins.len(),
            forall|k: int| 0 <= k < i ==> (#[trigger] plugins@[k]).release@ != target@,
        decreases plugins.len() - i,
    {
        if plugins[i].release.same_release(target) {
            return Some(i);
        }
        i = i + 1;
    }
    None
}

/// The lifecycle that matches the user's choice.
pub open spec fn lifecycle_for(disabled: bool) -> GraphLifecycle {
    if disabled {
        GraphLifecycle::ManuallyDisabled
    } else {
        GraphLifecycle::Active
    }
}

/// Records the user's choice to disable or enable the exact installed
/// release `target`, without deleting its generation, and gives the graph
/// lifecycle the registry must record. An unknown release is refused and
/// leaves the index unchanged.
pub fn plugin_manager_set_disabled(index: &mut PluginIndex, target: &ReleaseIdentity, disabled: bool) -> (res:
    Result<GraphLifecycle, PluginError>)
    ensures
        res is Ok <==> !not_installed(old(index).plugins@, *target),
        res matches Ok(lifecycle) ==> lifecycle == lifecycle_for(disabled) && exists|i: int|
            first_record(old(index).plugins@, *target, i) && final(index).plugins@ == old(
                index,
            ).plugins@.update(i, InstalledPlugin { enabled: !disabled, ..old(index).plugins@[i] }),
        res matches Err(e) ==> e == PluginError::NotInstalled(target.digest) && *final(index) == *old(
            index,
        ),
        final(index).next_generation == old(index).next_generation,
{
    match position(&index.plugins, target) {
        None => Err(PluginError::NotInstalled(target.digest.clone())),
        Some(i) => {
            let mut plugin = index.plugins.remove(i);
            plugin.enabled = !disabled;
            index.plugins.insert(i, plugin);
            assert(index.plugins@ =~= old(index).plugins@.update(
                i as int,
                InstalledPlugin { enabled: !disabled, ..old(index).plugins@[i as int] },
            ));
            if disabled {
                Ok(GraphLifecycle::ManuallyDisabled)
            } else {
                Ok(GraphLifecycle::Active)
            }
        },
    }
}

/// Forgets the exact installed release `target` and returns its record,
/// whose generation the registry is then asked to retire. An unknown
/// release is refused and leaves the index unchanged.
pub fn plugin_manager_uninstall(index: &mut PluginIndex, target: &ReleaseIdentity) -> (res: Result<
    InstalledPlugin,
    PluginError,
>)
    ensures
        res is Ok <==> !not_installed(old(index).plugins@, *target),
        res matches Ok(plugin) ==> exists|i: int|
            first_record(old(index).plugins@, *target, i) && plugin == old(index).plugins@[i]
                && final(index).plugins@ == old(index).plugins@.remove(i),
        res matches Err(e) ==> e == PluginError::NotInstalled(target.digest) && *final(index) == *old(
            index,
        ),
        final(index).next_generation == old(index).next_generation,
{
    match position(&index.plugins, target) {
        None => Err(PluginError::NotInstalled(target.digest.clone())),
        Some(i) => Ok(index.plugins.remove(i)),
    }
}

/// The registry generation of an installed record must belong to the
/// record's release.
pub fn check_stored_generation(plugin: &InstalledPlugin, stored_root: &ReleaseIdentity) -> (res:
    Result<(), PluginError>)
    ensures
        res is Ok <==> stored_root@ == plugin.release@,
        res matches Err(e) ==> e == PluginError::GenerationOfOtherRelease(
            plugin.activation_generation,
        ),
{
    if !stored_root.same_release(&plugin.release) {
        return Err(PluginError::GenerationOfOtherRelease(plugin.activation_generation));
    }
    Ok(())
}

/// An installed record must be the registry's active generation of its
/// release.
pub fn check_active_generation(plugin: &InstalledPlugin, active: &Option<ActiveGeneration>) -> (res:
    Result<(), PluginError>)
    ensures
        res is Ok <==> (active matches Some(a) && a.root@ == plugin.release@ && a.generation
            == plugin.activation_generation),
        active is None ==> res == Err::<(), PluginError>(
            PluginError::NoActiveGeneration(plugin.release.digest),
        ),
        active is Some && res is Err ==> res == Err::<(), PluginError>(
            PluginError::ActiveGenerationMismatch(plugin.release.digest),
        ),
{
    match active {
        None => Err(PluginError::NoActiveGeneration(plugin.release.digest.clone())),
        Some(a) => {
            if !a.root.same_release(&plugin.release) || a.generation
                != plugin.activation_generation {
                return Err(PluginError::ActiveGenerationMismatch(plugin.release.digest.clone()));
            }
            Ok(())
        },
    }
}

/// The exact dependency releases of a generation: its nodes other than the
/// installed root.
pub fn dependencies_of(nodes: &Vec<ReleaseIdentity>, root: &ReleaseIdentity) -> (res: Vec<
    ReleaseIdentity,
>)
    ensures
        res@.map_values(|r: ReleaseIdentity| r@) == nodes@.filter(
            |n: ReleaseIdentity| n@ != root@,
        ).map_values(|r: ReleaseIdentity| r@),
{
    let ghost pred = |n: ReleaseIdentity| n@ != root@;
    let ghost f = |r: ReleaseIdentity| r@;
    let mut out: Vec<ReleaseIdentity> = Vec::new();
    assert(nodes@.take(0) =~= Seq::<ReleaseIdentity>::empty());
    proof {
        reveal(Seq::filter);
    }
    for k in 0..nodes.len()
        invariant
            out@.map_values(f) == nodes@.take(k as int).filter(pred).map_values(f),
            pred == (|n: ReleaseIdentity| n@ != root@),
            f == (|r: ReleaseIdentity| r@),
    {
        let ghost before = out@;
        assert(nodes@.take(k + 1).drop_last() =~= nodes@.take(k as int));
        proof {
            reveal(Seq::filter);
        }
        if !nodes[k].same_release(root) {
            let c = nodes[k].copy_release();
            out.push(c);
            assert(out@.map_values(f) =~= before.map_values(f).push(c@));
            assert(nodes@.take(k + 1).filter(pred) == nodes@.take(k as int).filter(pred).push(
                nodes@[k as int],
            ));
            assert(nodes@.take(k + 1).filter(pred).map_values(f) =~= nodes@.take(
                k as int,
            ).filter(pred).map_values(f).push(nodes@[k as int]@));
        } else {
            assert(nodes@.take(k + 1).filter(pred) == nodes@.take(k as int).filter(pred));
        }
    }
    assert(nodes@.take(nodes.len() as int) =~= nodes@);
    out
}

/// The Gmail message references returned by the Booking Finder, as the
/// command surface shows them: message identifier and optional thread.
pub fn booking_messages(found: Vec<(String, Option<String>)>) -> (res: Vec<PluginBookingMessageDto>)
    ensures
        res@.len() == found@.len(),
        forall|i: int|
            0 <= i < found@.len() ==> (#[trigger] res@[i]).id == found@[i].0 && res@[i].thread_id
                == found@[i].1,
{
    let ghost orig = found@;
    let mut rest = found;
    let mut out: Vec<PluginBookingMessageDto> = Vec::new();
    while rest.len() > 0
        invariant
            out@.len() + rest@.len() == orig.len(),
            rest@ == orig.skip(out@.len() as int),
            forall|i: int|
                0 <= i < out@.len() ==> (#[trigger] out@[i]).id == orig[i].0 && out@[i].thread_id
                    == orig[i].1,
        decreases rest.len(),
    {
        let ghost n = out@.len() as int;
        let (id, thread_id) = rest.remove(0);
        assert(orig.skip(n)[0] == orig[n]);
        assert(orig.skip(n).drop_first() =~= orig.skip(n + 1));
        out.push(PluginBookingMessageDto { id, thread_id });
    }
    out
}

/// Why an installed record cannot be shown, given the root release of its
/// stored generation and the active generation of its release; `None` when
/// it can.
pub open spec fn projection_refusal(
    plugin: InstalledPlugin,
    stored_root: ReleaseIdentity,
    active: Option<ActiveGeneration>,
) -> Option<PluginError> {
    if stored_root@ != plugin.release@ {
        Some(PluginError::GenerationOfOtherRelease(plugin.activation_generation))
    } else {
        match active {
            None => Some(PluginError::NoActiveGeneration(plugin.release.digest)),
            Some(a) => if a.root@ == plugin.release@ && a.generation == plugin.activation_generation {
                None
            } else {
                Some(PluginError::ActiveGenerationMismatch(plugin.release.digest))
            },
        }
    }
}

/// The releases of a sequence of identities.
pub open spec fn releases_view(v: Seq<ReleaseIdentity>) -> Seq<crate::plugins::ReleaseView> {
    v.map_values(|r: ReleaseIdentity| r@)
}

/// `d` shows `plugin` with the registry's stored triggers and nodes, the
/// graph lifecycle and the action kinds.
pub open spec fn projects(
    d: InstalledPluginDto,
    plugin: InstalledPlugin,
    stored_triggers: Seq<String>,
    stored_nodes: Seq<ReleaseIdentity>,
    lifecycle: GraphLifecycle,
    actions: Seq<String>,
) -> bool {
    &&& d.release@ == plugin.release@
    &&& d.enabled == plugin.enabled
    &&& d.activation_generation == plugin.activation_generation
    &&& d.deployment_lock@ == plugin.deployment_lock@
    &&& d.lifecycle == lifecycle
    &&& strings_view(d.triggers@) == strings_view(stored_triggers)
    &&& strings_view(d.actions@) == strings_view(actions)
    &&& releases_view(d.dependencies@) == releases_view(
        stored_nodes.filter(|n: ReleaseIdentity| n@ != plugin.release@),
    )
}

/// The projection of one installed record: its stored generation must
/// belong to its release and be the active generation of that release; the
/// projection shows the stored triggers, the graph's lifecycle, the action
/// kinds and the dependency releases (the nodes other than the root).
pub fn installed_projection_entry(
    plugin: &InstalledPlugin,
    stored_root: &ReleaseIdentity,
    stored_triggers: &Vec<String>,
    stored_nodes: &Vec<ReleaseIdentity>,
    active: &Option<ActiveGeneration>,
    lifecycle: GraphLifecycle,
    actions: Vec<String>,
) -> (res: Result<InstalledPluginDto, PluginError>)
    ensures
        res is Ok <==> projection_refusal(*plugin, *stored_root, *active) is None,
        res matches Err(e) ==> projection_refusal(*plugin, *stored_root, *active) == Some(e),
        res matches Ok(d) ==> projects(
            d,
            *plugin,
            stored_triggers@,
            stored_nodes@,
            lifecycle,
            actions@,
        ),
{
    check_stored_generation(plugin, stored_root)?;
    check_active_generation(plugin, active)?;
    let dependencies = dependencies_of(stored_nodes, &plugin.release);
    Ok(InstalledPluginDto {
        release: plugin.release.copy_release(),
        triggers: copy_strings(stored_triggers),
        actions,
        enabled: plugin.enabled,
        lifecycle,
        activation_generation: plugin.activation_generation,
        dependencies,
        deployment_lock: plugin.deployment_lock.copy_lock(),
    })
}

/// The projection of every installed record, in index order; the first
/// record that cannot be shown refuses the whole list. `inputs[i]` holds
/// what the registries report for the `i`-th record.
pub fn installed_projection(index: &PluginIndex, inputs: &Vec<ProjectionInputs>) -> (res: Result<
    Vec<InstalledPluginDto>,
    PluginError,
>)
    requires
        inputs.len() == index.plugins.len(),
    ensures
        res is Ok <==> forall|i: int|
            0 <= i < index.plugins@.len() ==> projection_refusal(
                #[trigger] index.plugins@[i],
                inputs@[i].stored.root,
                inputs@[i].active,
            ) is None,
        res matches Ok(v) ==> v@.len() == index.plugins@.len() && forall|i: int|
            0 <= i < v@.len() ==> projects(
                #[trigger] v@[i],
                index.plugins@[i],
                inputs@[i].stored.triggers@,
                inputs@[i].stored.nodes@,
                inputs@[i].lifecycle,
                inputs@[i].actions@,
            ),
        res matches Err(e) ==> exists|i: int|
            0 <= i < index.plugins@.len() && projection_refusal(
                #[trigger] index.plugins@[i],
                inputs@[i].stored.root,
                inputs@[i].active,
            ) == Some(e) && forall|k: int|
                0 <= k < i ==> projection_refusal(
                    #[trigger] index.plugins@[k],
                    inputs@[k].stored.root,
                    inputs@[k].active,
                ) is None,
{
    let mut out: Vec<InstalledPluginDto> = Vec::new();
    let mut i: usize = 0;
    while i < index.plugins.len()
        invariant
            i <= index.plugins.len(),
            inputs.len() == index.plugins.len(),
            out@.len() == i,
            forall|k: int|
                0 <= k < i ==> projection_refusal(
                    #[trigger] index.plugins@[k],
                    inputs@[k].stored.root,
                    inputs@[k].active,
                ) is None,
            forall|k: int|
                0 <= k < i ==> projects(
                    #[trigger] out@[k],
                    index.plugins@[k],
                    inputs@[k].stored.triggers@,
                    inputs@[k].stored.nodes@,
                    inputs@[k].lifecycle,
                    inputs@[k].actions@,
                ),
        decreases index.plugins.len() - i,
    {
        let input = &inputs[i];
        let actions = copy_strings(&input.actions);
        match installed_projection_entry(
            &index.plugins[i],
            &input.stored.root,
            &input.stored.triggers,
            &input.stored.nodes,
            &input.active,
            input.lifecycle,
            actions,
        ) {
            Err(e) => {
                return Err(e);
            },
            Ok(d) => {
                let ghost before = out@;
                out.push(d);
                assert forall|k: int| 0 <= k < i + 1 implies projects(
                    #[trigger] out@[k],
                    index.plugins@[k],
                    inputs@[k].stored.triggers@,
                    inputs@[k].stored.nodes@,
                    inputs@[k].lifecycle,
                    inputs@[k].actions@,
                ) by {
                    if k < i {
                        assert(out@[k] == before[k]);
                    }
                }
            },
        }
        i = i + 1;
    }
    Ok(out)
}

} // verus!
