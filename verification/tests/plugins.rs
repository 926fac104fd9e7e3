use mlmail::plugins::activation::{
    begin_installation, installation_step, InstallAction, InstallEvent, InstallState,
};
use mlmail::plugins::error::PluginError;
use mlmail::plugins::grants::approved_grants;
use mlmail::plugins::install::{
    check_preview, check_reviewed_release, installation_journal, record_installation,
    require_account, root_host_interfaces,
};
use mlmail::plugins::manage::{
    booking_messages, check_active_generation, check_stored_generation, current_account,
    dependencies_of, installed_projection, installed_projection_entry, plugin_manager_set_disabled,
    plugin_manager_uninstall,
};
use mlmail::plugins::paths::{
    deployment_lock_metadata, deployment_lock_path, deployment_lock_relative, index_path,
    oci_cache_path, pending_activation_path, plugin_root, staged_index_path,
};
use mlmail::plugins::reconcile::{
    reconcile_pending_at, reconcile_start, ReconcileAction, ReconcileEvent, ReconcileState,
};
use mlmail::plugins::{
    ActiveGeneration, CapabilityRequirement, GraphLifecycle, InstalledPlugin, PendingActivation,
    PluginDeploymentLock, PluginGrantDecisionDto, PluginGrantKey, PluginIndex,
    PluginInstallConfirmationDto, PluginInstallPreview, ProjectionInputs, ReleaseIdentity,
    RetiredGeneration, StoredGeneration,
};

const DIGEST_A: &str = "sha256:aaaaaaaaaaaaaaaaaaaaaaaaaaaaaaaaaaaaaaaaaaaaaaaaaaaaaaaaaaaaaaaa";

fn release(package: &str, version: &str, digest: &str) -> ReleaseIdentity {
    ReleaseIdentity { package: package.to_owned(), version: version.to_owned(), digest: digest.to_owned() }
}

fn test_deployment_lock() -> PluginDeploymentLock {
    PluginDeploymentLock {
        relative_path: "locks/test.n-plugin.lock".to_owned(),
        digest: DIGEST_A.to_owned(),
    }
}

fn grant(key: &str) -> PluginGrantKey {
    PluginGrantKey { key: key.to_owned() }
}

fn plugin(package: &str, generation: u64) -> InstalledPlugin {
    InstalledPlugin {
        release: release(package, "0.1.0", DIGEST_A),
        triggers: vec!["nitra:gmail/draft-helper@0.1.0".to_owned()],
        enabled: true,
        activation_generation: generation,
        deployment_lock: test_deployment_lock(),
        grants: Vec::new(),
        root_host_interfaces: Vec::new(),
    }
}

fn path(parts: &[&str]) -> Vec<String> {
    parts.iter().map(|p| p.to_string()).collect()
}

fn run(events: Vec<ReconcileEvent>) -> Vec<ReconcileAction> {
    let (mut state, first) = reconcile_start();
    let mut actions = vec![first];
    for event in events {
        let (next, action) = reconcile_pending_at(state, event);
        state = next;
        actions.push(action);
    }
    assert!(matches!(state, ReconcileState::Finished));
    actions
}

#[test]
fn discards_a_journal_that_never_reached_registry_commit() {
    let index = PluginIndex { next_generation: 1, plugins: vec![plugin("other:draft-helper", 1)] };
    let pending = PendingActivation {
        target_release: index.plugins[0].release.clone(),
        target_generation: 1,
        staged_index_file: "installed.pending.json".to_owned(),
        deployment_lock: test_deployment_lock(),
        grants: Vec::new(),
    };
    let actions = run(vec![
        ReconcileEvent::Journal(Some(pending)),
        ReconcileEvent::Active(None),
        ReconcileEvent::JournalDiscarded,
        ReconcileEvent::Retirements(Vec::new()),
    ]);
    assert!(matches!(actions[0], ReconcileAction::LoadJournal));
    assert!(matches!(&actions[1], ReconcileAction::QueryActive(r) if r.package == "other:draft-helper"));
    assert!(matches!(actions[2], ReconcileAction::DiscardJournal));
    assert!(matches!(actions[3], ReconcileAction::ListRetirements));
    assert!(matches!(actions[4], ReconcileAction::Complete));
}

#[test]
fn rolls_forward_a_registry_committed_pending_projection() {
    let mut installed = plugin("other:draft-helper", 1);
    installed.grants = vec![grant("draft")];
    let index = record_installation(PluginIndex::default(), installed.clone());
    let pending = installation_journal(&installed);
    assert_eq!(pending.staged_index_file, "installed.pending.json");
    let actions = run(vec![
        ReconcileEvent::Journal(Some(pending)),
        ReconcileEvent::Active(Some(ActiveGeneration { root: installed.release.clone(), generation: 1 })),
        ReconcileEvent::Projection(index),
        ReconcileEvent::GrantsCommitted,
        ReconcileEvent::Retirements(Vec::new()),
    ]);
    assert!(matches!(actions[2], ReconcileAction::CommitProjection));
    assert!(matches!(&actions[3], ReconcileAction::CommitGrants(g) if *g == vec![grant("draft")]));
    assert!(matches!(actions[5], ReconcileAction::Complete));
}

#[test]
fn journal_of_an_older_generation_is_discarded_and_newer_fails() {
    let installed = plugin("other:draft-helper", 5);
    let older = ActiveGeneration { root: installed.release.clone(), generation: 4 };
    let (s, a) = reconcile_pending_at(
        ReconcileState::CheckingActive(installation_journal(&installed)),
        ReconcileEvent::Active(Some(older)),
    );
    assert!(matches!(s, ReconcileState::DiscardingJournal));
    assert!(matches!(a, ReconcileAction::DiscardJournal));
    let newer = ActiveGeneration { root: release("x:y", "0.2.0", DIGEST_A), generation: 6 };
    let (s, a) = reconcile_pending_at(
        ReconcileState::CheckingActive(installation_journal(&installed)),
        ReconcileEvent::Active(Some(newer)),
    );
    assert!(matches!(s, ReconcileState::Finished));
    match a {
        ReconcileAction::Fail(e) => {
            assert_eq!(e, PluginError::NewerActivationActive(5));
            assert_eq!(
                e.message(),
                "a different newer activation is active while generation 5 remains pending"
            );
        }
        _ => panic!("expected a failure"),
    }
}

#[test]
fn staged_projection_must_match_the_journal() {
    let installed = plugin("other:draft-helper", 2);
    let mut journal = installation_journal(&installed);
    journal.staged_index_file = "elsewhere.json".to_owned();
    let (_, a) = reconcile_pending_at(
        ReconcileState::CheckingActive(journal),
        ReconcileEvent::Active(Some(ActiveGeneration { root: installed.release.clone(), generation: 2 })),
    );
    assert!(matches!(a, ReconcileAction::Fail(PluginError::UnexpectedStagedProjection)));
    let (_, a) = reconcile_pending_at(
        ReconcileState::CommittingProjection(installation_journal(&installed)),
        ReconcileEvent::Projection(PluginIndex { next_generation: 2, plugins: Vec::new() }),
    );
    assert!(matches!(a, ReconcileAction::Fail(PluginError::ProjectionMismatch)));
    let (_, a) = reconcile_pending_at(ReconcileState::Finished, ReconcileEvent::Finalized);
    assert!(matches!(a, ReconcileAction::Fail(PluginError::UnexpectedEvent)));
}

#[test]
fn retired_generations_leave_the_index() {
    let index = PluginIndex {
        next_generation: 3,
        plugins: vec![plugin("a:one", 1), plugin("b:two", 2), plugin("c:three", 3)],
    };
    let retirements = vec![RetiredGeneration { root: index.plugins[1].release.clone(), generation: 2 }];
    let (s, a) = reconcile_pending_at(ReconcileState::ListingRetirements, ReconcileEvent::Retirements(retirements));
    assert!(matches!(a, ReconcileAction::LoadIndex));
    let (s, a) = reconcile_pending_at(s, ReconcileEvent::Index(index.clone()));
    match a {
        ReconcileAction::Finalize(Some(written)) => {
            assert_eq!(written.next_generation, 3);
            assert_eq!(written.plugins, vec![index.plugins[0].clone(), index.plugins[2].clone()]);
        }
        _ => panic!("expected an index write"),
    }
    let (s, a) = reconcile_pending_at(s, ReconcileEvent::Finalized);
    assert!(matches!(s, ReconcileState::Finished));
    assert!(matches!(a, ReconcileAction::Complete));
    let other = vec![RetiredGeneration { root: index.plugins[1].release.clone(), generation: 9 }];
    let (s, _) = reconcile_pending_at(ReconcileState::ListingRetirements, ReconcileEvent::Retirements(other));
    let (_, a) = reconcile_pending_at(s, ReconcileEvent::Index(index));
    assert!(matches!(a, ReconcileAction::Finalize(None)));
}

#[test]
fn plugin_state_lives_under_the_plugin_root() {
    let app = path(&["/data", "app"]);
    assert_eq!(plugin_root(&app), path(&["/data", "app", "n-plugin"]));
    assert_eq!(oci_cache_path(&app), path(&["/data", "app", "n-plugin", "oci", "cache"]));
    assert_eq!(index_path(&app), path(&["/data", "app", "n-plugin", "installed.json"]));
    assert_eq!(staged_index_path(&app), path(&["/data", "app", "n-plugin", "installed.pending.json"]));
    assert_eq!(pending_activation_path(&app), path(&["/data", "app", "n-plugin", "pending-activation.json"]));
}

#[test]
fn deployment_lock_is_named_by_the_lower_case_digest() {
    let good = release("a:b", "0.1.0", DIGEST_A);
    let hex = &DIGEST_A["sha256:".len()..];
    assert_eq!(deployment_lock_relative(&good), Ok(format!("locks/{hex}.n-plugin.lock")));
    assert_eq!(
        deployment_lock_path(&path(&["d"]), &good),
        Ok(path(&["d", "n-plugin", &format!("locks/{hex}.n-plugin.lock")]))
    );
    assert_eq!(deployment_lock_relative(&release("a:b", "0.1.0", "sha256:pending")), Err(PluginError::DigestNotLowerHex));
    let upper = DIGEST_A.replace('a', "A").replace("shA", "sha");
    assert_eq!(deployment_lock_relative(&release("a:b", "0.1.0", &upper)), Err(PluginError::DigestNotLowerHex));
    assert_eq!(deployment_lock_relative(&release("a:b", "0.1.0", "md5:abc")), Err(PluginError::DigestNotSha256));
    assert_eq!(
        PluginError::DigestNotSha256.message(),
        "plugin release digest must use sha256"
    );
}

#[test]
fn deployment_lock_digest_is_the_sha256_of_the_lock_file() {
    let lock = deployment_lock_metadata(&release("a:b", "0.1.0", DIGEST_A), b"").unwrap();
    assert_eq!(lock.digest, "sha256:e3b0c44298fc1c149afbf4c8996fb92427ae41e4649b934ca495991b7852b855");
    let lock = deployment_lock_metadata(&release("a:b", "0.1.0", DIGEST_A), b"abc").unwrap();
    assert_eq!(lock.digest, "sha256:ba7816bf8f01cfea414140de5dae2223b00361a396177a9cb410ff61f20015ad");
}

fn preview(requirements: &[(&str, &str)]) -> PluginInstallPreview {
    PluginInstallPreview {
        preview_id: "preview-1".to_owned(),
        release: release("other:draft-helper", "0.1.0", DIGEST_A),
        compatible: true,
        reason: None,
        required_capabilities: requirements
            .iter()
            .map(|(id, key)| CapabilityRequirement { requirement_id: id.to_string(), grant: grant(key) })
            .collect(),
    }
}

fn decision(id: &str, allow: bool) -> PluginGrantDecisionDto {
    PluginGrantDecisionDto { requirement_id: id.to_owned(), allow }
}

#[test]
fn grant_decisions_must_answer_the_exact_preview() {
    let p = preview(&[("r2", "zeta"), ("r1", "alpha"), ("r3", "alpha")]);
    assert_eq!(
        approved_grants(&p, &vec![decision("r1", true), decision("r2", true), decision("r3", true)]),
        Ok(vec![grant("alpha"), grant("zeta")])
    );
    let dup = approved_grants(&p, &vec![decision("r1", true), decision("r2", false), decision("r1", true)]);
    assert_eq!(dup, Err(PluginError::DuplicateGrantDecision("r1".to_owned())));
    assert_eq!(dup.unwrap_err().message(), "duplicate grant decision `r1` requires a new preview");
    assert_eq!(
        approved_grants(&p, &vec![decision("r1", true), decision("r2", true)]),
        Err(PluginError::GrantDecisionsDiffer)
    );
    assert_eq!(
        approved_grants(&p, &vec![decision("r1", true), decision("r2", true), decision("r3", true), decision("r4", true)]),
        Err(PluginError::GrantDecisionsDiffer)
    );
    let denied = approved_grants(&p, &vec![decision("r3", false), decision("r2", true), decision("r1", false)]);
    assert_eq!(denied, Err(PluginError::CapabilityNotApproved("r1".to_owned())));
    assert_eq!(denied.unwrap_err().message(), "required capability `r1` was not approved");
    assert_eq!(approved_grants(&preview(&[]), &Vec::new()), Ok(Vec::new()));
}

fn confirmation(p: &PluginInstallPreview, decisions: Vec<PluginGrantDecisionDto>) -> PluginInstallConfirmationDto {
    PluginInstallConfirmationDto {
        path: "draft-helper.n-plugin".to_owned(),
        preview_id: p.preview_id.clone(),
        expected_release: p.release.clone(),
        grants: decisions,
    }
}

#[test]
fn confirmation_must_match_a_fresh_compatible_preview() {
    let p = preview(&[("r1", "draft")]);
    let ok = confirmation(&p, vec![decision("r1", true)]);
    assert_eq!(check_preview(&ok, &p.release, &p), Ok(vec![grant("draft")]));
    assert_eq!(check_reviewed_release(&p.release, &ok), Ok(()));
    let changed = release("other:draft-helper", "0.2.0", DIGEST_A);
    let e = check_reviewed_release(&changed, &ok).unwrap_err();
    assert!(e.message().contains("preview is stale"));

    let mut stale = ok.clone();
    stale.preview_id = "preview-0".to_owned();
    assert_eq!(check_preview(&stale, &p.release, &p), Err(PluginError::PreviewStale));
    let mut moved = ok.clone();
    moved.expected_release = changed.clone();
    assert_eq!(check_preview(&moved, &p.release, &p), Err(PluginError::ReleaseChangedAfterPreview));
    let mut incompatible = p.clone();
    incompatible.compatible = false;
    let e = check_preview(&ok, &p.release, &incompatible).unwrap_err();
    assert_eq!(
        e.message(),
        "plugin is incompatible with this mlmail release: installation preflight did not provide a reason"
    );
    incompatible.reason = Some("missing host".to_owned());
    assert_eq!(
        check_preview(&ok, &p.release, &incompatible),
        Err(PluginError::Incompatible(Some("missing host".to_owned())))
    );
    let denied = confirmation(&p, vec![decision("r1", false)]);
    assert_eq!(check_preview(&denied, &p.release, &p), Err(PluginError::CapabilityNotApproved("r1".to_owned())));
    assert_eq!(check_preview(&ok, &changed, &p), Err(PluginError::ReleaseChangedDuringPreflight));
}

#[test]
fn consent_needs_a_signed_in_account() {
    assert_eq!(require_account("person@example.com"), Ok(()));
    assert_eq!(require_account(" \t\n"), Err(PluginError::AccountRequired));
    assert_eq!(require_account(""), Err(PluginError::AccountRequired));
    assert_eq!(current_account(&Some("person@example.com".to_owned())), Ok("person@example.com".to_owned()));
    let e = current_account(&None).unwrap_err();
    assert_eq!(e.message(), "authenticate a mail account before plugin consent");
}

#[test]
fn installation_replaces_the_package_and_keeps_the_index_sorted() {
    let index = PluginIndex {
        next_generation: 7,
        plugins: vec![plugin("b:two", 2), plugin("d:four", 4), plugin("a:one", 1)],
    };
    let mut replacement = plugin("b:two", 5);
    replacement.release.version = "0.2.0".to_owned();
    let updated = record_installation(index, replacement.clone());
    let packages: Vec<&str> = updated.plugins.iter().map(|p| p.release.package.as_str()).collect();
    assert_eq!(packages, vec!["a:one", "b:two", "d:four"]);
    assert_eq!(updated.plugins[1], replacement);
    assert_eq!(updated.next_generation, 7);
    let newer = record_installation(updated, plugin("c:three", 9));
    assert_eq!(newer.next_generation, 9);
    assert_eq!(newer.plugins.len(), 4);
    assert_eq!(newer.plugins[2].release.package, "c:three");
}

#[test]
fn consent_interfaces_are_sorted_host_imports() {
    let imports = path(&["z:host/b", "wasi:io/x", "a:host/a", "z:host/b", "n:rt/clock"]);
    let hosts = path(&["a:host/a", "z:host/b", "n:rt/clock"]);
    let no_consent = path(&["n:rt/clock"]);
    assert_eq!(root_host_interfaces(&imports, &hosts, &no_consent), path(&["a:host/a", "z:host/b"]));
}

#[test]
fn disabling_and_uninstalling_need_the_exact_release() {
    let mut index = PluginIndex { next_generation: 2, plugins: vec![plugin("a:one", 1), plugin("b:two", 2)] };
    let target = index.plugins[1].release.clone();
    assert_eq!(plugin_manager_set_disabled(&mut index, &target, true), Ok(GraphLifecycle::ManuallyDisabled));
    assert!(!index.plugins[1].enabled && index.plugins[0].enabled);
    assert_eq!(plugin_manager_set_disabled(&mut index, &target, false), Ok(GraphLifecycle::Active));
    assert!(index.plugins[1].enabled);
    let wrong_digest = release(
        "b:two",
        "0.1.0",
        "sha256:ffffffffffffffffffffffffffffffffffffffffffffffffffffffffffffffff",
    );
    let before = index.clone();
    let e = plugin_manager_set_disabled(&mut index, &wrong_digest, true).unwrap_err();
    assert_eq!(
        e.message(),
        "exact plugin release `sha256:ffffffffffffffffffffffffffffffffffffffffffffffffffffffffffffffff` is not installed"
    );
    assert_eq!(index, before);
    assert_eq!(plugin_manager_uninstall(&mut index, &wrong_digest).unwrap_err(), PluginError::NotInstalled(wrong_digest.digest.clone()));
    let removed = plugin_manager_uninstall(&mut index, &target).unwrap();
    assert_eq!(removed.release, target);
    assert_eq!(index.plugins, vec![plugin("a:one", 1)]);
}

#[test]
fn projection_checks_the_registry_generation() {
    let p = plugin("a:one", 3);
    assert_eq!(check_stored_generation(&p, &p.release), Ok(()));
    let other = release("a:one", "0.9.0", DIGEST_A);
    let e = check_stored_generation(&p, &other).unwrap_err();
    assert_eq!(e.message(), "installed projection generation 3 belongs to another exact release");
    assert_eq!(
        check_active_generation(&p, &Some(ActiveGeneration { root: p.release.clone(), generation: 3 })),
        Ok(())
    );
    assert_eq!(
        check_active_generation(&p, &None),
        Err(PluginError::NoActiveGeneration(DIGEST_A.to_owned()))
    );
    assert_eq!(
        check_active_generation(&p, &Some(ActiveGeneration { root: p.release.clone(), generation: 4 })),
        Err(PluginError::ActiveGenerationMismatch(DIGEST_A.to_owned()))
    );
    let nodes = vec![p.release.clone(), other.clone(), release("c:dep", "1.0.0", DIGEST_A)];
    assert_eq!(dependencies_of(&nodes, &p.release), vec![other, release("c:dep", "1.0.0", DIGEST_A)]);
}

#[test]
fn booking_results_keep_ids_and_threads() {
    let found = vec![("m1".to_owned(), Some("t1".to_owned())), ("m2".to_owned(), None)];
    let messages = booking_messages(found);
    assert_eq!(messages.len(), 2);
    assert_eq!(messages[0].id, "m1");
    assert_eq!(messages[0].thread_id.as_deref(), Some("t1"));
    assert_eq!(messages[1].thread_id, None);
}

#[test]
fn installation_keeps_equal_packages_in_their_old_order() {
    let index = PluginIndex {
        next_generation: 3,
        plugins: vec![plugin("c:three", 1), plugin("a:one", 2), plugin("c:three", 3)],
    };
    let updated = record_installation(index, plugin("b:two", 4));
    let order: Vec<(&str, u64)> = updated
        .plugins
        .iter()
        .map(|p| (p.release.package.as_str(), p.activation_generation))
        .collect();
    assert_eq!(order, vec![("a:one", 2), ("b:two", 4), ("c:three", 1), ("c:three", 3)]);
    assert_eq!(updated.next_generation, 4);
}

fn stored(root: &ReleaseIdentity, deps: &[ReleaseIdentity]) -> StoredGeneration {
    let mut nodes = vec![root.clone()];
    nodes.extend(deps.iter().cloned());
    StoredGeneration { root: root.clone(), triggers: path(&["nitra:gmail/booking-finder@0.1.0"]), nodes }
}

#[test]
fn projection_shows_the_active_generation_of_each_record() {
    let p = plugin("a:one", 3);
    let dep = release("d:dep", "2.0.0", DIGEST_A);
    let s = stored(&p.release, &[dep.clone()]);
    let active = Some(ActiveGeneration { root: p.release.clone(), generation: 3 });
    let d = installed_projection_entry(
        &p,
        &s.root,
        &s.triggers,
        &s.nodes,
        &active,
        GraphLifecycle::Active,
        path(&["booking-finder"]),
    )
    .unwrap();
    assert_eq!(d.release, p.release);
    assert_eq!(d.triggers, path(&["nitra:gmail/booking-finder@0.1.0"]));
    assert_eq!(d.actions, path(&["booking-finder"]));
    assert!(d.enabled);
    assert_eq!(d.lifecycle, GraphLifecycle::Active);
    assert_eq!(d.activation_generation, 3);
    assert_eq!(d.dependencies, vec![dep]);
    assert_eq!(d.deployment_lock, p.deployment_lock);

    let other = release("a:one", "0.9.0", DIGEST_A);
    assert_eq!(
        installed_projection_entry(&p, &other, &s.triggers, &s.nodes, &active, GraphLifecycle::Active, Vec::new()),
        Err(PluginError::GenerationOfOtherRelease(3))
    );
    assert_eq!(
        installed_projection_entry(&p, &s.root, &s.triggers, &s.nodes, &None, GraphLifecycle::Active, Vec::new()),
        Err(PluginError::NoActiveGeneration(DIGEST_A.to_owned()))
    );
    let stale = Some(ActiveGeneration { root: p.release.clone(), generation: 2 });
    assert_eq!(
        installed_projection_entry(&p, &s.root, &s.triggers, &s.nodes, &stale, GraphLifecycle::Active, Vec::new()),
        Err(PluginError::ActiveGenerationMismatch(DIGEST_A.to_owned()))
    );
}

#[test]
fn projection_list_fails_on_the_first_unshowable_record() {
    let a = plugin("a:one", 1);
    let mut b = plugin("b:two", 2);
    b.enabled = false;
    let index = PluginIndex { next_generation: 3, plugins: vec![a.clone(), b.clone()] };
    let input = |p: &InstalledPlugin, generation: u64, lifecycle: GraphLifecycle| ProjectionInputs {
        stored: stored(&p.release, &[]),
        active: Some(ActiveGeneration { root: p.release.clone(), generation }),
        lifecycle,
        actions: Vec::new(),
    };
    let listed = installed_projection(
        &index,
        &vec![input(&a, 1, GraphLifecycle::Active), input(&b, 2, GraphLifecycle::ManuallyDisabled)],
    )
    .unwrap();
    assert_eq!(listed.len(), 2);
    assert_eq!(listed[0].release, a.release);
    assert_eq!(listed[1].release, b.release);
    assert!(!listed[1].enabled);
    assert_eq!(listed[1].lifecycle, GraphLifecycle::ManuallyDisabled);
    assert!(listed[1].dependencies.is_empty());

    let refused = installed_projection(
        &index,
        &vec![input(&a, 9, GraphLifecycle::Active), input(&b, 8, GraphLifecycle::Active)],
    );
    assert_eq!(refused, Err(PluginError::ActiveGenerationMismatch(DIGEST_A.to_owned())));
    assert_eq!(installed_projection(&PluginIndex::default(), &Vec::new()), Ok(Vec::new()));
}

fn begin() -> (InstallState, InstallAction) {
    let index = PluginIndex { next_generation: 2, plugins: vec![plugin("z:last", 1)] };
    let target = plugin("a:one", 5);
    begin_installation(
        index,
        target.release.clone(),
        target.triggers.clone(),
        5,
        test_deployment_lock(),
        vec![grant("g1")],
        path(&["a:host/a"]),
    )
}

#[test]
fn installation_journals_before_publishing_and_completes_enabled() {
    let (state, action) = begin();
    match &action {
        InstallAction::WriteJournal(journal) => {
            assert_eq!(journal.target_release.package, "a:one");
            assert_eq!(journal.target_generation, 5);
        }
        other => panic!("unexpected first action {other:?}"),
    }
    let (state, action) = installation_step(state, InstallEvent::JournalWritten);
    match &action {
        InstallAction::WriteStagedIndex(staged) => {
            let packages: Vec<&str> = staged.plugins.iter().map(|p| p.release.package.as_str()).collect();
            assert_eq!(packages, vec!["a:one", "z:last"]);
            assert_eq!(staged.next_generation, 5);
        }
        other => panic!("unexpected action {other:?}"),
    }
    let (state, action) = installation_step(state, InstallEvent::StagedIndexWritten);
    assert!(matches!(action, InstallAction::Publish));
    let (state, action) = installation_step(state, InstallEvent::Published);
    assert!(matches!(action, InstallAction::Reconcile));
    let (state, action) = installation_step(state, InstallEvent::Reconciled);
    assert!(matches!(state, InstallState::Finished));
    match action {
        InstallAction::Complete(installed) => {
            assert!(installed.enabled);
            assert_eq!(installed.activation_generation, 5);
            assert_eq!(installed.grants, vec![grant("g1")]);
            assert_eq!(installed.root_host_interfaces, path(&["a:host/a"]));
        }
        other => panic!("unexpected action {other:?}"),
    }
}

#[test]
fn failed_publication_discards_the_journal_and_fails() {
    let (state, _) = begin();
    let (state, _) = installation_step(state, InstallEvent::JournalWritten);
    let (state, _) = installation_step(state, InstallEvent::StagedIndexWritten);
    let (state, action) = installation_step(state, InstallEvent::PublicationFailed);
    assert!(matches!(action, InstallAction::DiscardJournal));
    let (state, action) = installation_step(state, InstallEvent::JournalDiscarded);
    assert!(matches!(state, InstallState::Finished));
    assert!(matches!(action, InstallAction::FailWithError));

    let (state, _) = begin();
    let (state, _) = installation_step(state, InstallEvent::JournalWritten);
    let (_, action) = installation_step(state, InstallEvent::StagingFailed);
    assert!(matches!(action, InstallAction::DiscardJournal));

    let (state, _) = begin();
    let (_, action) = installation_step(state, InstallEvent::JournalFailed);
    assert!(matches!(action, InstallAction::FailWithError));
}

#[test]
fn failed_reconciliation_names_the_committed_activation() {
    let (state, _) = begin();
    let (state, _) = installation_step(state, InstallEvent::JournalWritten);
    let (state, _) = installation_step(state, InstallEvent::StagedIndexWritten);
    let (state, _) = installation_step(state, InstallEvent::Published);
    let (_, action) = installation_step(state, InstallEvent::ReconciliationFailed);
    match action {
        InstallAction::FailReconciliationPending(package, generation) => {
            assert_eq!(package, "a:one");
            assert_eq!(generation, 5);
        }
        other => panic!("unexpected action {other:?}"),
    }
    let (state, _) = begin();
    let (_, action) = installation_step(state, InstallEvent::Published);
    assert!(matches!(action, InstallAction::Fail(PluginError::UnexpectedEvent)));
}

#[test]
fn decision_order_does_not_change_the_approved_grants() {
    let p = preview(&[("r2", "zeta"), ("r1", "alpha"), ("r3", "mid")]);
    let expected = Ok(vec![grant("alpha"), grant("mid"), grant("zeta")]);
    let orders = [["r1", "r2", "r3"], ["r3", "r1", "r2"], ["r2", "r3", "r1"]];
    for order in orders {
        let decisions: Vec<PluginGrantDecisionDto> = order.iter().map(|id| decision(id, true)).collect();
        assert_eq!(approved_grants(&p, &decisions), expected);
    }
    let short = [["r2", "r1"], ["r1", "r2"]];
    for order in short {
        let decisions: Vec<PluginGrantDecisionDto> = order.iter().map(|id| decision(id, true)).collect();
        assert_eq!(approved_grants(&p, &decisions), Err(PluginError::GrantDecisionsDiffer));
    }
}

#[test]
fn a_second_reconciliation_writes_nothing() {
    let actions = run(vec![ReconcileEvent::Journal(None), ReconcileEvent::Retirements(Vec::new())]);
    assert!(matches!(actions[1], ReconcileAction::ListRetirements));
    assert!(matches!(actions[2], ReconcileAction::Complete));

    let index = PluginIndex { next_generation: 3, plugins: vec![plugin("a:one", 1), plugin("c:three", 3)] };
    let retiring = vec![RetiredGeneration { root: release("b:two", "0.1.0", DIGEST_A), generation: 2 }];
    let actions = run(vec![
        ReconcileEvent::Journal(None),
        ReconcileEvent::Retirements(retiring),
        ReconcileEvent::Index(index),
        ReconcileEvent::Finalized,
    ]);
    assert!(matches!(actions[2], ReconcileAction::LoadIndex));
    assert!(matches!(actions[3], ReconcileAction::Finalize(None)));
    assert!(matches!(actions[4], ReconcileAction::Complete));
}

#[test]
fn reconciling_again_after_dropping_retired_records_writes_nothing() {
    let index = PluginIndex {
        next_generation: 3,
        plugins: vec![plugin("a:one", 1), plugin("b:two", 2), plugin("c:three", 3)],
    };
    let retiring = vec![RetiredGeneration { root: index.plugins[1].release.clone(), generation: 2 }];
    let (_, first) = reconcile_pending_at(ReconcileState::LoadingIndex(retiring.clone()), ReconcileEvent::Index(index));
    let left = match first {
        ReconcileAction::Finalize(Some(written)) => written,
        other => panic!("expected an index write, got {other:?}"),
    };
    let actions = run(vec![
        ReconcileEvent::Journal(None),
        ReconcileEvent::Retirements(retiring),
        ReconcileEvent::Index(left),
        ReconcileEvent::Finalized,
    ]);
    assert!(matches!(actions[3], ReconcileAction::Finalize(None)));
    assert!(matches!(actions[4], ReconcileAction::Complete));
}
