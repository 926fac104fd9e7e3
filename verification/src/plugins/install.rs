//! The decisions of confirming one previewed Component: which confirmations
//! are accepted, which host interfaces need consent, and how the product
//! index records the installed release.
use vstd::prelude::*;
use vstd::relations::sorted_by;
use crate::order::{TextKeyed, key_is, lemma_distinct_keys_filter, lemma_filter_commutes, lemma_filter_member,
    lemma_filter_push, lemma_filter_two, text_lt, by_key, key_texts, sort_by_key, sorted_distinct, strictly_increasing};
use crate::plugins::{copy_grants, grants_view, PendingActivation, strings_view, InstalledPlugin, PluginGrantKey, PluginIndex,
    PluginInstallConfirmationDto, PluginInstallPreview, ReleaseIdentity};
use crate::plugins::error::PluginError;
use crate::plugins::paths::staged_index_file_name;
use crate::plugins::reconcile::{exact_record, projection_commits};
use crate::plugins::grants::{approved_grants, approved_set, decisions_approve, grant_refusal};
use vstd::utf8::encode_utf8_decode_utf8;
use crate::text::{chars_of, is_white_space, white_space};

verus! {

/// `account_id` is empty or only whitespace (what `str::trim` removes).
pub open spec fn blank(account_id: Seq<char>) -> bool {
    forall|i: int| 0 <= i < account_id.len() ==> is_white_space(#[trigger] account_id[i])
}

/// Plugin consent is given for a signed-in mail account: a blank account
/// identifier is refused.
pub fn require_account(account_id: &str) -> (res: Result<(), PluginError>)
    ensures
        res is Ok <==> !blank(account_id@),
        res matches Err(e) ==> e == PluginError::AccountRequired,
{
    let chars = chars_of(account_id);
    let mut i: usize = 0;
    while i < chars.len()
        invariant
            i <= chars.len(),
            chars@ == account_id@,
            forall|j: int| 0 <= j < i ==> is_white_space(#[trigger] chars@[j]),
        decreases chars.len() - i,
    {
        if !white_space(chars[i]) {
            return Ok(());
        }
        i = i + 1;
    }
    Err(PluginError::AccountRequired)
}

/// The Component read for confirmation must still be the release the user
/// reviewed.
pub fn check_reviewed_release(embedded: &ReleaseIdentity, confirmation: &PluginInstallConfirmationDto) -> (res:
    Result<(), PluginError>)
    ensures
        res is Ok <==> embedded@ == confirmation.expected_release@,
        res matches Err(e) ==> e == PluginError::ReviewedReleaseChanged,
{
    if !embedded.same_release(&confirmation.expected_release) {
        return Err(PluginError::ReviewedReleaseChanged);
    }
    Ok(())
}

/// The checks of a fresh offline preview against the user's confirmation
/// pass, up to the grant decisions.
pub open spec fn preview_matches(
    confirmation: PluginInstallConfirmationDto,
    preview: PluginInstallPreview,
) -> bool {
    &&& preview.preview_id@ == confirmation.preview_id@
    &&& preview.release@ == confirmation.expected_release@
    &&& preview.compatible
}

/// Checks a fresh offline preview of the Component against the user's
/// confirmation: the preview identifier and release must be the ones the
/// user reviewed, the Component must be compatible, the decisions must
/// approve every required capability, and the Component read must be the
/// previewed release. Returns the approved grants.
pub fn check_preview(
    confirmation: &PluginInstallConfirmationDto,
    embedded: &ReleaseIdentity,
    preview: &PluginInstallPreview,
) -> (res: Result<Vec<PluginGrantKey>, PluginError>)
    ensures
        res is Ok <==> preview_matches(*confirmation, *preview) && decisions_approve(
            preview.required_capabilities@,
            confirmation.grants@,
        ) && embedded@ == preview.release@,
        res matches Ok(grants) ==> approved_set(preview.required_capabilities@, grants@),
        preview.preview_id@ != confirmation.preview_id@ ==> res == Err::<
            Vec<PluginGrantKey>,
            PluginError,
        >(PluginError::PreviewStale),
        preview.preview_id@ == confirmation.preview_id@ && preview.release@
            != confirmation.expected_release@ ==> res == Err::<Vec<PluginGrantKey>, PluginError>(
            PluginError::ReleaseChangedAfterPreview,
        ),
        preview.preview_id@ == confirmation.preview_id@ && preview.release@
            == confirmation.expected_release@ && !preview.compatible ==> (res matches Err(
            PluginError::Incompatible(reason),
        ) && reason == preview.reason),
        preview_matches(*confirmation, *preview) && !decisions_approve(
            preview.required_capabilities@,
            confirmation.grants@,
        ) ==> (res matches Err(e) && grant_refusal(
            preview.required_capabilities@,
            confirmation.grants@,
            e,
        )),
        preview_matches(*confirmation, *preview) && decisions_approve(
            preview.required_capabilities@,
            confirmation.grants@,
        ) && embedded@ != preview.release@ ==> res == Err::<Vec<PluginGrantKey>, PluginError>(
            PluginError::ReleaseChangedDuringPreflight,
        ),
        preview.preview_id@ == confirmation.preview_id@ && preview.release@
            == confirmation.expected_release@ && preview.compatible
            && preview.required_capabilities@.len() == 0 && confirmation.grants@.len() == 0
            && embedded@ == preview.release@ ==> (res matches Ok(grants) && grants@.len() == 0),
{
    proof {
        consent_free_previews_are_confirmed(*confirmation, *embedded, *preview);
    }
    if preview.preview_id != confirmation.preview_id {
        return Err(PluginError::PreviewStale);
    }
    if !preview.release.same_release(&confirmation.expected_release) {
        return Err(PluginError::ReleaseChangedAfterPreview);
    }
    if !preview.compatible {
        return Err(PluginError::Incompatible(preview.reason.clone()));
    }
    let grants = approved_grants(preview, &confirmation.grants)?;
    if !embedded.same_release(&preview.release) {
        return Err(PluginError::ReleaseChangedDuringPreflight);
    }
    Ok(grants)
}

/// A fresh compatible preview that requires no capabilities is confirmed by
/// a confirmation with its identifier and release and no decisions, for
/// the previewed release: the checks pass, and the only grant list they
/// can approve is empty.
pub proof fn consent_free_previews_are_confirmed(
    confirmation: PluginInstallConfirmationDto,
    embedded: ReleaseIdentity,
    preview: PluginInstallPreview,
)
    ensures
        preview.preview_id@ == confirmation.preview_id@ && preview.release@
            == confirmation.expected_release@ && preview.compatible
            && preview.required_capabilities@.len() == 0 && confirmation.grants@.len() == 0
            && embedded@ == preview.release@ ==> preview_matches(confirmation, preview)
            && decisions_approve(preview.required_capabilities@, confirmation.grants@),
        preview.required_capabilities@.len() == 0 ==> forall|grants: Seq<PluginGrantKey>|
            approved_set(preview.required_capabilities@, grants) ==> grants.len() == 0,
{
    let required = preview.required_capabilities@;
    if required.len() == 0 {
        assert(crate::plugins::grants::requirement_ids(required).to_set() =~= Set::<Seq<char>>::empty());
        assert(crate::plugins::grants::requirement_grants(required) =~= Seq::<PluginGrantKey>::empty());
        assert(key_texts(Seq::<PluginGrantKey>::empty()).to_set() =~= Set::<Seq<u8>>::empty());
        assert forall|grants: Seq<PluginGrantKey>| approved_set(required, grants) implies grants.len()
            == 0 by {
            if grants.len() > 0 {
                assert(key_texts(grants).to_set().contains(key_texts(grants)[0]));
            }
        }
        if confirmation.grants@.len() == 0 {
            assert(crate::plugins::grants::decision_ids(confirmation.grants@).to_set()
                =~= Set::<Seq<char>>::empty());
        }
    }
}

/// Whether `s` holds `x`.
fn listed(s: &Vec<String>, x: &String) -> (res: bool)
    ensures
        res == strings_view(s@).contains(x@),
{
    let mut i: usize = 0;
    while i < s.len()
        invariant
            i <= s.len(),
            forall|k: int| 0 <= k < i ==> strings_view(s@)[k] != x@,
        decreases s.len() - i,
    {
        if s[i] == *x {
            assert(strings_view(s@)[i as int] == x@);
            return true;
        }
        i = i + 1;
    }
    false
}

/// An import of the root Component that needs the user's consent: it is a
/// host interface of the activation plan and not a no-consent runtime
/// interface.
pub open spec fn consent_import(
    import: Seq<char>,
    host_interfaces: Seq<Seq<char>>,
    no_consent: Seq<Seq<char>>,
) -> bool {
    host_interfaces.contains(import) && !no_consent.contains(import)
}

/// The host interfaces imported directly by the root Component that need
/// consent, sorted and without repeats.
pub fn root_host_interfaces(
    imports: &Vec<String>,
    host_interfaces: &Vec<String>,
    no_consent: &Vec<String>,
) -> (res: Vec<String>)
    ensures
        strictly_increasing(res@),
        key_texts(res@).to_set() == key_texts(
            imports@.filter(
                |i: String|
                    consent_import(i@, strings_view(host_interfaces@), strings_view(no_consent@)),
            ),
        ).to_set(),
{
    let ghost pred = |i: String|
        consent_import(i@, strings_view(host_interfaces@), strings_view(no_consent@));
    let mut kept: Vec<String> = Vec::new();
    assert(imports@.take(0) =~= Seq::<String>::empty());
    proof {
        reveal(Seq::filter);
    }
    for k in 0..imports.len()
        invariant
            kept@ == imports@.take(k as int).filter(pred),
            pred == (|i: String|
                consent_import(i@, strings_view(host_interfaces@), strings_view(no_consent@))),
    {
        let ghost before = kept@;
        assert(imports@.take(k + 1).drop_last() =~= imports@.take(k as int));
        proof {
            reveal(Seq::filter);
        }
        if listed(host_interfaces, &imports[k]) && !listed(no_consent, &imports[k]) {
            let c = imports[k].clone();
            kept.push(c);
            assert(kept@ =~= imports@.take(k + 1).filter(pred));
        } else {
            assert(kept@ =~= imports@.take(k + 1).filter(pred));
        }
    }
    assert(imports@.take(imports.len() as int) =~= imports@);
    sorted_distinct(kept)
}

/// Installed records of packages other than `package`.
pub open spec fn other_package(package: Seq<char>) -> spec_fn(InstalledPlugin) -> bool {
    |p: InstalledPlugin| p.release.package@ != package
}

/// The larger of two generations.
pub open spec fn max_generation(a: u64, b: u64) -> u64 {
    if a >= b {
        a
    } else {
        b
    }
}

/// `recorded` is `index` after recording `installed`: sorted by package,
/// holding the records of other packages and the installed one, records of
/// one package in their order, and the highest generation seen.
pub open spec fn records_installation(
    index: PluginIndex,
    installed: InstalledPlugin,
    recorded: PluginIndex,
) -> bool {
    let staged = index.plugins@.filter(other_package(installed.release.package@)).push(installed);
    &&& sorted_by(recorded.plugins@, by_key::<InstalledPlugin>())
    &&& recorded.plugins@.to_multiset() == staged.to_multiset()
    &&& forall|k: Seq<u8>| #[trigger] recorded.plugins@.filter(key_is::<InstalledPlugin>(k))
        == staged.filter(key_is::<InstalledPlugin>(k))
    &&& recorded.next_generation == max_generation(
        index.next_generation,
        installed.activation_generation,
    )
}

/// Records a confirmed installation in the product index: the new record
/// replaces any record of the same package, the records stay sorted by
/// package (records of one package keep their order), and the index
/// remembers the highest generation it has seen.
pub fn record_installation(index: PluginIndex, installed: InstalledPlugin) -> (res: PluginIndex)
    ensures
        records_installation(index, installed, res),
{
    let ghost pred = other_package(installed.release.package@);
    let ghost orig = index.plugins@;
    let mut rest = index.plugins;
    let mut kept: Vec<InstalledPlugin> = Vec::new();
    let ghost mut n: int = 0;
    assert(orig.take(0) =~= Seq::<InstalledPlugin>::empty());
    assert(orig.skip(0) =~= orig);
    proof {
        reveal(Seq::filter);
    }
    while rest.len() > 0
        invariant
            0 <= n <= orig.len(),
            rest@ == orig.skip(n),
            kept@ == orig.take(n).filter(pred),
            pred == other_package(installed.release.package@),
        decreases rest.len(),
    {
        let p = rest.remove(0);
        assert(orig.skip(n)[0] == p);
        assert(orig.skip(n).drop_first() =~= orig.skip(n + 1));
        assert(orig.take(n + 1).drop_last() =~= orig.take(n));
        assert(orig.take(n + 1).last() == p);
        proof {
            reveal(Seq::filter);
        }
        if p.release.package != installed.release.package {
            kept.push(p);
        }
        proof {
            n = n + 1;
        }
        assert(kept@ =~= orig.take(n).filter(pred));
    }
    assert(orig.take(n) =~= orig);
    let generation = installed.activation_generation;
    kept.push(installed);
    let plugins = sort_by_key(kept);
    let next_generation = if index.next_generation >= generation {
        index.next_generation
    } else {
        generation
    };
    PluginIndex { next_generation, plugins }
}

/// `journal` is the pending-activation journal of the installation of
/// `installed`.
pub open spec fn journal_of(journal: PendingActivation, installed: InstalledPlugin) -> bool {
    &&& journal.target_release@ == installed.release@
    &&& journal.target_generation == installed.activation_generation
    &&& journal.staged_index_file@ == "installed.pending.json"@
    &&& journal.deployment_lock@ == installed.deployment_lock@
    &&& grants_view(journal.grants@) == grants_view(installed.grants@)
}

/// The journal written before an installation is published: the exact
/// release and generation, the staged index file, the deployment lock and
/// the approved grants.
pub fn installation_journal(installed: &InstalledPlugin) -> (res: PendingActivation)
    ensures
        journal_of(res, *installed),
{
    PendingActivation {
        target_release: installed.release.copy_release(),
        target_generation: installed.activation_generation,
        staged_index_file: staged_index_file_name(),
        deployment_lock: installed.deployment_lock.copy_lock(),
        grants: copy_grants(&installed.grants),
    }
}

/// The index staged by an installation is a projection that reconciliation
/// accepts as committing that installation's journal: it carries the exact
/// journaled record and has seen its generation.
pub proof fn staged_index_commits_its_journal(
    index: PluginIndex,
    installed: InstalledPlugin,
    staged: PluginIndex,
    journal: PendingActivation,
)
    requires
        records_installation(index, installed, staged),
        journal_of(journal, installed),
    ensures
        projection_commits(staged, journal),
{
    broadcast use vstd::seq_lib::group_to_multiset_ensures;

    let kept = index.plugins@.filter(other_package(installed.release.package@));
    assert(kept.push(installed).to_multiset().contains(installed)) by {
        assert(kept.push(installed).contains(installed)) by {
            assert(kept.push(installed)[kept.len() as int] == installed);
        }
    }
    assert(staged.plugins@.contains(installed));
    let i = choose|i: int| 0 <= i < staged.plugins@.len() && staged.plugins@[i] == installed;
    assert(exact_record(staged.plugins@[i], journal));
}

/// The confirmation that the direct install gives on the user's behalf: it
/// accepts only Components that require no consent, and confirms the
/// preview as it stands with no grant decisions.
pub fn consent_free_confirmation(path: String, preview: &PluginInstallPreview) -> (res: Result<
    PluginInstallConfirmationDto,
    PluginError,
>)
    ensures
        res is Ok <==> preview.required_capabilities@.len() == 0,
        res matches Ok(c) ==> c.path == path && c.preview_id@ == preview.preview_id@
            && c.expected_release@ == preview.release@ && c.grants@.len() == 0,
        res matches Err(e) ==> e == PluginError::ConsentRequired,
{
    if preview.required_capabilities.len() != 0 {
        return Err(PluginError::ConsentRequired);
    }
    Ok(PluginInstallConfirmationDto {
        path,
        preview_id: preview.preview_id.clone(),
        expected_release: preview.release.copy_release(),
        grants: Vec::new(),
    })
}

/// What to do with the Gmail WKG lock under the plugin root.
#[derive(Debug, PartialEq, Eq)]
pub enum WkgLockStep {
    /// The installed lock is the shipped one; use it.
    UseInstalled,
    /// No readable lock is installed; write the shipped one.
    WriteShipped,
}

/// Decides on the installed Gmail WKG lock (`None` when it cannot be read):
/// an installed lock must be exactly the one this release ships.
pub fn wkg_lock_step(installed: Option<&str>, shipped: &str) -> (res: Result<WkgLockStep, PluginError>)
    ensures
        installed is None ==> res == Ok::<WkgLockStep, PluginError>(WkgLockStep::WriteShipped),
        installed matches Some(text) ==> (text@ == shipped@ ==> res == Ok::<WkgLockStep, PluginError>(
            WkgLockStep::UseInstalled,
        )) && (text@ != shipped@ ==> res == Err::<WkgLockStep, PluginError>(
            PluginError::WkgLockDiffers,
        )),
{
    match installed {
        None => Ok(WkgLockStep::WriteShipped),
        Some(text) => {
            if crate::text::str_eq(text, shipped) {
                Ok(WkgLockStep::UseInstalled)
            } else {
                Err(PluginError::WkgLockDiffers)
            }
        },
    }
}

/// Recording an installation replaces its package: the new index holds the
/// installed record, every record of that package in it is the installed
/// one, and every record of another package comes from the old index.
pub proof fn installation_replaces_its_package(
    index: PluginIndex,
    installed: InstalledPlugin,
    recorded: PluginIndex,
)
    requires
        records_installation(index, installed, recorded),
    ensures
        recorded.plugins@.contains(installed),
        forall|i: int|
            0 <= i < recorded.plugins@.len() && (#[trigger] recorded.plugins@[i]).release.package@
                == installed.release.package@ ==> recorded.plugins@[i] == installed,
        forall|i: int|
            0 <= i < recorded.plugins@.len() && (#[trigger] recorded.plugins@[i]).release.package@
                != installed.release.package@ ==> index.plugins@.contains(recorded.plugins@[i]),
{
    broadcast use vstd::seq_lib::group_to_multiset_ensures;

    let pred = other_package(installed.release.package@);
    let kept = index.plugins@.filter(pred);
    let staged = kept.push(installed);
    assert(staged[kept.len() as int] == installed);
    assert(staged.contains(installed));
    assert(staged.to_multiset().count(installed) > 0);
    assert(recorded.plugins@.to_multiset().count(installed) > 0);
    assert forall|i: int| 0 <= i < recorded.plugins@.len() implies (#[trigger] recorded.plugins@[i]
        == installed || (pred(recorded.plugins@[i]) && index.plugins@.contains(
        recorded.plugins@[i],
    ))) by {
        let x = recorded.plugins@[i];
        assert(recorded.plugins@.contains(x));
        assert(recorded.plugins@.to_multiset().count(x) > 0);
        assert(staged.to_multiset().count(x) > 0);
        assert(staged.contains(x));
        let k = choose|k: int| 0 <= k < staged.len() && staged[k] == x;
        if k < kept.len() {
            assert(kept[k] == x);
            index.plugins@.lemma_filter_pred(pred, k);
            assert(kept.contains(x));
            lemma_filter_member(index.plugins@, pred, x);
        }
    }
}


/// Recording an installation in an index whose packages are distinct gives
/// an index whose packages strictly increase: one record per package, in
/// ascending order.
pub proof fn installation_keeps_packages_strictly_sorted(
    index: PluginIndex,
    installed: InstalledPlugin,
    recorded: PluginIndex,
)
    requires
        records_installation(index, installed, recorded),
        key_texts(index.plugins@).no_duplicates(),
    ensures
        strictly_increasing(recorded.plugins@),
{
    let other = other_package(installed.release.package@);
    let old = index.plugins@;
    let kept = old.filter(other);
    let staged = kept.push(installed);
    let rec = recorded.plugins@;
    assert forall|i: int, j: int| 0 <= i < j < rec.len() implies text_lt(
        #[trigger] rec[i].key_text(),
        #[trigger] rec[j].key_text(),
    ) by {
        assert(by_key::<InstalledPlugin>()(rec[i], rec[j]));
        if rec[i].key_text() == rec[j].key_text() {
            let k = rec[i].key_text();
            let q = key_is::<InstalledPlugin>(k);
            lemma_filter_two(rec, q, i, j);
            assert(rec.filter(q) == staged.filter(q));
            lemma_filter_push(kept, installed, q);
            lemma_filter_commutes(old, other, q);
            lemma_distinct_keys_filter(old, k);
            old.filter(q).lemma_filter_len(other);
            if q(installed) {
                if kept.filter(q).len() > 0 {
                    kept.lemma_filter_pred(q, 0);
                    let x = kept.filter(q)[0];
                    assert(kept.filter(q).contains(x));
                    lemma_filter_member(kept, q, x);
                    let m = choose|m: int| 0 <= m < kept.len() && kept[m] == x;
                    old.lemma_filter_pred(other, m);
                    encode_utf8_decode_utf8(x.release.package@);
                    encode_utf8_decode_utf8(installed.release.package@);
                    assert(false);
                }
            }
        }
    }
}

} // verus!
