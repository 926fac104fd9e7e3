//! The user's answers to the capability requirements of an installation
//! preview, and the grants they approve.
use vstd::prelude::*;
use vstd::utf8::encode_utf8;
use crate::order::{bytes_le, key_texts, lemma_increasing_keys_determined_by_set,
    lemma_text_le_antisymmetric, lemma_text_le_reflexive,
    lemma_text_le_total, lemma_text_le_transitive, sorted_distinct, strictly_increasing, text_le};
use crate::plugins::{CapabilityRequirement, PluginGrantDecisionDto, PluginGrantKey,
    PluginInstallPreview};
use crate::plugins::error::PluginError;

verus! {

/// The requirement identifiers that the decisions answer, in order.
pub open spec fn decision_ids(d: Seq<PluginGrantDecisionDto>) -> Seq<Seq<char>> {
    d.map_values(|x: PluginGrantDecisionDto| x.requirement_id@)
}

/// The identifiers of the required capabilities, in order.
pub open spec fn requirement_ids(r: Seq<CapabilityRequirement>) -> Seq<Seq<char>> {
    r.map_values(|x: CapabilityRequirement| x.requirement_id@)
}

/// The grants that the required capabilities stand for, in order.
pub open spec fn requirement_grants(r: Seq<CapabilityRequirement>) -> Seq<PluginGrantKey> {
    r.map_values(|x: CapabilityRequirement| x.grant)
}

/// `j` is the first position whose identifier repeats an earlier one.
pub open spec fn first_repeat(ids: Seq<Seq<char>>, j: int) -> bool {
    &&& 0 <= j < ids.len()
    &&& exists|i: int| 0 <= i < j && ids[i] == ids[j]
    &&& ids.take(j).no_duplicates()
}

/// `j` holds the denied requirement that sorts first.
pub open spec fn first_denied(d: Seq<PluginGrantDecisionDto>, j: int) -> bool {
    &&& 0 <= j < d.len()
    &&& !d[j].allow
    &&& forall|k: int| 0 <= k < d.len() && !d[k].allow ==> text_le(
        encode_utf8(d[j].requirement_id@),
        encode_utf8(#[trigger] d[k].requirement_id@),
    )
}

/// The decisions answer exactly the preview's requirements, each once, and
/// allow every one.
pub open spec fn decisions_approve(
    required: Seq<CapabilityRequirement>,
    d: Seq<PluginGrantDecisionDto>,
) -> bool {
    &&& decision_ids(d).no_duplicates()
    &&& decision_ids(d).to_set() == requirement_ids(required).to_set()
    &&& forall|k: int| 0 <= k < d.len() ==> (#[trigger] d[k]).allow
}

/// `grants` are the grants of the required capabilities, sorted and
/// without repeats.
pub open spec fn approved_set(required: Seq<CapabilityRequirement>, grants: Seq<PluginGrantKey>) -> bool {
    strictly_increasing(grants) && key_texts(grants).to_set() == key_texts(
        requirement_grants(required),
    ).to_set()
}

/// `e` is the refusal that the decisions earn: the first repeated answer,
/// else answers that differ from the requirements, else the denied
/// requirement that sorts first.
pub open spec fn grant_refusal(
    required: Seq<CapabilityRequirement>,
    d: Seq<PluginGrantDecisionDto>,
    e: PluginError,
) -> bool {
    match e {
        PluginError::DuplicateGrantDecision(id) => exists|j: int|
            first_repeat(decision_ids(d), j) && id@ == decision_ids(d)[j],
        PluginError::GrantDecisionsDiffer => decision_ids(d).no_duplicates()
            && decision_ids(d).to_set() != requirement_ids(required).to_set(),
        PluginError::CapabilityNotApproved(id) => decision_ids(d).no_duplicates()
            && decision_ids(d).to_set() == requirement_ids(required).to_set() && exists|j: int|
            first_denied(d, j) && id@ == d[j].requirement_id@,
        _ => false,
    }
}

/// Whether `id` is among the given requirement identifiers.
fn requirement_listed(required: &Vec<CapabilityRequirement>, id: &String) -> (res: bool)
    ensures
        res == requirement_ids(required@).contains(id@),
{
    let mut i: usize = 0;
    while i < required.len()
        invariant
            i <= required.len(),
            forall|k: int| 0 <= k < i ==> requirement_ids(required@)[k] != id@,
        decreases required.len() - i,
    {
        if required[i].requirement_id == *id {
            assert(requirement_ids(required@)[i as int] == id@);
            return true;
        }
        i = i + 1;
    }
    false
}

/// Whether `id` is answered by one of the decisions.
fn decision_listed(decisions: &Vec<PluginGrantDecisionDto>, id: &String) -> (res: bool)
    ensures
        res == decision_ids(decisions@).contains(id@),
{
    let mut i: usize = 0;
    while i < decisions.len()
        invariant
            i <= decisions.len(),
            forall|k: int| 0 <= k < i ==> decision_ids(decisions@)[k] != id@,
        decreases decisions.len() - i,
    {
        if decisions[i].requirement_id == *id {
            assert(decision_ids(decisions@)[i as int] == id@);
            return true;
        }
        i = i + 1;
    }
    false
}

/// The grants approved by the user's decisions on an installation preview:
/// every requirement must be answered exactly once, no other requirement
/// may be answered, and every answer must allow. The approved grants come
/// back sorted and without repeats.
pub fn approved_grants(preview: &PluginInstallPreview, decisions: &Vec<PluginGrantDecisionDto>) -> (res:
    Result<Vec<PluginGrantKey>, PluginError>)
    ensures
        res is Ok <==> decisions_approve(preview.required_capabilities@, decisions@),
        res matches Ok(grants) ==> approved_set(preview.required_capabilities@, grants@),
        res matches Err(e) ==> grant_refusal(preview.required_capabilities@, decisions@, e),
{
    let required = &preview.required_capabilities;
    let ghost ids = decision_ids(decisions@);
    let ghost req_ids = requirement_ids(required@);
    // Each requirement may be answered once.
    let mut j: usize = 0;
    assert(ids.take(0) =~= Seq::<Seq<char>>::empty());
    while j < decisions.len()
        invariant
            j <= decisions.len(),
            ids == decision_ids(decisions@),
            ids.len() == decisions.len(),
            ids.take(j as int).no_duplicates(),
        decreases decisions.len() - j,
    {
        let mut i: usize = 0;
        while i < j
            invariant
                i <= j < decisions.len(),
                ids == decision_ids(decisions@),
                ids.len() == decisions.len(),
                ids.take(j as int).no_duplicates(),
                forall|k: int| 0 <= k < i ==> ids[k] != ids[j as int],
            decreases j - i,
        {
            if decisions[i].requirement_id == decisions[j].requirement_id {
                assert(ids[i as int] == ids[j as int]);
                assert(exists|q: int| 0 <= q < j && ids[q] == ids[j as int]);
                assert(first_repeat(ids, j as int));
                return Err(PluginError::DuplicateGrantDecision(decisions[j].requirement_id.clone()));
            }
            i = i + 1;
        }
        assert(ids.take(j + 1) =~= ids.take(j as int).push(ids[j as int]));
        assert forall|a: int, b: int| #![trigger ids.take(j + 1)[a], ids.take(j + 1)[b]] 0 <= a < j + 1 && 0 <= b < j + 1 && a != b implies ids.take(
            j + 1,
        )[a] != ids.take(j + 1)[b] by {
            if a < j && b < j {
                assert(ids.take(j as int)[a] != ids.take(j as int)[b]);
            }
        }
        j = j + 1;
    }
    assert(ids.take(decisions.len() as int) =~= ids);
    // The answered requirements are exactly the previewed ones.
    let mut k: usize = 0;
    while k < decisions.len()
        invariant
            k <= decisions.len(),
            ids == decision_ids(decisions@),
            ids.no_duplicates(),
            req_ids == requirement_ids(required@),
            required@ == preview.required_capabilities@,
            forall|m: int| 0 <= m < k ==> req_ids.contains(#[trigger] ids[m]),
        decreases decisions.len() - k,
    {
        if !requirement_listed(required, &decisions[k].requirement_id) {
            assert(ids.to_set().contains(ids[k as int]));
            assert(!req_ids.to_set().contains(ids[k as int]));
            assert(ids.to_set() != req_ids.to_set());
            return Err(PluginError::GrantDecisionsDiffer);
        }
        k = k + 1;
    }
    let mut r: usize = 0;
    while r < required.len()
        invariant
            r <= required.len(),
            ids == decision_ids(decisions@),
            ids.no_duplicates(),
            req_ids == requirement_ids(required@),
            required@ == preview.required_capabilities@,
            forall|m: int| 0 <= m < r ==> ids.contains(#[trigger] req_ids[m]),
        decreases required.len() - r,
    {
        if !decision_listed(decisions, &required[r].requirement_id) {
            assert(req_ids.to_set().contains(req_ids[r as int]));
            assert(!ids.to_set().contains(req_ids[r as int]));
            assert(ids.to_set() != req_ids.to_set());
            return Err(PluginError::GrantDecisionsDiffer);
        }
        r = r + 1;
    }
    assert forall|x: Seq<char>| ids.to_set().contains(x) <==> req_ids.to_set().contains(x) by {
        if ids.to_set().contains(x) {
            let m = choose|m: int| 0 <= m < ids.len() && ids[m] == x;
            assert(req_ids.contains(ids[m]));
        }
        if req_ids.to_set().contains(x) {
            let m = choose|m: int| 0 <= m < req_ids.len() && req_ids[m] == x;
            assert(ids.contains(req_ids[m]));
        }
    }
    assert(ids.to_set() =~= req_ids.to_set());
    // Every answer must allow; the denied requirement that sorts first is named.
    let mut denied: Option<usize> = None;
    let mut m: usize = 0;
    while m < decisions.len()
        invariant
            m <= decisions.len(),
            match denied {
                Some(b) => b < m && !decisions@[b as int].allow && forall|q: int|
                    0 <= q < m && !decisions@[q].allow ==> text_le(
                        encode_utf8(decisions@[b as int].requirement_id@),
                        encode_utf8(#[trigger] decisions@[q].requirement_id@),
                    ),
                None => forall|q: int| 0 <= q < m ==> (#[trigger] decisions@[q]).allow,
            },
        decreases decisions.len() - m,
    {
        if !decisions[m].allow {
            let ghost mk = encode_utf8(decisions@[m as int].requirement_id@);
            match denied {
                None => {
                    proof {
                        lemma_text_le_reflexive(mk);
                    }
                    denied = Some(m);
                },
                Some(b) => {
                    let ghost bk = encode_utf8(decisions@[b as int].requirement_id@);
                    if !bytes_le(
                        decisions[b].requirement_id.as_str().as_bytes(),
                        decisions[m].requirement_id.as_str().as_bytes(),
                    ) {
                        proof {
                            lemma_text_le_total(bk, mk);
                            lemma_text_le_reflexive(mk);
                            assert forall|q: int|
                                0 <= q < m + 1 && !decisions@[q].allow implies text_le(
                                mk,
                                encode_utf8(#[trigger] decisions@[q].requirement_id@),
                            ) by {
                                if q < m {
                                    lemma_text_le_transitive(
                                        mk,
                                        bk,
                                        encode_utf8(decisions@[q].requirement_id@),
                                    );
                                }
                            }
                        }
                        denied = Some(m);
                    } else {
                        proof {
                            assert(text_le(bk, mk));
                        }
                    }
                },
            }
        }
        m = m + 1;
    }
    if let Some(b) = denied {
        assert(first_denied(decisions@, b as int));
        return Err(PluginError::CapabilityNotApproved(decisions[b].requirement_id.clone()));
    }
    // The approved grants, sorted and without repeats.
    let mut grants: Vec<PluginGrantKey> = Vec::new();
    for g in 0..required.len()
        invariant
            grants@ == requirement_grants(required@).take(g as int),
    {
        grants.push(PluginGrantKey { key: required[g].grant.key.clone() });
        assert(grants@ =~= requirement_grants(required@).take(g + 1)) by {
            assert(required@[g as int].grant.key == required[g as int].grant.key);
        }
    }
    assert(requirement_grants(required@).take(required.len() as int) =~= requirement_grants(
        required@,
    ));
    Ok(sorted_distinct(grants))
}


/// The identifiers of the decisions repeat no decision, and two decisions
/// with one identifier are the same decision.
spec fn ids_distinguish(d: Seq<PluginGrantDecisionDto>) -> bool {
    &&& d.no_duplicates()
    &&& forall|x: PluginGrantDecisionDto, y: PluginGrantDecisionDto|
        d.contains(x) && d.contains(y) && x.requirement_id@ == y.requirement_id@ ==> x == y
}

proof fn lemma_ids_distinguish(d: Seq<PluginGrantDecisionDto>)
    ensures
        decision_ids(d).no_duplicates() <==> ids_distinguish(d),
{
    let ids = decision_ids(d);
    if ids.no_duplicates() {
        assert forall|x: PluginGrantDecisionDto, y: PluginGrantDecisionDto|
            d.contains(x) && d.contains(y) && x.requirement_id@ == y.requirement_id@ implies x
            == y by {
            let a = choose|a: int| 0 <= a < d.len() && d[a] == x;
            let b = choose|b: int| 0 <= b < d.len() && d[b] == y;
            assert(ids[a] == ids[b]);
        }
        assert forall|a: int, b: int| 0 <= a < d.len() && 0 <= b < d.len() && a != b implies d[a]
            != d[b] by {
            assert(ids[a] != ids[b]);
        }
    }
    if ids_distinguish(d) {
        assert forall|a: int, b: int| 0 <= a < ids.len() && 0 <= b < ids.len() && a != b implies ids[a]
            != ids[b] by {
            if ids[a] == ids[b] {
                assert(d.contains(d[a]) && d.contains(d[b]));
            }
        }
    }
}

/// What a reordering of the decisions keeps: the decisions they hold, and
/// so the identifiers they answer.
proof fn lemma_reordering_keeps_decisions(
    d: Seq<PluginGrantDecisionDto>,
    p: Seq<PluginGrantDecisionDto>,
)
    requires
        p.to_multiset() == d.to_multiset(),
    ensures
        forall|x: PluginGrantDecisionDto| p.contains(x) <==> d.contains(x),
        decision_ids(p).to_set() == decision_ids(d).to_set(),
        d.no_duplicates() ==> p.no_duplicates(),
{
    assert forall|x: PluginGrantDecisionDto| p.contains(x) <==> d.contains(x) by {
        vstd::seq_lib::to_multiset_contains(p, x);
        vstd::seq_lib::to_multiset_contains(d, x);
    }
    assert forall|x: Seq<char>| decision_ids(p).to_set().contains(x) implies decision_ids(
        d,
    ).to_set().contains(x) by {
        let a = choose|a: int| 0 <= a < p.len() && decision_ids(p)[a] == x;
        assert(p.contains(p[a]));
        let b = choose|b: int| 0 <= b < d.len() && d[b] == p[a];
        assert(decision_ids(d)[b] == x);
    }
    assert forall|x: Seq<char>| decision_ids(d).to_set().contains(x) implies decision_ids(
        p,
    ).to_set().contains(x) by {
        let a = choose|a: int| 0 <= a < d.len() && decision_ids(d)[a] == x;
        assert(d.contains(d[a]));
        let b = choose|b: int| 0 <= b < p.len() && p[b] == d[a];
        assert(decision_ids(p)[b] == x);
    }
    assert(decision_ids(p).to_set() =~= decision_ids(d).to_set());
    if d.no_duplicates() {
        d.lemma_multiset_has_no_duplicates();
        p.lemma_multiset_has_no_duplicates_conv();
    }
}

proof fn lemma_reordering_keeps_approval(
    required: Seq<CapabilityRequirement>,
    d: Seq<PluginGrantDecisionDto>,
    p: Seq<PluginGrantDecisionDto>,
)
    requires
        p.to_multiset() == d.to_multiset(),
        decisions_approve(required, d),
    ensures
        decisions_approve(required, p),
{
    lemma_reordering_keeps_decisions(d, p);
    lemma_ids_distinguish(d);
    lemma_ids_distinguish(p);
    assert forall|k: int| 0 <= k < p.len() implies (#[trigger] p[k]).allow by {
        assert(p.contains(p[k]));
        let b = choose|b: int| 0 <= b < d.len() && d[b] == p[k];
    }
}

/// The order of the user's decisions does not matter: decisions that hold
/// the same answers in another order approve the grants exactly when the
/// first ones do.
pub proof fn grant_approval_ignores_decision_order(
    required: Seq<CapabilityRequirement>,
    decisions: Seq<PluginGrantDecisionDto>,
    reordered: Seq<PluginGrantDecisionDto>,
)
    requires
        reordered.to_multiset() == decisions.to_multiset(),
    ensures
        decisions_approve(required, reordered) == decisions_approve(required, decisions),
{
    if decisions_approve(required, decisions) {
        lemma_reordering_keeps_approval(required, decisions, reordered);
    }
    if decisions_approve(required, reordered) {
        lemma_reordering_keeps_approval(required, reordered, decisions);
    }
}

/// The approved grants are determined by the preview alone: any two grant
/// lists that `approved_grants` may return for one preview hold the same
/// keys in the same order.
pub proof fn approved_grants_are_unique(
    required: Seq<CapabilityRequirement>,
    first: Seq<PluginGrantKey>,
    second: Seq<PluginGrantKey>,
)
    requires
        approved_set(required, first),
        approved_set(required, second),
    ensures
        key_texts(first) == key_texts(second),
{
    lemma_increasing_keys_determined_by_set(first, second);
}

} // verus!
