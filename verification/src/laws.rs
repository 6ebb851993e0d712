//! Laws of the reconciler, proved from [`crate::reconcile::reconciled`].
//!
//! Each law holds of every pair of registry states that a successful
//! [`crate::Client::ensure_provider_present`] call relates, whatever
//! conforming service carried it out.

use vstd::prelude::*;

use crate::api::{BoxRep, ProviderRep, VersionRep};
use crate::cloud::{
    box_at, box_fields, box_idx, box_wf, has_box, has_provider, has_version, lemma_box_idx_valid,
    lemma_provider_idx_unique, lemma_provider_idx_valid, lemma_version_idx_unique,
    lemma_version_idx_valid, provider_at, provider_idx, providers_wf, registry_wf, version_at,
    version_idx, versions_wf,
};
use crate::reconcile::{
    lemma_transform_keeps_version, lemma_transform_no_prune, lemma_transform_prune_clean,
    lemma_transform_retarget, reconciled, target_fresh, target_updated, transform_all,
    versions_reconciled,
};
use crate::{provider_matches, BoxSpec, ProviderSpec, VersionSpec};

verus! {

/// The reconciled box is an element of the resulting registry, so its
/// versions inherit the registry's well-formedness.
proof fn lemma_reconciled_box_wf(
    s0: Seq<BoxRep>,
    s1: Seq<BoxRep>,
    b: BoxSpec,
    v: VersionSpec,
    p: ProviderSpec,
    prune: bool,
    rep: BoxRep,
)
    requires
        registry_wf(s1),
        reconciled(s0, s1, b, v, p, prune, rep),
    ensures
        versions_wf(rep.versions),
{
    if has_box(s0, b.username, b.name) {
        lemma_box_idx_valid(s0, b.username, b.name);
        assert(s1[box_idx(s0, b.username, b.name)] == rep);
        assert(box_wf(rep));
    } else {
        assert(s1[s0.len() as int] == rep);
        assert(box_wf(rep));
    }
}

/// After any successful reconciliation the target version is present,
/// released, and holds a provider of the desired name pointing at the
/// desired URL.
pub proof fn lemma_reconciled_target(
    vs0: Seq<VersionRep>,
    vs1: Seq<VersionRep>,
    v: VersionSpec,
    p: ProviderSpec,
    prune: bool,
)
    requires
        versions_wf(vs0),
        versions_wf(vs1),
        versions_reconciled(vs0, vs1, v, p, prune),
    ensures
        has_version(vs1, v.version),
        version_at(vs1, v.version).status == "active"@,
        has_provider(version_at(vs1, v.version).providers, p.name),
        provider_at(version_at(vs1, v.version).providers, p.name).name == p.name,
        provider_at(version_at(vs1, v.version).providers, p.name).original_url == Some(p.url),
{
    let t = v.version;
    let pn = p.name;
    if has_version(vs0, t) {
        let tv0 = version_at(vs0, t);
        lemma_version_idx_valid(vs0, t);
        let tv1 = choose|tv1: VersionRep|
            #[trigger] target_updated(tv0, tv1, p) && vs1 == transform_all(
                vs0,
                t,
                pn,
                prune,
                tv1,
            );
        let k = lemma_transform_retarget(vs0, t, pn, prune, tv1, tv1);
        lemma_version_idx_unique(vs1, t, k);
        assert(version_at(vs1, t) == tv1);
        if has_provider(tv0.providers, pn) {
            lemma_provider_idx_valid(tv0.providers, pn);
            let pi = provider_idx(tv0.providers, pn);
            let pv = choose|pv: ProviderRep|
                {
                    &&& #[trigger] provider_matches(p, pv)
                    &&& (provider_matches(p, tv0.providers[provider_idx(tv0.providers, pn)])
                        ==> pv == tv0.providers[provider_idx(tv0.providers, pn)])
                    &&& tv1.providers == tv0.providers.update(
                        provider_idx(tv0.providers, pn),
                        pv,
                    )
                };
            assert(tv1.providers[pi] == pv);
            assert(pv.name == pn);
            lemma_provider_idx_unique(tv1.providers, pn, pi);
        } else {
            let pv = choose|pv: ProviderRep|
                #[trigger] crate::cloud::fresh_provider(pv, p) && tv1.providers
                    == tv0.providers.push(pv);
            let pi = tv0.providers.len() as int;
            assert(tv1.providers[pi] == pv);
            lemma_provider_idx_unique(tv1.providers, pn, pi);
        }
    } else {
        let tv1 = choose|tv1: VersionRep|
            #[trigger] target_fresh(tv1, v, p) && vs1 == seq![tv1] + transform_all(
                vs0,
                t,
                pn,
                prune,
                tv1,
            );
        assert(vs1[0] == tv1);
        lemma_version_idx_unique(vs1, t, 0);
        let pv = choose|pv: ProviderRep|
            #[trigger] crate::cloud::fresh_provider(pv, p) && tv1.providers == seq![pv];
        assert(tv1.providers[0] == pv);
        lemma_provider_idx_unique(tv1.providers, pn, 0);
    }
}

/// Creation from empty: a successful reconciliation against a registry
/// that does not hold the box appends a box carrying exactly the
/// desired fields, with exactly one version — labelled, described and
/// released as desired — holding exactly one externally hosted provider
/// at the desired URL.
pub proof fn lemma_creation_from_empty(
    s0: Seq<BoxRep>,
    s1: Seq<BoxRep>,
    b: BoxSpec,
    v: VersionSpec,
    p: ProviderSpec,
    prune: bool,
    rep: BoxRep,
)
    requires
        !has_box(s0, b.username, b.name),
        reconciled(s0, s1, b, v, p, prune, rep),
    ensures
        s1 == s0.push(rep),
        box_fields(rep, b),
        rep.versions.len() == 1,
        rep.versions[0].version == v.version,
        rep.versions[0].description_markdown == Some(v.description),
        rep.versions[0].status == "active"@,
        rep.versions[0].providers.len() == 1,
        rep.versions[0].providers[0].name == p.name,
        rep.versions[0].providers[0].original_url == Some(p.url),
        !rep.versions[0].providers[0].hosted,
{
    let t = v.version;
    let pn = p.name;
    let e = Seq::<VersionRep>::empty();
    assert(!has_version(e, t));
    let tv1 = choose|tv1: VersionRep|
        #[trigger] target_fresh(tv1, v, p) && rep.versions == seq![tv1] + transform_all(
            e,
            t,
            pn,
            prune,
            tv1,
        );
    assert(transform_all(e, t, pn, prune, tv1) =~= Seq::<VersionRep>::empty());
    assert(rep.versions =~= seq![tv1]);
    let pv = choose|pv: ProviderRep|
        #[trigger] crate::cloud::fresh_provider(pv, p) && tv1.providers == seq![pv];
    assert(rep.versions[0] == tv1);
    assert(tv1.providers[0] == pv);
}

/// Idempotence: reconciling twice with the same arguments leaves the
/// target version with the very provider set the first call produced —
/// the second call replaces no provider of the target version — and
/// that set holds exactly one provider of the desired name, at the
/// desired URL.
pub proof fn lemma_reconcile_idempotent(
    s0: Seq<BoxRep>,
    s1: Seq<BoxRep>,
    s2: Seq<BoxRep>,
    b: BoxSpec,
    v: VersionSpec,
    p: ProviderSpec,
    rep1: BoxRep,
    rep2: BoxRep,
)
    requires
        registry_wf(s0),
        registry_wf(s1),
        registry_wf(s2),
        reconciled(s0, s1, b, v, p, false, rep1),
        reconciled(s1, s2, b, v, p, false, rep2),
    ensures
        has_version(rep1.versions, v.version),
        has_version(rep2.versions, v.version),
        version_at(rep2.versions, v.version).providers == version_at(
            rep1.versions,
            v.version,
        ).providers,
        ({
            let ps = version_at(rep2.versions, v.version).providers;
            &&& has_provider(ps, p.name)
            &&& provider_at(ps, p.name).name == p.name
            &&& provider_at(ps, p.name).original_url == Some(p.url)
            &&& forall|i: int, j: int|
                0 <= i < ps.len() && 0 <= j < ps.len() && (#[trigger] ps[i]).name == p.name && (
                #[trigger] ps[j]).name == p.name ==> i == j
        }),
{
    let o = b.username;
    let n = b.name;
    let t = v.version;
    let pn = p.name;
    lemma_reconciled_box_wf(s0, s1, b, v, p, false, rep1);
    lemma_reconciled_box_wf(s1, s2, b, v, p, false, rep2);
    let vs0 = if has_box(s0, o, n) {
        box_at(s0, o, n).versions
    } else {
        Seq::<VersionRep>::empty()
    };
    assert(versions_wf(vs0)) by {
        if has_box(s0, o, n) {
            lemma_box_idx_valid(s0, o, n);
            assert(box_wf(s0[box_idx(s0, o, n)]));
        }
    }
    lemma_reconciled_target(vs0, rep1.versions, v, p, false);
    // The second call sees the box the first call left.
    assert(has_box(s1, o, n) && box_at(s1, o, n) == rep1) by {
        if has_box(s0, o, n) {
            lemma_box_idx_valid(s0, o, n);
            crate::cloud::lemma_box_idx_unique(s1, o, n, box_idx(s0, o, n));
        } else {
            crate::cloud::lemma_box_idx_unique(s1, o, n, s0.len() as int);
        }
    }
    lemma_reconciled_target(rep1.versions, rep2.versions, v, p, false);
    // The target the first call left already matches the specification,
    // so the second call leaves its provider set alone.
    let tgt1 = version_at(rep1.versions, t);
    lemma_version_idx_valid(rep1.versions, t);
    let tv2 = choose|tv2: VersionRep|
        #[trigger] target_updated(tgt1, tv2, p) && rep2.versions == transform_all(
            rep1.versions,
            t,
            pn,
            false,
            tv2,
        );
    lemma_provider_idx_valid(tgt1.providers, pn);
    let pi = provider_idx(tgt1.providers, pn);
    assert(provider_matches(p, tgt1.providers[pi]));
    let pv = choose|pv: ProviderRep|
        {
            &&& #[trigger] provider_matches(p, pv)
            &&& (provider_matches(p, tgt1.providers[provider_idx(tgt1.providers, pn)]) ==> pv
                == tgt1.providers[provider_idx(tgt1.providers, pn)])
            &&& tv2.providers == tgt1.providers.update(provider_idx(tgt1.providers, pn), pv)
        };
    assert(pv == tgt1.providers[pi]);
    assert(tv2.providers =~= tgt1.providers);
    let k = lemma_transform_retarget(rep1.versions, t, pn, false, tv2, tv2);
    lemma_version_idx_unique(rep2.versions, t, k);
    assert(version_at(rep2.versions, t) == tv2);
}

/// The target version's other providers survive every reconciliation,
/// with or without pruning, keeping their exact representation: without
/// pruning this is provider additivity, with pruning it is the target's
/// exemption from the pruning pass.
pub proof fn lemma_target_keeps_other_providers(
    s1: Seq<BoxRep>,
    s2: Seq<BoxRep>,
    b: BoxSpec,
    v: VersionSpec,
    p: ProviderSpec,
    prune: bool,
    rep2: BoxRep,
    other: Seq<char>,
)
    requires
        registry_wf(s1),
        registry_wf(s2),
        reconciled(s1, s2, b, v, p, prune, rep2),
        has_box(s1, b.username, b.name),
        has_version(box_at(s1, b.username, b.name).versions, v.version),
        other != p.name,
        has_provider(
            version_at(box_at(s1, b.username, b.name).versions, v.version).providers,
            other,
        ),
    ensures
        has_version(rep2.versions, v.version),
        has_provider(version_at(rep2.versions, v.version).providers, other),
        provider_at(version_at(rep2.versions, v.version).providers, other) == provider_at(
            version_at(box_at(s1, b.username, b.name).versions, v.version).providers,
            other,
        ),
{
    let o = b.username;
    let n = b.name;
    let t = v.version;
    let pn = p.name;
    let vs0 = box_at(s1, o, n).versions;
    assert(versions_wf(vs0)) by {
        lemma_box_idx_valid(s1, o, n);
        assert(box_wf(s1[box_idx(s1, o, n)]));
    }
    lemma_reconciled_box_wf(s1, s2, b, v, p, prune, rep2);
    let tv0 = version_at(vs0, t);
    lemma_version_idx_valid(vs0, t);
    let tv2 = choose|tv2: VersionRep|
        #[trigger] target_updated(tv0, tv2, p) && rep2.versions == transform_all(
            vs0,
            t,
            pn,
            prune,
            tv2,
        );
    let k = lemma_transform_retarget(vs0, t, pn, prune, tv2, tv2);
    lemma_version_idx_unique(rep2.versions, t, k);
    assert(version_at(rep2.versions, t) == tv2);
    assert(providers_wf(tv2.providers)) by {
        assert(versions_wf(rep2.versions));
        assert(rep2.versions[k] == tv2);
    }
    let ps0 = tv0.providers;
    lemma_provider_idx_valid(ps0, other);
    let oj = provider_idx(ps0, other);
    if has_provider(ps0, pn) {
        lemma_provider_idx_valid(ps0, pn);
        let pi = provider_idx(ps0, pn);
        let pv = choose|pv: ProviderRep|
            {
                &&& #[trigger] provider_matches(p, pv)
                &&& (provider_matches(p, ps0[provider_idx(ps0, pn)]) ==> pv == ps0[provider_idx(
                    ps0,
                    pn,
                )])
                &&& tv2.providers == ps0.update(provider_idx(ps0, pn), pv)
            };
        assert(oj != pi);
        assert(tv2.providers[oj] == ps0[oj]);
        lemma_provider_idx_unique(tv2.providers, other, oj);
    } else {
        let pv = choose|pv: ProviderRep|
            #[trigger] crate::cloud::fresh_provider(pv, p) && tv2.providers == ps0.push(pv);
        assert(tv2.providers[oj] == ps0[oj]);
        lemma_provider_idx_unique(tv2.providers, other, oj);
    }
}

/// Additive by default: without pruning, every version the box already
/// held under another label keeps its exact representation, providers
/// included, while the target label becomes present.
pub proof fn lemma_additive_version(
    s1: Seq<BoxRep>,
    s2: Seq<BoxRep>,
    b: BoxSpec,
    v2: VersionSpec,
    p: ProviderSpec,
    rep2: BoxRep,
    label: Seq<char>,
)
    requires
        registry_wf(s1),
        registry_wf(s2),
        reconciled(s1, s2, b, v2, p, false, rep2),
        has_box(s1, b.username, b.name),
        label != v2.version,
        has_version(box_at(s1, b.username, b.name).versions, label),
    ensures
        has_version(rep2.versions, v2.version),
        has_version(rep2.versions, label),
        version_at(rep2.versions, label) == version_at(
            box_at(s1, b.username, b.name).versions,
            label,
        ),
{
    let o = b.username;
    let n = b.name;
    let t = v2.version;
    let pn = p.name;
    let vs0 = box_at(s1, o, n).versions;
    assert(versions_wf(vs0)) by {
        lemma_box_idx_valid(s1, o, n);
        assert(box_wf(s1[box_idx(s1, o, n)]));
    }
    lemma_reconciled_box_wf(s1, s2, b, v2, p, false, rep2);
    lemma_reconciled_target(vs0, rep2.versions, v2, p, false);
    lemma_version_idx_valid(vs0, label);
    let li = version_idx(vs0, label);
    if has_version(vs0, t) {
        let tv0 = version_at(vs0, t);
        let tv2 = choose|tv2: VersionRep|
            #[trigger] target_updated(tv0, tv2, p) && rep2.versions == transform_all(
                vs0,
                t,
                pn,
                false,
                tv2,
            );
        lemma_transform_no_prune(vs0, t, pn, tv2);
        assert(rep2.versions[li] == vs0[li]);
        lemma_version_idx_unique(rep2.versions, label, li);
    } else {
        let tv2 = choose|tv2: VersionRep|
            #[trigger] target_fresh(tv2, v2, p) && rep2.versions == seq![tv2] + transform_all(
                vs0,
                t,
                pn,
                false,
                tv2,
            );
        lemma_transform_no_prune(vs0, t, pn, tv2);
        assert(transform_all(vs0, t, pn, false, tv2)[li] == vs0[li]);
        assert(rep2.versions[li + 1] == vs0[li]);
        lemma_version_idx_unique(rep2.versions, label, li + 1);
    }
}

/// Update detection: when the target version already holds a provider
/// of the desired name, reconciliation replaces it in place — the
/// version's provider count is unchanged and the named provider ends up
/// at the desired URL — rather than adding a second one.
pub proof fn lemma_update_detection(
    s1: Seq<BoxRep>,
    s2: Seq<BoxRep>,
    b: BoxSpec,
    v: VersionSpec,
    p: ProviderSpec,
    rep2: BoxRep,
)
    requires
        registry_wf(s1),
        registry_wf(s2),
        reconciled(s1, s2, b, v, p, false, rep2),
        has_box(s1, b.username, b.name),
        has_version(box_at(s1, b.username, b.name).versions, v.version),
        has_provider(
            version_at(box_at(s1, b.username, b.name).versions, v.version).providers,
            p.name,
        ),
    ensures
        has_version(rep2.versions, v.version),
        version_at(rep2.versions, v.version).providers.len() == version_at(
            box_at(s1, b.username, b.name).versions,
            v.version,
        ).providers.len(),
        has_provider(version_at(rep2.versions, v.version).providers, p.name),
        provider_at(version_at(rep2.versions, v.version).providers, p.name).original_url == Some(
            p.url,
        ),
{
    let o = b.username;
    let n = b.name;
    let t = v.version;
    let pn = p.name;
    let vs0 = box_at(s1, o, n).versions;
    assert(versions_wf(vs0)) by {
        lemma_box_idx_valid(s1, o, n);
        assert(box_wf(s1[box_idx(s1, o, n)]));
    }
    lemma_reconciled_box_wf(s1, s2, b, v, p, false, rep2);
    lemma_reconciled_target(vs0, rep2.versions, v, p, false);
    let tv0 = version_at(vs0, t);
    lemma_version_idx_valid(vs0, t);
    let tv2 = choose|tv2: VersionRep|
        #[trigger] target_updated(tv0, tv2, p) && rep2.versions == transform_all(
            vs0,
            t,
            pn,
            false,
            tv2,
        );
    let pv = choose|pv: ProviderRep|
        {
            &&& #[trigger] provider_matches(p, pv)
            &&& (provider_matches(p, tv0.providers[provider_idx(tv0.providers, pn)]) ==> pv
                == tv0.providers[provider_idx(tv0.providers, pn)])
            &&& tv2.providers == tv0.providers.update(provider_idx(tv0.providers, pn), pv)
        };
    lemma_provider_idx_valid(tv0.providers, pn);
    let k = lemma_transform_retarget(vs0, t, pn, false, tv2, tv2);
    lemma_version_idx_unique(rep2.versions, t, k);
    assert(version_at(rep2.versions, t) == tv2);
}

/// A change of the box's descriptive fields alone triggers a box update
/// and nothing else: the reconciled box carries the new fields, and
/// when the target version was already released and already held a
/// matching provider, its whole version list is left exactly as it was.
pub proof fn lemma_box_update_only(
    s1: Seq<BoxRep>,
    s2: Seq<BoxRep>,
    b: BoxSpec,
    v: VersionSpec,
    p: ProviderSpec,
    rep2: BoxRep,
)
    requires
        registry_wf(s1),
        registry_wf(s2),
        reconciled(s1, s2, b, v, p, false, rep2),
        has_box(s1, b.username, b.name),
        has_version(box_at(s1, b.username, b.name).versions, v.version),
        has_provider(
            version_at(box_at(s1, b.username, b.name).versions, v.version).providers,
            p.name,
        ),
        provider_matches(
            p,
            provider_at(
                version_at(box_at(s1, b.username, b.name).versions, v.version).providers,
                p.name,
            ),
        ),
        version_at(box_at(s1, b.username, b.name).versions, v.version).status == "active"@,
    ensures
        rep2.short_description == b.short_description,
        rep2.description_markdown == b.description,
        rep2.private == b.is_private,
        rep2.versions == box_at(s1, b.username, b.name).versions,
{
    let o = b.username;
    let n = b.name;
    let t = v.version;
    let pn = p.name;
    let vs0 = box_at(s1, o, n).versions;
    assert(versions_wf(vs0)) by {
        lemma_box_idx_valid(s1, o, n);
        assert(box_wf(s1[box_idx(s1, o, n)]));
    }
    let tv0 = version_at(vs0, t);
    lemma_version_idx_valid(vs0, t);
    let tv2 = choose|tv2: VersionRep|
        #[trigger] target_updated(tv0, tv2, p) && rep2.versions == transform_all(
            vs0,
            t,
            pn,
            false,
            tv2,
        );
    lemma_provider_idx_valid(tv0.providers, pn);
    let pi = provider_idx(tv0.providers, pn);
    let pv = choose|pv: ProviderRep|
        {
            &&& #[trigger] provider_matches(p, pv)
            &&& (provider_matches(p, tv0.providers[provider_idx(tv0.providers, pn)]) ==> pv
                == tv0.providers[provider_idx(tv0.providers, pn)])
            &&& tv2.providers == tv0.providers.update(provider_idx(tv0.providers, pn), pv)
        };
    assert(pv == tv0.providers[pi]);
    assert(tv2.providers =~= tv0.providers);
    assert(tv2 == tv0);
    lemma_transform_no_prune(vs0, t, pn, tv2);
    assert forall|k: int| 0 <= k < vs0.len() implies rep2.versions[k] == vs0[k] by {
        if vs0[k].version == t {
            lemma_version_idx_unique(vs0, t, k);
        }
    }
    assert(rep2.versions =~= vs0);
}

/// Pruning semantics: after a successful reconciliation with pruning,
/// no version other than the target holds a provider of the desired
/// name.
pub proof fn lemma_prune_removes_conflicts(
    s1: Seq<BoxRep>,
    s2: Seq<BoxRep>,
    b: BoxSpec,
    v: VersionSpec,
    p: ProviderSpec,
    rep2: BoxRep,
)
    requires
        registry_wf(s1),
        registry_wf(s2),
        reconciled(s1, s2, b, v, p, true, rep2),
    ensures
        forall|k: int|
            0 <= k < rep2.versions.len() && (#[trigger] rep2.versions[k]).version != v.version
                ==> !has_provider(rep2.versions[k].providers, p.name),
{
    let o = b.username;
    let n = b.name;
    let t = v.version;
    let pn = p.name;
    let vs0 = if has_box(s1, o, n) {
        box_at(s1, o, n).versions
    } else {
        Seq::<VersionRep>::empty()
    };
    assert(versions_wf(vs0)) by {
        if has_box(s1, o, n) {
            lemma_box_idx_valid(s1, o, n);
            assert(box_wf(s1[box_idx(s1, o, n)]));
        }
    }
    if has_version(vs0, t) {
        let tv0 = version_at(vs0, t);
        lemma_version_idx_valid(vs0, t);
        let tv2 = choose|tv2: VersionRep|
            #[trigger] target_updated(tv0, tv2, p) && rep2.versions == transform_all(
                vs0,
                t,
                pn,
                true,
                tv2,
            );
        lemma_transform_prune_clean(vs0, t, pn, tv2);
    } else {
        let tv2 = choose|tv2: VersionRep|
            #[trigger] target_fresh(tv2, v, p) && rep2.versions == seq![tv2] + transform_all(
                vs0,
                t,
                pn,
                true,
                tv2,
            );
        lemma_transform_prune_clean(vs0, t, pn, tv2);
        let inner = transform_all(vs0, t, pn, true, tv2);
        assert forall|k: int|
            0 <= k < rep2.versions.len() && (#[trigger] rep2.versions[k]).version != t implies
            !has_provider(rep2.versions[k].providers, pn) by {
            if k > 0 {
                assert(rep2.versions[k] == inner[k - 1]);
            }
        }
    }
}

/// Pruning keeps every other version that holds a provider of another
/// name: the version survives and that provider keeps its exact
/// representation.
pub proof fn lemma_prune_keeps_other_versions(
    s1: Seq<BoxRep>,
    s2: Seq<BoxRep>,
    b: BoxSpec,
    v: VersionSpec,
    p: ProviderSpec,
    rep2: BoxRep,
    label: Seq<char>,
    other: Seq<char>,
)
    requires
        registry_wf(s1),
        registry_wf(s2),
        reconciled(s1, s2, b, v, p, true, rep2),
        has_box(s1, b.username, b.name),
        label != v.version,
        other != p.name,
        has_version(box_at(s1, b.username, b.name).versions, label),
        has_provider(version_at(box_at(s1, b.username, b.name).versions, label).providers, other),
    ensures
        has_version(rep2.versions, label),
        has_provider(version_at(rep2.versions, label).providers, other),
        provider_at(version_at(rep2.versions, label).providers, other) == provider_at(
            version_at(box_at(s1, b.username, b.name).versions, label).providers,
            other,
        ),
{
    let o = b.username;
    let n = b.name;
    let t = v.version;
    let pn = p.name;
    let vs0 = box_at(s1, o, n).versions;
    assert(versions_wf(vs0)) by {
        lemma_box_idx_valid(s1, o, n);
        assert(box_wf(s1[box_idx(s1, o, n)]));
    }
    lemma_reconciled_box_wf(s1, s2, b, v, p, true, rep2);
    if has_version(vs0, t) {
        let tv0 = version_at(vs0, t);
        lemma_version_idx_valid(vs0, t);
        let tv2 = choose|tv2: VersionRep|
            #[trigger] target_updated(tv0, tv2, p) && rep2.versions == transform_all(
                vs0,
                t,
                pn,
                true,
                tv2,
            );
        let k = lemma_transform_keeps_version(vs0, t, pn, true, tv2, label, other);
        lemma_version_idx_unique(rep2.versions, label, k);
    } else {
        let tv2 = choose|tv2: VersionRep|
            #[trigger] target_fresh(tv2, v, p) && rep2.versions == seq![tv2] + transform_all(
                vs0,
                t,
                pn,
                true,
                tv2,
            );
        let k = lemma_transform_keeps_version(vs0, t, pn, true, tv2, label, other);
        assert(rep2.versions[k + 1] == transform_all(vs0, t, pn, true, tv2)[k]);
        lemma_version_idx_unique(rep2.versions, label, k + 1);
    }
}

} // verus!

