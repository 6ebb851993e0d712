//! Specification of the reconciliation algorithm.
//!
//! [`reconciled`] states, over the ghost registry, exactly how a
//! successful [`crate::Client::ensure_provider_present`] call relates the
//! registry state before the call to the state after it: the box carries
//! the desired fields, the target version exists, is released and holds a
//! provider at the desired URL, and every other version is transformed by
//! the optional pruning pass and nothing else.

use vstd::prelude::*;
use vstd::assert_seqs_equal;

use crate::api::{BoxRep, ProviderRep, VersionRep};
use crate::cloud::{
    box_at, box_fields, box_idx, box_rest_eq, fresh_provider, has_box, has_provider, has_version,
    lemma_version_idx_unique, provider_at, provider_idx, set_providers, set_status, version_at,
    version_idx, versions_wf,
};
use crate::{provider_matches, BoxSpec, ProviderSpec, VersionSpec};

verus! {

/// What the pruning pass leaves of one version `w` that is scanned while
/// ensuring `tv1` as the version labelled `target`:
/// - the target version itself is replaced by its final form `tv1`;
/// - without pruning, or when `w` holds no provider named `pname`, `w`
///   stays untouched;
/// - when `w`'s only provider is named `pname`, the whole version goes;
/// - otherwise only the provider named `pname` goes.
pub open spec fn step_version(
    w: VersionRep,
    target: Seq<char>,
    pname: Seq<char>,
    prune: bool,
    tv1: VersionRep,
) -> Seq<VersionRep> {
    if w.version == target {
        seq![tv1]
    } else if !prune || !has_provider(w.providers, pname) {
        seq![w]
    } else if w.providers.len() == 1 {
        Seq::<VersionRep>::empty()
    } else {
        seq![set_providers(w, w.providers.remove(provider_idx(w.providers, pname)))]
    }
}

/// The whole version list after the pruning pass, each version
/// transformed by [`step_version`] in place.
pub open spec fn transform_all(
    vs: Seq<VersionRep>,
    target: Seq<char>,
    pname: Seq<char>,
    prune: bool,
    tv1: VersionRep,
) -> Seq<VersionRep>
    decreases vs.len(),
{
    if vs.len() == 0 {
        Seq::<VersionRep>::empty()
    } else {
        step_version(vs[0], target, pname, prune, tv1) + transform_all(
            vs.drop_first(),
            target,
            pname,
            prune,
            tv1,
        )
    }
}

/// How the provider list of the target version ends up: an existing
/// provider of the desired name is left alone when it already matches
/// the specification and replaced by a matching one otherwise; an absent
/// one is appended as a fresh provider.
pub open spec fn target_provider_set(
    ps0: Seq<ProviderRep>,
    ps1: Seq<ProviderRep>,
    p: ProviderSpec,
) -> bool {
    if has_provider(ps0, p.name) {
        exists|pv: ProviderRep|
            {
                let pi = provider_idx(ps0, p.name);
                &&& #[trigger] provider_matches(p, pv)
                &&& (provider_matches(p, ps0[pi]) ==> pv == ps0[pi])
                &&& ps1 == ps0.update(pi, pv)
            }
    } else {
        exists|pv: ProviderRep|
            #[trigger] fresh_provider(pv, p) && ps1 == ps0.push(pv)
    }
}

/// The final form of a target version that already existed: the same
/// version with its provider list brought in line and its status set to
/// active by the release call.
pub open spec fn target_updated(tv0: VersionRep, tv1: VersionRep, p: ProviderSpec) -> bool {
    &&& tv1 == set_status(set_providers(tv0, tv1.providers), "active"@)
    &&& target_provider_set(tv0.providers, tv1.providers, p)
}

/// The final form of a target version that was created by the call:
/// labelled and described as desired, released, holding exactly one
/// fresh provider.
pub open spec fn target_fresh(tv1: VersionRep, v: VersionSpec, p: ProviderSpec) -> bool {
    &&& tv1.version == v.version
    &&& tv1.description_markdown == Some(v.description)
    &&& tv1.status == "active"@
    &&& exists|pv: ProviderRep| #[trigger] fresh_provider(pv, p) && tv1.providers == seq![pv]
}

/// How the version list of the reconciled box relates to the list the
/// box held before the call.
pub open spec fn versions_reconciled(
    vs0: Seq<VersionRep>,
    vs1: Seq<VersionRep>,
    v: VersionSpec,
    p: ProviderSpec,
    prune: bool,
) -> bool {
    if has_version(vs0, v.version) {
        exists|tv1: VersionRep|
            {
                &&& #[trigger] target_updated(version_at(vs0, v.version), tv1, p)
                &&& vs1 == transform_all(vs0, v.version, p.name, prune, tv1)
            }
    } else {
        exists|tv1: VersionRep|
            {
                &&& #[trigger] target_fresh(tv1, v, p)
                &&& vs1 == seq![tv1] + transform_all(vs0, v.version, p.name, prune, tv1)
            }
    }
}

/// How a successful reconciliation relates the registry before the call
/// (`s0`) to the registry after it (`s1`), with `rep` the box
/// representation the call returns: the box exists (created when it was
/// absent), carries exactly the desired descriptive fields, keeps every
/// server-assigned field it had, and its versions are reconciled; no
/// other box is touched.
pub open spec fn reconciled(
    s0: Seq<BoxRep>,
    s1: Seq<BoxRep>,
    b: BoxSpec,
    v: VersionSpec,
    p: ProviderSpec,
    prune: bool,
    rep: BoxRep,
) -> bool {
    &&& box_fields(rep, b)
    &&& if has_box(s0, b.username, b.name) {
        let base = box_at(s0, b.username, b.name);
        &&& s1 == s0.update(box_idx(s0, b.username, b.name), rep)
        &&& box_rest_eq(rep, base)
        &&& versions_reconciled(base.versions, rep.versions, v, p, prune)
    } else {
        &&& s1 == s0.push(rep)
        &&& rep.current_version is None
        &&& versions_reconciled(Seq::<VersionRep>::empty(), rep.versions, v, p, prune)
    }
}

/// The target version as it stood before the call, where one stood at
/// all; an unconstrained value otherwise (the transform does not depend
/// on it then, see [`lemma_transform_tv1_irrelevant`]).
pub open spec fn target_before(vs: Seq<VersionRep>, label: Seq<char>) -> VersionRep {
    if has_version(vs, label) {
        version_at(vs, label)
    } else {
        vstd::pervasive::arbitrary()
    }
}

/// The registry with the box of the given key replaced, or appended when
/// no box carries the key.
pub open spec fn put_box(s0: Seq<BoxRep>, owner: Seq<char>, name: Seq<char>, bx: BoxRep) -> Seq<
    BoxRep,
> {
    if has_box(s0, owner, name) {
        s0.update(box_idx(s0, owner, name), bx)
    } else {
        s0.push(bx)
    }
}

/// The position the box of the given key holds in `put_box(s0, ..)`.
pub open spec fn put_pos(s0: Seq<BoxRep>, owner: Seq<char>, name: Seq<char>) -> int {
    if has_box(s0, owner, name) {
        box_idx(s0, owner, name)
    } else {
        s0.len() as int
    }
}

/// In a well-formed registry, the box put at a key sits at `put_pos`,
/// `box_at` finds it, and a second put at the same key lands on the same
/// slot.
pub proof fn lemma_put_step(
    s0: Seq<BoxRep>,
    owner: Seq<char>,
    name: Seq<char>,
    x: BoxRep,
    y: BoxRep,
)
    requires
        crate::cloud::registry_wf(put_box(s0, owner, name, x)),
        crate::cloud::box_keyed(x, owner, name),
    ensures
        has_box(put_box(s0, owner, name, x), owner, name),
        box_idx(put_box(s0, owner, name, x), owner, name) == put_pos(s0, owner, name),
        box_at(put_box(s0, owner, name, x), owner, name) == x,
        put_box(s0, owner, name, x).update(put_pos(s0, owner, name), y) == put_box(
            s0,
            owner,
            name,
            y,
        ),
{
    if has_box(s0, owner, name) {
        crate::cloud::lemma_box_idx_valid(s0, owner, name);
    }
    let sx = put_box(s0, owner, name, x);
    let pos = put_pos(s0, owner, name);
    assert(sx[pos] == x);
    crate::cloud::lemma_box_idx_unique(sx, owner, name, pos);
    if has_box(s0, owner, name) {
        assert(sx.update(pos, y) =~= s0.update(pos, y));
    } else {
        assert(sx.update(pos, y) =~= s0.push(y));
    }
}

/// Extending the transformed prefix by one scanned version appends that
/// version's transform.
pub proof fn lemma_transform_take_succ(
    vs: Seq<VersionRep>,
    target: Seq<char>,
    pname: Seq<char>,
    prune: bool,
    tv1: VersionRep,
    i: int,
)
    requires
        0 <= i < vs.len(),
    ensures
        transform_all(vs.take(i + 1), target, pname, prune, tv1) == transform_all(
            vs.take(i),
            target,
            pname,
            prune,
            tv1,
        ) + step_version(vs[i], target, pname, prune, tv1),
    decreases i,
{
    let pre = vs.take(i);
    let pre1 = vs.take(i + 1);
    if i == 0 {
        assert(pre =~= Seq::<VersionRep>::empty());
        assert(pre1.drop_first() =~= Seq::<VersionRep>::empty());
        assert(pre1[0] == vs[0]);
        assert(transform_all(pre1, target, pname, prune, tv1) =~= transform_all(
            pre,
            target,
            pname,
            prune,
            tv1,
        ) + step_version(vs[0], target, pname, prune, tv1));
    } else {
        let rest = vs.drop_first();
        lemma_transform_take_succ(rest, target, pname, prune, tv1, i - 1);
        assert(rest.take(i) =~= pre1.drop_first());
        assert(rest.take(i - 1) =~= pre.drop_first());
        assert(rest[i - 1] == vs[i]);
        assert(pre1[0] == vs[0]);
        assert(pre[0] == vs[0]);
        assert(transform_all(pre1, target, pname, prune, tv1) =~= transform_all(
            pre,
            target,
            pname,
            prune,
            tv1,
        ) + step_version(vs[i], target, pname, prune, tv1));
    }
}

/// Without pruning the transform only swaps the target's slot: every
/// other version keeps its place and its exact representation.
pub proof fn lemma_transform_no_prune(
    vs: Seq<VersionRep>,
    target: Seq<char>,
    pname: Seq<char>,
    tv1: VersionRep,
)
    ensures
        transform_all(vs, target, pname, false, tv1).len() == vs.len(),
        forall|k: int|
            0 <= k < vs.len() ==> transform_all(vs, target, pname, false, tv1)[k] == (if (
            #[trigger] vs[k]).version == target {
                tv1
            } else {
                vs[k]
            }),
    decreases vs.len(),
{
    if vs.len() > 0 {
        let rest = vs.drop_first();
        lemma_transform_no_prune(rest, target, pname, tv1);
        let head = step_version(vs[0], target, pname, false, tv1);
        assert(head.len() == 1);
        assert forall|k: int| 0 <= k < vs.len() implies transform_all(vs, target, pname, false, tv1)[k]
            == (if (#[trigger] vs[k]).version == target {
            tv1
        } else {
            vs[k]
        }) by {
            if k > 0 {
                assert(rest[k - 1] == vs[k]);
                assert(transform_all(vs, target, pname, false, tv1)[k] == transform_all(
                    rest,
                    target,
                    pname,
                    false,
                    tv1,
                )[k - 1]);
            }
        }
    }
}

/// After a pruning pass, no version other than the target holds a
/// provider of the pruned name.
pub proof fn lemma_transform_prune_clean(
    vs: Seq<VersionRep>,
    target: Seq<char>,
    pname: Seq<char>,
    tv1: VersionRep,
)
    requires
        versions_wf(vs),
        tv1.version == target,
    ensures
        forall|k: int|
            0 <= k < transform_all(vs, target, pname, true, tv1).len() && (
            #[trigger] transform_all(vs, target, pname, true, tv1)[k]).version != target
                ==> !has_provider(transform_all(vs, target, pname, true, tv1)[k].providers, pname),
    decreases vs.len(),
{
    let whole = transform_all(vs, target, pname, true, tv1);
    if vs.len() > 0 {
        let rest = vs.drop_first();
        assert(versions_wf(rest)) by {
            assert forall|x: int, y: int| 0 <= x < y < rest.len() implies (#[trigger] rest[x]).version
                != (#[trigger] rest[y]).version by {
                assert(rest[x] == vs[x + 1]);
                assert(rest[y] == vs[y + 1]);
            }
            assert forall|x: int| 0 <= x < rest.len() implies crate::cloud::providers_wf(
                (#[trigger] rest[x]).providers,
            ) by {
                assert(rest[x] == vs[x + 1]);
            }
        }
        lemma_transform_prune_clean(rest, target, pname, tv1);
        let head = step_version(vs[0], target, pname, true, tv1);
        let w = vs[0];
        assert forall|k: int| 0 <= k < whole.len() && (#[trigger] whole[k]).version != target
            implies !has_provider(whole[k].providers, pname) by {
            if k < head.len() {
                assert(whole[k] == head[k]);
                if w.version != target && has_provider(w.providers, pname) && w.providers.len()
                    != 1 {
                    // Only the provider of the pruned name went; by
                    // distinctness of names no other one carries it.
                    let ps = w.providers;
                    let pi = provider_idx(ps, pname);
                    crate::cloud::lemma_provider_idx_valid(ps, pname);
                    let ps1 = ps.remove(pi);
                    assert(whole[k].providers == ps1);
                    if has_provider(ps1, pname) {
                        let j = choose|j: int|
                            0 <= j < ps1.len() && (#[trigger] ps1[j]).name == pname;
                        let j0 = if j < pi {
                            j
                        } else {
                            j + 1
                        };
                        assert(ps1[j] == ps[j0]);
                        crate::cloud::lemma_provider_idx_unique(ps, pname, j0);
                    }
                }
            } else {
                assert(whole[k] == transform_all(rest, target, pname, true, tv1)[k - head.len()]);
            }
        }
    }
}

/// A scanned version of another label that holds a provider of another
/// name survives the transform, keeping that provider untouched; the
/// returned index is its slot in the transformed list.
pub proof fn lemma_transform_keeps_version(
    vs: Seq<VersionRep>,
    target: Seq<char>,
    pname: Seq<char>,
    prune: bool,
    tv1: VersionRep,
    label: Seq<char>,
    other: Seq<char>,
) -> (k: int)
    requires
        versions_wf(vs),
        label != target,
        other != pname,
        has_version(vs, label),
        has_provider(version_at(vs, label).providers, other),
    ensures
        0 <= k < transform_all(vs, target, pname, prune, tv1).len(),
        transform_all(vs, target, pname, prune, tv1)[k].version == label,
        crate::cloud::providers_wf(transform_all(vs, target, pname, prune, tv1)[k].providers),
        has_provider(transform_all(vs, target, pname, prune, tv1)[k].providers, other),
        provider_at(transform_all(vs, target, pname, prune, tv1)[k].providers, other)
            == provider_at(version_at(vs, label).providers, other),
    decreases vs.len(),
{
    let whole = transform_all(vs, target, pname, prune, tv1);
    let rest = vs.drop_first();
    let head = step_version(vs[0], target, pname, prune, tv1);
    crate::cloud::lemma_version_idx_valid(vs, label);
    if vs[0].version == label {
        lemma_version_idx_unique(vs, label, 0);
        let w = vs[0];
        let ps = w.providers;
        assert(crate::cloud::providers_wf(ps));
        crate::cloud::lemma_provider_idx_valid(ps, other);
        let oj = provider_idx(ps, other);
        if prune && has_provider(ps, pname) {
            let pi = provider_idx(ps, pname);
            crate::cloud::lemma_provider_idx_valid(ps, pname);
            assert(oj != pi);
            assert(ps.len() != 1) by {
                if ps.len() == 1 {
                    assert(oj == 0 && pi == 0);
                }
            }
            let ps1 = ps.remove(pi);
            assert(whole[0] == set_providers(w, ps1));
            crate::cloud::lemma_providers_wf_remove(ps, pi);
            let oj1 = if oj < pi {
                oj
            } else {
                oj - 1
            };
            assert(ps1[oj1] == ps[oj]);
            crate::cloud::lemma_provider_idx_unique(ps1, other, oj1);
        } else {
            assert(whole[0] == w);
        }
        0
    } else {
        assert(versions_wf(rest)) by {
            assert forall|x: int, y: int| 0 <= x < y < rest.len() implies (#[trigger] rest[x]).version
                != (#[trigger] rest[y]).version by {
                assert(rest[x] == vs[x + 1]);
                assert(rest[y] == vs[y + 1]);
            }
            assert forall|x: int| 0 <= x < rest.len() implies crate::cloud::providers_wf(
                (#[trigger] rest[x]).providers,
            ) by {
                assert(rest[x] == vs[x + 1]);
            }
        }
        let vi = version_idx(vs, label);
        assert(vi != 0);
        assert(rest[vi - 1] == vs[vi]);
        assert(has_version(rest, label));
        lemma_version_idx_unique(rest, label, vi - 1);
        assert(version_at(rest, label) == version_at(vs, label));
        let k0 = lemma_transform_keeps_version(rest, target, pname, prune, tv1, label, other);
        let k = head.len() as int + k0;
        assert(whole[k] == transform_all(rest, target, pname, prune, tv1)[k0]);
        k
    }
}

/// When no scanned version carries the target label, the transform does
/// not depend on the target's final form.
pub proof fn lemma_transform_tv1_irrelevant(
    vs: Seq<VersionRep>,
    target: Seq<char>,
    pname: Seq<char>,
    prune: bool,
    a: VersionRep,
    b: VersionRep,
)
    requires
        !has_version(vs, target),
    ensures
        transform_all(vs, target, pname, prune, a) == transform_all(vs, target, pname, prune, b),
    decreases vs.len(),
{
    if vs.len() > 0 {
        assert(vs[0].version != target);
        let rest = vs.drop_first();
        assert(!has_version(rest, target)) by {
            if has_version(rest, target) {
                let k = choose|k: int| 0 <= k < rest.len() && (#[trigger] rest[k]).version
                    == target;
                assert(vs[k + 1].version == target);
            }
        }
        lemma_transform_tv1_irrelevant(rest, target, pname, prune, a, b);
    }
}

/// Replacing the target's final form `a` by `b` changes the transformed
/// list at exactly the target's slot.
pub proof fn lemma_transform_retarget(
    vs: Seq<VersionRep>,
    target: Seq<char>,
    pname: Seq<char>,
    prune: bool,
    a: VersionRep,
    b: VersionRep,
) -> (k: int)
    requires
        versions_wf(vs),
        has_version(vs, target),
        a.version == target,
        b.version == target,
    ensures
        0 <= k < transform_all(vs, target, pname, prune, a).len(),
        transform_all(vs, target, pname, prune, a)[k] == a,
        transform_all(vs, target, pname, prune, b) == transform_all(
            vs,
            target,
            pname,
            prune,
            a,
        ).update(k, b),
    decreases vs.len(),
{
    let ta = transform_all(vs, target, pname, prune, a);
    let tb = transform_all(vs, target, pname, prune, b);
    let rest = vs.drop_first();
    if vs[0].version == target {
        assert(!has_version(rest, target)) by {
            if has_version(rest, target) {
                let j = choose|j: int| 0 <= j < rest.len() && (#[trigger] rest[j]).version
                    == target;
                assert(vs[0].version != vs[j + 1].version);
            }
        }
        lemma_transform_tv1_irrelevant(rest, target, pname, prune, a, b);
        assert(ta == seq![a] + transform_all(rest, target, pname, prune, a));
        assert(tb == seq![b] + transform_all(rest, target, pname, prune, a));
        assert(tb =~= ta.update(0, b));
        0
    } else {
        assert(versions_wf(rest)) by {
            assert forall|x: int, y: int| 0 <= x < y < rest.len() implies (#[trigger] rest[x]).version
                != (#[trigger] rest[y]).version by {
                assert(rest[x] == vs[x + 1]);
                assert(rest[y] == vs[y + 1]);
            }
            assert forall|x: int| 0 <= x < rest.len() implies crate::cloud::providers_wf(
                (#[trigger] rest[x]).providers,
            ) by {
                assert(rest[x] == vs[x + 1]);
            }
        }
        assert(has_version(rest, target)) by {
            let j = choose|j: int| 0 <= j < vs.len() && (#[trigger] vs[j]).version == target;
            assert(rest[j - 1].version == target);
        }
        let k0 = lemma_transform_retarget(rest, target, pname, prune, a, b);
        let head = step_version(vs[0], target, pname, prune, a);
        assert(step_version(vs[0], target, pname, prune, b) == head);
        assert(ta == head + transform_all(rest, target, pname, prune, a));
        assert(tb == head + transform_all(rest, target, pname, prune, b));
        let k = head.len() + k0;
        assert(ta[k] == transform_all(rest, target, pname, prune, a)[k0]);
        assert(tb =~= ta.update(k, b)) by {
            assert_seqs_equal!(tb == ta.update(k, b), idx => {
                if idx < head.len() {
                    assert(tb[idx] == head[idx]);
                    assert(ta.update(k, b)[idx] == head[idx]);
                } else {
                    assert(tb[idx] == transform_all(rest, target, pname, prune, b)[idx - head.len()]);
                    assert(transform_all(rest, target, pname, prune, b)[idx - head.len()]
                        == transform_all(rest, target, pname, prune, a).update(k0, b)[idx - head.len()]);
                }
            });
        }
        k
    }
}

} // verus!
