//! Ghost model of the remote registry and the contract of a remote
//! resource service.
//!
//! The registry is modelled as a sequence of box representations, in the
//! order the service stores them.  [`VagrantCloud`] is the interface the
//! reconciler depends on: every call is specified by its effect on the
//! modelled registry, so that the reconciler can be verified against any
//! conforming service and exercised against the in-memory one.

use vstd::prelude::*;

use crate::api;
use crate::api::{BoxRep, ProviderRep, VersionRep};
use crate::errors::Error;
use crate::{BoxProvider, BoxSpec, BoxVersion, ProviderSpec, VagrantBox, VersionSpec};

verus! {

/// True iff the box representation carries the given identity key.
pub open spec fn box_keyed(bx: BoxRep, owner: Seq<char>, name: Seq<char>) -> bool {
    bx.username == owner && bx.name == name
}

/// True iff some box in the registry carries the given identity key.
pub open spec fn has_box(s: Seq<BoxRep>, owner: Seq<char>, name: Seq<char>) -> bool {
    exists|i: int| 0 <= i < s.len() && box_keyed(#[trigger] s[i], owner, name)
}

/// The index of the box with the given key; meaningful when `has_box`
/// holds and the registry is well formed.
pub open spec fn box_idx(s: Seq<BoxRep>, owner: Seq<char>, name: Seq<char>) -> int {
    choose|i: int| 0 <= i < s.len() && box_keyed(#[trigger] s[i], owner, name)
}

/// The box with the given key.
pub open spec fn box_at(s: Seq<BoxRep>, owner: Seq<char>, name: Seq<char>) -> BoxRep {
    s[box_idx(s, owner, name)]
}

/// True iff some version in the sequence carries the given label.
pub open spec fn has_version(vs: Seq<VersionRep>, label: Seq<char>) -> bool {
    exists|i: int| 0 <= i < vs.len() && (#[trigger] vs[i]).version == label
}

/// The index of the version with the given label; meaningful when
/// `has_version` holds and the labels are distinct.
pub open spec fn version_idx(vs: Seq<VersionRep>, label: Seq<char>) -> int {
    choose|i: int| 0 <= i < vs.len() && (#[trigger] vs[i]).version == label
}

/// The version with the given label.
pub open spec fn version_at(vs: Seq<VersionRep>, label: Seq<char>) -> VersionRep {
    vs[version_idx(vs, label)]
}

/// True iff some provider in the sequence carries the given name.
pub open spec fn has_provider(ps: Seq<ProviderRep>, name: Seq<char>) -> bool {
    exists|i: int| 0 <= i < ps.len() && (#[trigger] ps[i]).name == name
}

/// The index of the provider with the given name; meaningful when
/// `has_provider` holds and the names are distinct.
pub open spec fn provider_idx(ps: Seq<ProviderRep>, name: Seq<char>) -> int {
    choose|i: int| 0 <= i < ps.len() && (#[trigger] ps[i]).name == name
}

/// The provider with the given name.
pub open spec fn provider_at(ps: Seq<ProviderRep>, name: Seq<char>) -> ProviderRep {
    ps[provider_idx(ps, name)]
}

/// The providers of a version all have distinct names.
pub open spec fn providers_wf(ps: Seq<ProviderRep>) -> bool {
    forall|i: int, j: int|
        0 <= i < j < ps.len() ==> (#[trigger] ps[i]).name != (#[trigger] ps[j]).name
}

/// The versions of a box all have distinct labels, and each version's
/// providers have distinct names.
pub open spec fn versions_wf(vs: Seq<VersionRep>) -> bool {
    &&& forall|i: int, j: int|
        0 <= i < j < vs.len() ==> (#[trigger] vs[i]).version != (#[trigger] vs[j]).version
    &&& forall|i: int| 0 <= i < vs.len() ==> providers_wf((#[trigger] vs[i]).providers)
}

/// A single box representation is well formed.
pub open spec fn box_wf(bx: BoxRep) -> bool {
    versions_wf(bx.versions)
}

/// The registry is well formed: box keys are distinct and every box is
/// well formed.
pub open spec fn registry_wf(s: Seq<BoxRep>) -> bool {
    &&& forall|i: int, j: int|
        0 <= i < j < s.len() ==> !((#[trigger] s[i]).username == (#[trigger] s[j]).username
            && s[i].name == s[j].name)
    &&& forall|i: int| 0 <= i < s.len() ==> box_wf(#[trigger] s[i])
}

/// The box with its versions replaced; all other fields kept.
pub open spec fn set_versions(base: BoxRep, vs: Seq<VersionRep>) -> BoxRep {
    BoxRep { versions: vs, ..base }
}

/// The box with its descriptive fields replaced by the specification's;
/// identity, versions and all server-assigned fields kept.
pub open spec fn set_box_fields(base: BoxRep, b: BoxSpec) -> BoxRep {
    BoxRep {
        short_description: b.short_description,
        description_markdown: b.description,
        private: b.is_private,
        ..base
    }
}

/// The version with its providers replaced; all other fields kept.
pub open spec fn set_providers(base: VersionRep, ps: Seq<ProviderRep>) -> VersionRep {
    VersionRep { providers: ps, ..base }
}

/// The version with its lifecycle status replaced; all other fields kept.
pub open spec fn set_status(base: VersionRep, status: Seq<char>) -> VersionRep {
    VersionRep { status, ..base }
}

/// The version with its markdown description replaced; all other fields
/// kept.
pub open spec fn set_description(base: VersionRep, description: Seq<char>) -> VersionRep {
    VersionRep { description_markdown: Some(description), ..base }
}

/// The reported box carries exactly the specification's fields: the
/// identity key, the two descriptions (absent where the specification
/// leaves them absent) and the privacy flag.
pub open spec fn box_fields(rb: BoxRep, b: BoxSpec) -> bool {
    &&& rb.username == b.username
    &&& rb.name == b.name
    &&& rb.short_description == b.short_description
    &&& rb.description_markdown == b.description
    &&& rb.private == b.is_private
}

/// The two boxes agree on every field that neither an update nor a
/// version operation touches.
pub open spec fn box_rest_eq(a: BoxRep, b: BoxRep) -> bool {
    &&& a.tag == b.tag
    &&& a.downloads == b.downloads
    &&& a.created_at == b.created_at
    &&& a.updated_at == b.updated_at
    &&& a.description_html == b.description_html
    &&& a.current_version == b.current_version
}

/// A provider representation as the service reports it right after a
/// create call: named and externally hosted at the given URL.
pub open spec fn fresh_provider(rp: ProviderRep, p: ProviderSpec) -> bool {
    &&& rp.name == p.name
    &&& rp.original_url == Some(p.url)
    &&& !rp.hosted
    &&& rp.hosted_token is None
}

/// A version representation as the service reports it right after a
/// create call: labelled, described, unreleased and empty.
pub open spec fn fresh_version(rv: VersionRep, v: VersionSpec) -> bool {
    &&& rv.version == v.version
    &&& rv.description_markdown == Some(v.description)
    &&& rv.status == "unreleased"@
    &&& rv.providers == Seq::<ProviderRep>::empty()
}

/// When a box with the key exists, `box_idx` is a valid index of one.
pub proof fn lemma_box_idx_valid(s: Seq<BoxRep>, owner: Seq<char>, name: Seq<char>)
    requires
        has_box(s, owner, name),
    ensures
        0 <= box_idx(s, owner, name) < s.len(),
        box_keyed(box_at(s, owner, name), owner, name),
{
}

/// In a well-formed registry the box with a given key sits at a unique
/// index.
pub proof fn lemma_box_idx_unique(s: Seq<BoxRep>, owner: Seq<char>, name: Seq<char>, j: int)
    requires
        registry_wf(s),
        0 <= j < s.len(),
        box_keyed(s[j], owner, name),
    ensures
        has_box(s, owner, name),
        box_idx(s, owner, name) == j,
{
    assert(has_box(s, owner, name));
    lemma_box_idx_valid(s, owner, name);
    let i = box_idx(s, owner, name);
    if i != j {
        if i < j {
            assert(!(s[i].username == s[j].username && s[i].name == s[j].name));
        } else {
            assert(!(s[j].username == s[i].username && s[j].name == s[i].name));
        }
    }
}

/// When a version with the label exists, `version_idx` is a valid index
/// of one.
pub proof fn lemma_version_idx_valid(vs: Seq<VersionRep>, label: Seq<char>)
    requires
        has_version(vs, label),
    ensures
        0 <= version_idx(vs, label) < vs.len(),
        version_at(vs, label).version == label,
{
}

/// Among versions with distinct labels the version with a given label
/// sits at a unique index.
pub proof fn lemma_version_idx_unique(vs: Seq<VersionRep>, label: Seq<char>, j: int)
    requires
        versions_wf(vs),
        0 <= j < vs.len(),
        vs[j].version == label,
    ensures
        has_version(vs, label),
        version_idx(vs, label) == j,
{
    assert(has_version(vs, label));
    lemma_version_idx_valid(vs, label);
    let i = version_idx(vs, label);
    if i < j {
        assert(vs[i].version != vs[j].version);
    } else if j < i {
        assert(vs[j].version != vs[i].version);
    }
}

/// When a provider with the name exists, `provider_idx` is a valid index
/// of one.
pub proof fn lemma_provider_idx_valid(ps: Seq<ProviderRep>, name: Seq<char>)
    requires
        has_provider(ps, name),
    ensures
        0 <= provider_idx(ps, name) < ps.len(),
        provider_at(ps, name).name == name,
{
}

/// Among providers with distinct names the provider with a given name
/// sits at a unique index.
pub proof fn lemma_provider_idx_unique(ps: Seq<ProviderRep>, name: Seq<char>, j: int)
    requires
        providers_wf(ps),
        0 <= j < ps.len(),
        ps[j].name == name,
    ensures
        has_provider(ps, name),
        provider_idx(ps, name) == j,
{
    assert(has_provider(ps, name));
    lemma_provider_idx_valid(ps, name);
    let i = provider_idx(ps, name);
    if i < j {
        assert(ps[i].name != ps[j].name);
    } else if j < i {
        assert(ps[j].name != ps[i].name);
    }
}

/// Replacing a box with one of the same key keeps the registry well
/// formed.
pub proof fn lemma_registry_wf_update(s: Seq<BoxRep>, i: int, bx: BoxRep)
    requires
        registry_wf(s),
        0 <= i < s.len(),
        bx.username == s[i].username,
        bx.name == s[i].name,
        box_wf(bx),
    ensures
        registry_wf(s.update(i, bx)),
{
}

/// Appending a box with a new key keeps the registry well formed.
pub proof fn lemma_registry_wf_push(s: Seq<BoxRep>, bx: BoxRep)
    requires
        registry_wf(s),
        !has_box(s, bx.username, bx.name),
        box_wf(bx),
    ensures
        registry_wf(s.push(bx)),
{
    let s1 = s.push(bx);
    assert forall|i: int, j: int| 0 <= i < j < s1.len() implies !((#[trigger] s1[i]).username
        == (#[trigger] s1[j]).username && s1[i].name == s1[j].name) by {
        if j == s.len() {
            assert(s1[i] == s[i]);
            if s[i].username == bx.username && s[i].name == bx.name {
                assert(box_keyed(s[i], bx.username, bx.name));
                assert(has_box(s, bx.username, bx.name));
            }
        }
    }
}

/// Removing a box keeps the registry well formed.
pub proof fn lemma_registry_wf_remove(s: Seq<BoxRep>, i: int)
    requires
        registry_wf(s),
        0 <= i < s.len(),
    ensures
        registry_wf(s.remove(i)),
{
    let s1 = s.remove(i);
    assert forall|a: int, b: int| 0 <= a < b < s1.len() implies !((#[trigger] s1[a]).username
        == (#[trigger] s1[b]).username && s1[a].name == s1[b].name) by {
        let a0 = if a < i { a } else { a + 1 };
        let b0 = if b < i { b } else { b + 1 };
        assert(s1[a] == s[a0]);
        assert(s1[b] == s[b0]);
    }
    assert forall|a: int| 0 <= a < s1.len() implies box_wf(#[trigger] s1[a]) by {
        let a0 = if a < i { a } else { a + 1 };
        assert(s1[a] == s[a0]);
    }
}

/// Replacing a version with one of the same label whose providers are
/// well formed keeps the versions well formed.
pub proof fn lemma_versions_wf_update(vs: Seq<VersionRep>, i: int, v: VersionRep)
    requires
        versions_wf(vs),
        0 <= i < vs.len(),
        v.version == vs[i].version,
        providers_wf(v.providers),
    ensures
        versions_wf(vs.update(i, v)),
{
}

/// Removing a version keeps the versions well formed.
pub proof fn lemma_versions_wf_remove(vs: Seq<VersionRep>, i: int)
    requires
        versions_wf(vs),
        0 <= i < vs.len(),
    ensures
        versions_wf(vs.remove(i)),
{
    let vs1 = vs.remove(i);
    assert forall|a: int, b: int| 0 <= a < b < vs1.len() implies (#[trigger] vs1[a]).version
        != (#[trigger] vs1[b]).version by {
        let a0 = if a < i { a } else { a + 1 };
        let b0 = if b < i { b } else { b + 1 };
        assert(vs1[a] == vs[a0]);
        assert(vs1[b] == vs[b0]);
    }
    assert forall|a: int| 0 <= a < vs1.len() implies providers_wf(
        (#[trigger] vs1[a]).providers,
    ) by {
        let a0 = if a < i { a } else { a + 1 };
        assert(vs1[a] == vs[a0]);
    }
}

/// Prepending a version with a new label whose providers are well formed
/// keeps the versions well formed.
pub proof fn lemma_versions_wf_prepend(vs: Seq<VersionRep>, v: VersionRep)
    requires
        versions_wf(vs),
        !has_version(vs, v.version),
        providers_wf(v.providers),
    ensures
        versions_wf(seq![v] + vs),
{
    let vs1 = seq![v] + vs;
    assert forall|a: int, b: int| 0 <= a < b < vs1.len() implies (#[trigger] vs1[a]).version
        != (#[trigger] vs1[b]).version by {
        if a == 0 {
            assert(vs1[b] == vs[b - 1]);
            if v.version == vs[b - 1].version {
                assert(has_version(vs, v.version));
            }
        } else {
            assert(vs1[a] == vs[a - 1]);
            assert(vs1[b] == vs[b - 1]);
        }
    }
    assert forall|a: int| 0 <= a < vs1.len() implies providers_wf(
        (#[trigger] vs1[a]).providers,
    ) by {
        if a > 0 {
            assert(vs1[a] == vs[a - 1]);
        }
    }
}

/// Extending a scanned prefix by one version finds the label there iff
/// the prefix had it or the new version carries it.
pub proof fn lemma_has_version_take_succ(vs: Seq<VersionRep>, label: Seq<char>, i: int)
    requires
        0 <= i < vs.len(),
    ensures
        has_version(vs.take(i + 1), label) == (has_version(vs.take(i), label) || vs[i].version
            == label),
{
    if has_version(vs.take(i + 1), label) {
        let k = choose|k: int|
            0 <= k < vs.take(i + 1).len() && (#[trigger] vs.take(i + 1)[k]).version == label;
        if k < i {
            assert(vs.take(i)[k].version == label);
        } else {
            assert(vs[i].version == label);
        }
    }
    if has_version(vs.take(i), label) {
        let k = choose|k: int|
            0 <= k < vs.take(i).len() && (#[trigger] vs.take(i)[k]).version == label;
        assert(vs.take(i + 1)[k].version == label);
    }
    if vs[i].version == label {
        assert(vs.take(i + 1)[i].version == label);
    }
}

/// Appending a provider with a new name keeps the providers well formed.
pub proof fn lemma_providers_wf_push(ps: Seq<ProviderRep>, p: ProviderRep)
    requires
        providers_wf(ps),
        !has_provider(ps, p.name),
    ensures
        providers_wf(ps.push(p)),
{
    let ps1 = ps.push(p);
    assert forall|a: int, b: int| 0 <= a < b < ps1.len() implies (#[trigger] ps1[a]).name
        != (#[trigger] ps1[b]).name by {
        if b == ps.len() {
            assert(ps1[a] == ps[a]);
            if ps[a].name == p.name {
                assert(has_provider(ps, p.name));
            }
        }
    }
}

/// Replacing a provider with one of the same name keeps the providers
/// well formed.
pub proof fn lemma_providers_wf_update(ps: Seq<ProviderRep>, i: int, p: ProviderRep)
    requires
        providers_wf(ps),
        0 <= i < ps.len(),
        p.name == ps[i].name,
    ensures
        providers_wf(ps.update(i, p)),
{
}

/// Removing a provider keeps the providers well formed.
pub proof fn lemma_providers_wf_remove(ps: Seq<ProviderRep>, i: int)
    requires
        providers_wf(ps),
        0 <= i < ps.len(),
    ensures
        providers_wf(ps.remove(i)),
{
    let ps1 = ps.remove(i);
    assert forall|a: int, b: int| 0 <= a < b < ps1.len() implies (#[trigger] ps1[a]).name
        != (#[trigger] ps1[b]).name by {
        let a0 = if a < i { a } else { a + 1 };
        let b0 = if b < i { b } else { b + 1 };
        assert(ps1[a] == ps[a0]);
        assert(ps1[b] == ps[b0]);
    }
}

/// Index of the first reported box carrying the given identity key.
pub fn find_box_index(bs: &Vec<api::VagrantBox>, username: &String, name: &String) -> (r: Option<
    usize,
>)
    ensures
        match r {
            Some(j) => j < bs.len() && box_keyed(
                api::boxes_view(bs@)[j as int],
                username@,
                name@,
            ),
            None => !has_box(api::boxes_view(bs@), username@, name@),
        },
{
    let mut j: usize = 0;
    while j < bs.len()
        invariant
            j <= bs.len(),
            forall|k: int|
                0 <= k < j ==> !box_keyed(#[trigger] api::boxes_view(bs@)[k], username@, name@),
        decreases bs.len() - j,
    {
        if bs[j].username == *username && bs[j].name == *name {
            return Some(j);
        }
        j += 1;
    }
    None
}

/// Index of the first reported version carrying the given label.
pub fn find_version_index(vs: &Vec<api::Version>, label: &String) -> (r: Option<usize>)
    ensures
        match r {
            Some(j) => j < vs.len() && api::versions_view(vs@)[j as int].version == label@,
            None => !has_version(api::versions_view(vs@), label@),
        },
{
    let mut j: usize = 0;
    while j < vs.len()
        invariant
            j <= vs.len(),
            forall|k: int|
                0 <= k < j ==> (#[trigger] api::versions_view(vs@)[k]).version != label@,
        decreases vs.len() - j,
    {
        if vs[j].version == *label {
            return Some(j);
        }
        j += 1;
    }
    None
}

/// Index of the first reported provider carrying the given name.
pub fn find_provider_index(ps: &Vec<api::Provider>, name: &String) -> (r: Option<usize>)
    ensures
        match r {
            Some(j) => j < ps.len() && api::providers_view(ps@)[j as int].name == name@,
            None => !has_provider(api::providers_view(ps@), name@),
        },
{
    let mut j: usize = 0;
    while j < ps.len()
        invariant
            j <= ps.len(),
            forall|k: int| 0 <= k < j ==> (#[trigger] api::providers_view(ps@)[k]).name != name@,
        decreases ps.len() - j,
    {
        if ps[j].name == *name {
            return Some(j);
        }
        j += 1;
    }
    None
}

/// Effect of a successful box read on the (unchanged) registry `s`.
pub open spec fn read_box_post(s: Seq<BoxRep>, b: BoxSpec, rep: BoxRep) -> bool {
    &&& has_box(s, b.username, b.name)
    &&& rep == box_at(s, b.username, b.name)
}

/// Effect of a successful box create: the box was absent and is appended
/// with the desired fields and no versions.
pub open spec fn create_box_post(s0: Seq<BoxRep>, s1: Seq<BoxRep>, b: BoxSpec, rep: BoxRep) -> bool {
    &&& !has_box(s0, b.username, b.name)
    &&& s1 == s0.push(rep)
    &&& box_fields(rep, b)
    &&& rep.versions == Seq::<VersionRep>::empty()
    &&& rep.current_version is None
}

/// Effect of a successful box delete: the box existed and is removed.
pub open spec fn delete_box_post(s0: Seq<BoxRep>, s1: Seq<BoxRep>, b: BoxSpec, rep: BoxRep) -> bool {
    &&& has_box(s0, b.username, b.name)
    &&& rep == box_at(s0, b.username, b.name)
    &&& s1 == s0.remove(box_idx(s0, b.username, b.name))
}

/// Effect of a successful box update: the box existed and its descriptive
/// fields are replaced; identity, versions and server-assigned fields
/// stay.
pub open spec fn update_box_post(s0: Seq<BoxRep>, s1: Seq<BoxRep>, b: BoxSpec, rep: BoxRep) -> bool {
    &&& has_box(s0, b.username, b.name)
    &&& rep == set_box_fields(box_at(s0, b.username, b.name), b)
    &&& s1 == s0.update(box_idx(s0, b.username, b.name), rep)
}

/// Effect of a successful version create: the label was absent under the
/// existing box, and the fresh version is listed first.
pub open spec fn create_version_post(
    s0: Seq<BoxRep>,
    s1: Seq<BoxRep>,
    b: BoxSpec,
    v: VersionSpec,
    rep: VersionRep,
) -> bool {
    let base = box_at(s0, b.username, b.name);
    &&& has_box(s0, b.username, b.name)
    &&& !has_version(base.versions, v.version)
    &&& fresh_version(rep, v)
    &&& s1 == s0.update(box_idx(s0, b.username, b.name), set_versions(base, seq![rep] + base.versions))
}

/// Effect of a successful version read on the (unchanged) registry `s`.
pub open spec fn read_version_post(s: Seq<BoxRep>, b: BoxSpec, v: VersionSpec, rep: VersionRep) -> bool {
    let base = box_at(s, b.username, b.name);
    &&& has_box(s, b.username, b.name)
    &&& has_version(base.versions, v.version)
    &&& rep == version_at(base.versions, v.version)
}

/// Effect of a successful version delete: the version existed and is
/// removed with its providers.
pub open spec fn delete_version_post(
    s0: Seq<BoxRep>,
    s1: Seq<BoxRep>,
    b: BoxSpec,
    v: VersionSpec,
    rep: VersionRep,
) -> bool {
    let base = box_at(s0, b.username, b.name);
    &&& has_box(s0, b.username, b.name)
    &&& has_version(base.versions, v.version)
    &&& rep == version_at(base.versions, v.version)
    &&& s1 == s0.update(
        box_idx(s0, b.username, b.name),
        set_versions(base, base.versions.remove(version_idx(base.versions, v.version))),
    )
}

/// Effect of a successful version update: the description of the
/// existing version is replaced.
pub open spec fn update_version_post(
    s0: Seq<BoxRep>,
    s1: Seq<BoxRep>,
    b: BoxSpec,
    v: VersionSpec,
    rep: VersionRep,
) -> bool {
    let base = box_at(s0, b.username, b.name);
    &&& has_box(s0, b.username, b.name)
    &&& has_version(base.versions, v.version)
    &&& rep == set_description(version_at(base.versions, v.version), v.description)
    &&& s1 == s0.update(
        box_idx(s0, b.username, b.name),
        set_versions(base, base.versions.update(version_idx(base.versions, v.version), rep)),
    )
}

/// Effect of a successful release: the status of the existing version
/// becomes active; everything else stays.
pub open spec fn release_version_post(
    s0: Seq<BoxRep>,
    s1: Seq<BoxRep>,
    b: BoxSpec,
    v: VersionSpec,
    rep: VersionRep,
) -> bool {
    let base = box_at(s0, b.username, b.name);
    &&& has_box(s0, b.username, b.name)
    &&& has_version(base.versions, v.version)
    &&& rep == set_status(version_at(base.versions, v.version), "active"@)
    &&& s1 == s0.update(
        box_idx(s0, b.username, b.name),
        set_versions(base, base.versions.update(version_idx(base.versions, v.version), rep)),
    )
}

/// Effect of a successful provider create: the name was absent under the
/// existing version, and a fresh provider is appended to it.
pub open spec fn create_provider_post(
    s0: Seq<BoxRep>,
    s1: Seq<BoxRep>,
    b: BoxSpec,
    v: VersionSpec,
    p: ProviderSpec,
    rep: ProviderRep,
) -> bool {
    let base = box_at(s0, b.username, b.name);
    let tv = version_at(base.versions, v.version);
    &&& has_box(s0, b.username, b.name)
    &&& has_version(base.versions, v.version)
    &&& !has_provider(tv.providers, p.name)
    &&& fresh_provider(rep, p)
    &&& s1 == s0.update(
        box_idx(s0, b.username, b.name),
        set_versions(
            base,
            base.versions.update(
                version_idx(base.versions, v.version),
                set_providers(tv, tv.providers.push(rep)),
            ),
        ),
    )
}

/// Effect of a successful provider update: the existing provider of that
/// name is replaced by one hosted externally at the desired URL.
pub open spec fn update_provider_post(
    s0: Seq<BoxRep>,
    s1: Seq<BoxRep>,
    b: BoxSpec,
    v: VersionSpec,
    p: ProviderSpec,
    rep: ProviderRep,
) -> bool {
    let base = box_at(s0, b.username, b.name);
    let tv = version_at(base.versions, v.version);
    &&& has_box(s0, b.username, b.name)
    &&& has_version(base.versions, v.version)
    &&& has_provider(tv.providers, p.name)
    &&& fresh_provider(rep, p)
    &&& s1 == s0.update(
        box_idx(s0, b.username, b.name),
        set_versions(
            base,
            base.versions.update(
                version_idx(base.versions, v.version),
                set_providers(tv, tv.providers.update(provider_idx(tv.providers, p.name), rep)),
            ),
        ),
    )
}

/// Effect of a successful provider delete: the existing provider of that
/// name is removed; the version and the box stay.
pub open spec fn delete_provider_post(
    s0: Seq<BoxRep>,
    s1: Seq<BoxRep>,
    b: BoxSpec,
    v: VersionSpec,
    p: ProviderSpec,
    rep: ProviderRep,
) -> bool {
    let base = box_at(s0, b.username, b.name);
    let tv = version_at(base.versions, v.version);
    &&& has_box(s0, b.username, b.name)
    &&& has_version(base.versions, v.version)
    &&& has_provider(tv.providers, p.name)
    &&& rep == provider_at(tv.providers, p.name)
    &&& s1 == s0.update(
        box_idx(s0, b.username, b.name),
        set_versions(
            base,
            base.versions.update(
                version_idx(base.versions, v.version),
                set_providers(tv, tv.providers.remove(provider_idx(tv.providers, p.name))),
            ),
        ),
    )
}

/// Interface of the remote resource service the reconciler depends on.
///
/// `boxes` is the modelled registry state.  Every method is specified by
/// its effect on that state; where the service refuses a call, the state
/// is unchanged.  An optional bearer token accompanies every call; a
/// service is free to refuse unauthenticated calls, which shows up as an
/// `Err` result.  Nothing here promises that a call succeeds: the remote
/// service is the authority on validity, and every failure is surfaced.
pub trait VagrantCloud: Sized {
    /// The registry state this service currently holds.  The default is
    /// an unconstrained state; a service with a meaningful model
    /// provides its own.
    open spec fn boxes(&self) -> Seq<BoxRep> {
        vstd::pervasive::arbitrary()
    }

    /// Read one box, including every version and provider under it.
    fn read_box(&self, token: &Option<String>, vagrant_box: &VagrantBox) -> (r: Result<
        api::VagrantBox,
        Error,
    >)
        requires
            registry_wf(self.boxes()),
        ensures
            match r {
                Ok(rep) => read_box_post(self.boxes(), vagrant_box@, rep@),
                Err(_) => true,
            },
    ;

    /// Create a box that does not exist yet; the fresh box carries the
    /// specification's fields and no versions.
    fn create_box(&mut self, token: &Option<String>, vagrant_box: &VagrantBox) -> (r: Result<
        api::VagrantBox,
        Error,
    >)
        requires
            registry_wf(old(self).boxes()),
        ensures
            registry_wf(final(self).boxes()),
            match r {
                Ok(rep) => create_box_post(old(self).boxes(), final(self).boxes(), vagrant_box@, rep@),
                Err(_) => final(self).boxes() == old(self).boxes(),
            },
    ;

    /// Delete one box with everything under it.
    fn delete_box(&mut self, token: &Option<String>, vagrant_box: &VagrantBox) -> (r: Result<
        api::VagrantBox,
        Error,
    >)
        requires
            registry_wf(old(self).boxes()),
        ensures
            registry_wf(final(self).boxes()),
            match r {
                Ok(rep) => delete_box_post(old(self).boxes(), final(self).boxes(), vagrant_box@, rep@),
                Err(_) => final(self).boxes() == old(self).boxes(),
            },
    ;

    /// Update the descriptive fields of an existing box; its identity,
    /// versions and server-assigned fields stay.
    fn update_box(&mut self, token: &Option<String>, vagrant_box: &VagrantBox) -> (r: Result<
        api::VagrantBox,
        Error,
    >)
        requires
            registry_wf(old(self).boxes()),
        ensures
            registry_wf(final(self).boxes()),
            match r {
                Ok(rep) => update_box_post(old(self).boxes(), final(self).boxes(), vagrant_box@, rep@),
                Err(_) => final(self).boxes() == old(self).boxes(),
            },
    ;

    /// Create a version that does not exist yet under an existing box;
    /// the service lists the fresh version first.
    fn create_version(
        &mut self,
        token: &Option<String>,
        vagrant_box: &VagrantBox,
        box_version: &BoxVersion,
    ) -> (r: Result<api::Version, Error>)
        requires
            registry_wf(old(self).boxes()),
        ensures
            registry_wf(final(self).boxes()),
            match r {
                Ok(rep) => create_version_post(
                    old(self).boxes(),
                    final(self).boxes(),
                    vagrant_box@,
                    box_version@,
                    rep@,
                ),
                Err(_) => final(self).boxes() == old(self).boxes(),
            },
    ;

    /// Read one version of a box.
    fn read_version(
        &self,
        token: &Option<String>,
        vagrant_box: &VagrantBox,
        box_version: &BoxVersion,
    ) -> (r: Result<api::Version, Error>)
        requires
            registry_wf(self.boxes()),
        ensures
            match r {
                Ok(rep) => read_version_post(self.boxes(), vagrant_box@, box_version@, rep@),
                Err(_) => true,
            },
    ;

    /// Delete one version of a box with its providers.
    fn delete_version(
        &mut self,
        token: &Option<String>,
        vagrant_box: &VagrantBox,
        box_version: &BoxVersion,
    ) -> (r: Result<api::Version, Error>)
        requires
            registry_wf(old(self).boxes()),
        ensures
            registry_wf(final(self).boxes()),
            match r {
                Ok(rep) => delete_version_post(
                    old(self).boxes(),
                    final(self).boxes(),
                    vagrant_box@,
                    box_version@,
                    rep@,
                ),
                Err(_) => final(self).boxes() == old(self).boxes(),
            },
    ;

    /// Replace the description of an existing version.
    fn update_version(
        &mut self,
        token: &Option<String>,
        vagrant_box: &VagrantBox,
        box_version: &BoxVersion,
    ) -> (r: Result<api::Version, Error>)
        requires
            registry_wf(old(self).boxes()),
        ensures
            registry_wf(final(self).boxes()),
            match r {
                Ok(rep) => update_version_post(
                    old(self).boxes(),
                    final(self).boxes(),
                    vagrant_box@,
                    box_version@,
                    rep@,
                ),
                Err(_) => final(self).boxes() == old(self).boxes(),
            },
    ;

    /// Mark an existing version as the active, consumable one.  Releasing
    /// an already released version is accepted.
    fn release_version(
        &mut self,
        token: &Option<String>,
        vagrant_box: &VagrantBox,
        box_version: &BoxVersion,
    ) -> (r: Result<api::Version, Error>)
        requires
            registry_wf(old(self).boxes()),
        ensures
            registry_wf(final(self).boxes()),
            match r {
                Ok(rep) => release_version_post(
                    old(self).boxes(),
                    final(self).boxes(),
                    vagrant_box@,
                    box_version@,
                    rep@,
                ),
                Err(_) => final(self).boxes() == old(self).boxes(),
            },
    ;

    /// Create a provider that does not exist yet under an existing
    /// version; the fresh provider is externally hosted at the given URL.
    fn create_provider(
        &mut self,
        token: &Option<String>,
        vagrant_box: &VagrantBox,
        box_version: &BoxVersion,
        box_provider: &BoxProvider,
    ) -> (r: Result<api::Provider, Error>)
        requires
            registry_wf(old(self).boxes()),
        ensures
            registry_wf(final(self).boxes()),
            match r {
                Ok(rep) => create_provider_post(
                    old(self).boxes(),
                    final(self).boxes(),
                    vagrant_box@,
                    box_version@,
                    box_provider@,
                    rep@,
                ),
                Err(_) => final(self).boxes() == old(self).boxes(),
            },
    ;

    /// Point an existing provider at the given URL.
    fn update_provider(
        &mut self,
        token: &Option<String>,
        vagrant_box: &VagrantBox,
        box_version: &BoxVersion,
        box_provider: &BoxProvider,
    ) -> (r: Result<api::Provider, Error>)
        requires
            registry_wf(old(self).boxes()),
        ensures
            registry_wf(final(self).boxes()),
            match r {
                Ok(rep) => update_provider_post(
                    old(self).boxes(),
                    final(self).boxes(),
                    vagrant_box@,
                    box_version@,
                    box_provider@,
                    rep@,
                ),
                Err(_) => final(self).boxes() == old(self).boxes(),
            },
    ;

    /// Delete one provider of a version; the version and the box stay.
    fn delete_provider(
        &mut self,
        token: &Option<String>,
        vagrant_box: &VagrantBox,
        box_version: &BoxVersion,
        box_provider: &BoxProvider,
    ) -> (r: Result<api::Provider, Error>)
        requires
            registry_wf(old(self).boxes()),
        ensures
            registry_wf(final(self).boxes()),
            match r {
                Ok(rep) => delete_provider_post(
                    old(self).boxes(),
                    final(self).boxes(),
                    vagrant_box@,
                    box_version@,
                    box_provider@,
                    rep@,
                ),
                Err(_) => final(self).boxes() == old(self).boxes(),
            },
    ;
}

} // verus!
