//! # vagabond - a client library for a box-hosting registry
//!
//! The registry hosts three nested resources: boxes, versions of a box,
//! and providers of a version.  This crate offers typed request and
//! response models, equivalence predicates between desired and reported
//! state, and a reconciliation helper, [`Client::ensure_provider_present`],
//! that creates or updates a full box/version/provider hierarchy in one
//! call.
//!
//! All access goes through a [`Client`], which is built over any remote
//! service that implements [`cloud::VagrantCloud`].  The crate ships a
//! verified in-memory service, [`memory::InMemoryCloud`], against which
//! every property of the reconciler can be exercised; an HTTP-backed
//! service lives outside the verified core.
//!
//! Note on concurrency: the client performs no compare-and-swap and holds
//! no lock, so two reconciliations running against the same box race;
//! the last writer wins at the remote.

use vstd::prelude::*;

pub mod api;
pub mod cloud;
pub mod errors;
pub mod laws;
pub mod memory;
pub mod reconcile;

use api::{ProviderRep, VersionRep};
use cloud::{
    box_at, box_keyed, box_rest_eq, has_box, has_provider, has_version, lemma_box_idx_valid,
    lemma_has_version_take_succ, lemma_provider_idx_unique, lemma_version_idx_unique,
    lemma_version_idx_valid, provider_idx, set_providers, set_status, set_versions, version_at,
    versions_wf,
};
use errors::{Error, NOT_FOUND};
use reconcile::{
    lemma_put_step, lemma_transform_retarget, lemma_transform_tv1_irrelevant, put_box,
    transform_all,
};

verus! {

/// Ghost view of a desired provider specification.
pub struct ProviderSpec {
    pub name: Seq<char>,
    pub url: Seq<char>,
}

/// Ghost view of a desired version specification.
pub struct VersionSpec {
    pub version: Seq<char>,
    pub description: Seq<char>,
}

/// Ghost view of a desired box specification.
pub struct BoxSpec {
    pub username: Seq<char>,
    pub name: Seq<char>,
    pub short_description: Option<Seq<char>>,
    pub description: Option<Seq<char>>,
    pub is_private: Option<bool>,
}

/// Desired state of a provider for a box on the registry.
///
/// A `BoxProvider` represents the downloadable artifact for a specific
/// virtualization environment, e.g. virtualbox or libvirt.
#[derive(Debug)]
pub struct BoxProvider {
    /// The name of the provider (e.g. libvirt, virtualbox)
    pub name: String,
    /// A valid URL to download this provider.
    pub url: String,
}

/// Desired state of a version of a box.
#[derive(Debug)]
pub struct BoxVersion {
    /// The version label of this version.
    pub version: String,
    /// A description for this version. Can be formatted with Markdown.
    pub description: String,
}

/// Desired state of a box.
#[derive(Debug)]
pub struct VagrantBox {
    /// The username of the organization that will own this box
    pub username: String,
    /// The name of the box
    pub name: String,
    /// A short summary of the box
    pub short_description: Option<String>,
    /// A longer description of the box. Can be formatted with Markdown.
    pub description: Option<String>,
    /// Whether or not this box is private.
    pub is_private: Option<bool>,
}

impl View for BoxProvider {
    type V = ProviderSpec;

    open spec fn view(&self) -> ProviderSpec {
        ProviderSpec { name: self.name@, url: self.url@ }
    }
}

impl View for BoxVersion {
    type V = VersionSpec;

    open spec fn view(&self) -> VersionSpec {
        VersionSpec { version: self.version@, description: self.description@ }
    }
}

impl View for VagrantBox {
    type V = BoxSpec;

    open spec fn view(&self) -> BoxSpec {
        BoxSpec {
            username: self.username@,
            name: self.name@,
            short_description: self.short_description.deep_view(),
            description: self.description.deep_view(),
            is_private: self.is_private,
        }
    }
}

impl VagrantBox {
    /// A box specification that holds only the identity key; all
    /// descriptive fields are left unset.
    pub fn new(username: String, box_name: String) -> (b: VagrantBox)
        ensures
            b@ == (BoxSpec {
                username: username@,
                name: box_name@,
                short_description: None,
                description: None,
                is_private: None,
            }),
    {
        VagrantBox {
            username,
            name: box_name,
            short_description: None,
            description: None,
            is_private: None,
        }
    }
}

/// Client for communication with a remote box-hosting registry.
///
/// The client holds the remote service it talks through and an optional
/// API token, which is passed along with every call.  Some operations do
/// not work without a token; the client does not prevent them, the
/// service reports an error instead.
#[derive(Debug)]
pub struct Client<C: cloud::VagrantCloud> {
    /// The remote service every call goes through.
    pub service: C,
    /// The optional bearer token attached to every call.
    pub token: Option<String>,
}

impl<C: cloud::VagrantCloud> Client<C> {
    /// Create a new client over the given remote service.
    ///
    /// `token` is the optional API token; without one, calls are made
    /// unauthenticated and fail remotely where the endpoint requires
    /// authentication.
    pub fn new(service: C, token: Option<String>) -> (c: Client<C>)
        ensures
            c.service == service,
            c.token == token,
    {
        Client { service, token }
    }

    /// Create a new box from the given specification.
    pub fn create_box(&mut self, vagrant_box: &VagrantBox) -> (r: Result<api::VagrantBox, Error>)
        requires
            cloud::registry_wf(old(self).service.boxes()),
        ensures
            cloud::registry_wf(final(self).service.boxes()),
            final(self).token == old(self).token,
            match r {
                Ok(rep) => cloud::create_box_post(
                    old(self).service.boxes(),
                    final(self).service.boxes(),
                    vagrant_box@,
                    rep@,
                ),
                Err(_) => final(self).service.boxes() == old(self).service.boxes(),
            },
    {
        self.service.create_box(&self.token, vagrant_box)
    }

    /// Delete a box with everything under it.
    pub fn delete_box(&mut self, vagrant_box: &VagrantBox) -> (r: Result<api::VagrantBox, Error>)
        requires
            cloud::registry_wf(old(self).service.boxes()),
        ensures
            cloud::registry_wf(final(self).service.boxes()),
            final(self).token == old(self).token,
            match r {
                Ok(rep) => cloud::delete_box_post(
                    old(self).service.boxes(),
                    final(self).service.boxes(),
                    vagrant_box@,
                    rep@,
                ),
                Err(_) => final(self).service.boxes() == old(self).service.boxes(),
            },
    {
        self.service.delete_box(&self.token, vagrant_box)
    }

    /// Read a box, including every version and provider under it.
    pub fn read_box(&self, vagrant_box: &VagrantBox) -> (r: Result<api::VagrantBox, Error>)
        requires
            cloud::registry_wf(self.service.boxes()),
        ensures
            match r {
                Ok(rep) => cloud::read_box_post(self.service.boxes(), vagrant_box@, rep@),
                Err(_) => true,
            },
    {
        self.service.read_box(&self.token, vagrant_box)
    }

    /// Update the descriptive fields of an existing box.
    pub fn update_box(&mut self, vagrant_box: &VagrantBox) -> (r: Result<api::VagrantBox, Error>)
        requires
            cloud::registry_wf(old(self).service.boxes()),
        ensures
            cloud::registry_wf(final(self).service.boxes()),
            final(self).token == old(self).token,
            match r {
                Ok(rep) => cloud::update_box_post(
                    old(self).service.boxes(),
                    final(self).service.boxes(),
                    vagrant_box@,
                    rep@,
                ),
                Err(_) => final(self).service.boxes() == old(self).service.boxes(),
            },
    {
        self.service.update_box(&self.token, vagrant_box)
    }

    /// Create a version under an existing box.
    ///
    /// The box already needs to exist on the registry, otherwise the
    /// call fails.
    pub fn create_version(&mut self, vagrant_box: &VagrantBox, box_version: &BoxVersion) -> (r:
        Result<api::Version, Error>)
        requires
            cloud::registry_wf(old(self).service.boxes()),
        ensures
            cloud::registry_wf(final(self).service.boxes()),
            final(self).token == old(self).token,
            match r {
                Ok(rep) => cloud::create_version_post(
                    old(self).service.boxes(),
                    final(self).service.boxes(),
                    vagrant_box@,
                    box_version@,
                    rep@,
                ),
                Err(_) => final(self).service.boxes() == old(self).service.boxes(),
            },
    {
        self.service.create_version(&self.token, vagrant_box, box_version)
    }

    /// Read a version of a box.
    pub fn read_version(&self, vagrant_box: &VagrantBox, box_version: &BoxVersion) -> (r: Result<
        api::Version,
        Error,
    >)
        requires
            cloud::registry_wf(self.service.boxes()),
        ensures
            match r {
                Ok(rep) => cloud::read_version_post(
                    self.service.boxes(),
                    vagrant_box@,
                    box_version@,
                    rep@,
                ),
                Err(_) => true,
            },
    {
        self.service.read_version(&self.token, vagrant_box, box_version)
    }

    /// Delete a version of a box with its providers.
    pub fn delete_version(&mut self, vagrant_box: &VagrantBox, box_version: &BoxVersion) -> (r:
        Result<api::Version, Error>)
        requires
            cloud::registry_wf(old(self).service.boxes()),
        ensures
            cloud::registry_wf(final(self).service.boxes()),
            final(self).token == old(self).token,
            match r {
                Ok(rep) => cloud::delete_version_post(
                    old(self).service.boxes(),
                    final(self).service.boxes(),
                    vagrant_box@,
                    box_version@,
                    rep@,
                ),
                Err(_) => final(self).service.boxes() == old(self).service.boxes(),
            },
    {
        self.service.delete_version(&self.token, vagrant_box, box_version)
    }

    /// Replace the description of an existing version.
    pub fn update_version(&mut self, vagrant_box: &VagrantBox, box_version: &BoxVersion) -> (r:
        Result<api::Version, Error>)
        requires
            cloud::registry_wf(old(self).service.boxes()),
        ensures
            cloud::registry_wf(final(self).service.boxes()),
            final(self).token == old(self).token,
            match r {
                Ok(rep) => cloud::update_version_post(
                    old(self).service.boxes(),
                    final(self).service.boxes(),
                    vagrant_box@,
                    box_version@,
                    rep@,
                ),
                Err(_) => final(self).service.boxes() == old(self).service.boxes(),
            },
    {
        self.service.update_version(&self.token, vagrant_box, box_version)
    }

    /// Release a version: mark it as the active, consumable one.
    ///
    /// Releasing an already released version is accepted by the registry
    /// and not treated as an error by this layer.
    pub fn release_version(&mut self, vagrant_box: &VagrantBox, box_version: &BoxVersion) -> (r:
        Result<api::Version, Error>)
        requires
            cloud::registry_wf(old(self).service.boxes()),
        ensures
            cloud::registry_wf(final(self).service.boxes()),
            final(self).token == old(self).token,
            match r {
                Ok(rep) => cloud::release_version_post(
                    old(self).service.boxes(),
                    final(self).service.boxes(),
                    vagrant_box@,
                    box_version@,
                    rep@,
                ),
                Err(_) => final(self).service.boxes() == old(self).service.boxes(),
            },
    {
        self.service.release_version(&self.token, vagrant_box, box_version)
    }

    /// Create a provider under an existing version.
    ///
    /// The box and the version already need to exist on the registry,
    /// otherwise the call fails.
    pub fn create_provider(
        &mut self,
        vagrant_box: &VagrantBox,
        box_version: &BoxVersion,
        box_provider: &BoxProvider,
    ) -> (r: Result<api::Provider, Error>)
        requires
            cloud::registry_wf(old(self).service.boxes()),
        ensures
            cloud::registry_wf(final(self).service.boxes()),
            final(self).token == old(self).token,
            match r {
                Ok(rep) => cloud::create_provider_post(
                    old(self).service.boxes(),
                    final(self).service.boxes(),
                    vagrant_box@,
                    box_version@,
                    box_provider@,
                    rep@,
                ),
                Err(_) => final(self).service.boxes() == old(self).service.boxes(),
            },
    {
        self.service.create_provider(&self.token, vagrant_box, box_version, box_provider)
    }

    /// Point an existing provider at the specification's URL.
    pub fn update_provider(
        &mut self,
        vagrant_box: &VagrantBox,
        box_version: &BoxVersion,
        box_provider: &BoxProvider,
    ) -> (r: Result<api::Provider, Error>)
        requires
            cloud::registry_wf(old(self).service.boxes()),
        ensures
            cloud::registry_wf(final(self).service.boxes()),
            final(self).token == old(self).token,
            match r {
                Ok(rep) => cloud::update_provider_post(
                    old(self).service.boxes(),
                    final(self).service.boxes(),
                    vagrant_box@,
                    box_version@,
                    box_provider@,
                    rep@,
                ),
                Err(_) => final(self).service.boxes() == old(self).service.boxes(),
            },
    {
        self.service.update_provider(&self.token, vagrant_box, box_version, box_provider)
    }

    /// Delete the provider belonging to the version of the box, but do
    /// not touch the version or the box itself.
    pub fn delete_provider(
        &mut self,
        vagrant_box: &VagrantBox,
        box_version: &BoxVersion,
        box_provider: &BoxProvider,
    ) -> (r: Result<api::Provider, Error>)
        requires
            cloud::registry_wf(old(self).service.boxes()),
        ensures
            cloud::registry_wf(final(self).service.boxes()),
            final(self).token == old(self).token,
            match r {
                Ok(rep) => cloud::delete_provider_post(
                    old(self).service.boxes(),
                    final(self).service.boxes(),
                    vagrant_box@,
                    box_version@,
                    box_provider@,
                    rep@,
                ),
                Err(_) => final(self).service.boxes() == old(self).service.boxes(),
            },
    {
        self.service.delete_provider(&self.token, vagrant_box, box_version, box_provider)
    }

    /// Resolve the box and synchronize its attributes: read it, create
    /// it when the read reports a "not found" status (any other failure
    /// is fatal), and update its descriptive fields when they do not
    /// match the specification.
    #[verifier::rlimit(60)]
    fn sync_box(&mut self, vagrant_box: &VagrantBox) -> (r: Result<api::VagrantBox, Error>)
        requires
            cloud::registry_wf(old(self).service.boxes()),
        ensures
            cloud::registry_wf(final(self).service.boxes()),
            final(self).token == old(self).token,
            match r {
                Ok(rep) => {
                    let s0 = old(self).service.boxes();
                    let o = vagrant_box.username@;
                    let n = vagrant_box.name@;
                    &&& final(self).service.boxes() == put_box(s0, o, n, rep@)
                    &&& cloud::box_fields(rep@, vagrant_box@)
                    &&& (has_box(s0, o, n) ==> rep@.versions == box_at(s0, o, n).versions
                        && box_rest_eq(rep@, box_at(s0, o, n)))
                    &&& (!has_box(s0, o, n) ==> rep@.versions == Seq::<VersionRep>::empty()
                        && rep@.current_version is None)
                },
                Err(_) => true,
            },
    {
        let ghost s0 = self.service.boxes();
        let ghost o = vagrant_box.username@;
        let ghost n = vagrant_box.name@;
        let box_res = match self.service.read_box(&self.token, vagrant_box) {
            Ok(bx) => bx,
            Err(err) => {
                let not_found = match err.into_status() {
                    Some(st) => st == NOT_FOUND,
                    None => false,
                };
                if !not_found {
                    return Err(err);
                }
                match self.service.create_box(&self.token, vagrant_box) {
                    Ok(bx) => bx,
                    Err(e) => {
                        return Err(e);
                    },
                }
            },
        };
        let ghost bx1 = box_res@;
        proof {
            if has_box(s0, o, n) {
                lemma_box_idx_valid(s0, o, n);
                assert(put_box(s0, o, n, bx1) =~= s0);
            }
            assert(self.service.boxes() == put_box(s0, o, n, bx1));
            assert(box_keyed(bx1, o, n));
        }
        if !cmp_vagrant_boxes(vagrant_box, &box_res) {
            let updated = match self.service.update_box(&self.token, vagrant_box) {
                Ok(bx) => bx,
                Err(e) => {
                    return Err(e);
                },
            };
            proof {
                lemma_put_step(s0, o, n, bx1, updated@);
                assert(self.service.boxes() == put_box(s0, o, n, updated@));
            }
            Ok(updated)
        } else {
            Ok(box_res)
        }
    }

    /// Scan the versions the synchronized box reported: record whether
    /// one carries the target label, and, when pruning is asked for,
    /// delete the same-named provider from every other version and
    /// delete each version that this emptied.
    #[verifier::loop_isolation(false)]
    #[verifier::rlimit(90)]
    fn prune_scan(
        &mut self,
        vagrant_box: &VagrantBox,
        box_version: &BoxVersion,
        box_provider: &BoxProvider,
        delete_other_version: bool,
        box_res: &api::VagrantBox,
        Ghost(s0): Ghost<Seq<api::BoxRep>>,
    ) -> (r: Result<bool, Error>)
        requires
            cloud::registry_wf(old(self).service.boxes()),
            old(self).service.boxes() == put_box(
                s0,
                vagrant_box.username@,
                vagrant_box.name@,
                box_res@,
            ),
            box_keyed(box_res@, vagrant_box.username@, vagrant_box.name@),
        ensures
            cloud::registry_wf(final(self).service.boxes()),
            final(self).token == old(self).token,
            match r {
                Ok(vp) => {
                    let o = vagrant_box.username@;
                    let n = vagrant_box.name@;
                    let t = box_version.version@;
                    let pn = box_provider.name@;
                    let vers0 = box_res@.versions;
                    &&& vp == has_version(vers0, t)
                    &&& final(self).service.boxes() == put_box(
                        s0,
                        o,
                        n,
                        set_versions(
                            box_res@,
                            transform_all(
                                vers0,
                                t,
                                pn,
                                delete_other_version,
                                reconcile::target_before(vers0, t),
                            ),
                        ),
                    )
                },
                Err(_) => true,
            },
    {
        let ghost o = vagrant_box.username@;
        let ghost n = vagrant_box.name@;
        let ghost t = box_version.version@;
        let ghost pn = box_provider.name@;
        let ghost bx2 = box_res@;
        let ghost vers0 = bx2.versions;
        let ghost tv0g = reconcile::target_before(vers0, t);
        proof {
            if has_version(vers0, t) {
                lemma_version_idx_valid(vers0, t);
            }
            lemma_put_step(s0, o, n, bx2, bx2);
            assert(versions_wf(vers0));
            assert(vers0.take(0) =~= Seq::<VersionRep>::empty());
            assert(transform_all(vers0.take(0), t, pn, delete_other_version, tv0g) + vers0.skip(0)
                =~= vers0);
            assert(set_versions(bx2, vers0) == bx2);
        }
        let mut version_present = false;
        let mut i: usize = 0;
        while i < box_res.versions.len()
            invariant
                i <= box_res.versions.len(),
                version_present == has_version(vers0.take(i as int), t),
                cloud::registry_wf(self.service.boxes()),
                self.service.boxes() == put_box(
                    s0,
                    o,
                    n,
                    set_versions(
                        bx2,
                        transform_all(vers0.take(i as int), t, pn, delete_other_version, tv0g)
                            + vers0.skip(i as int),
                    ),
                ),
                self.token == old(self).token,
            decreases box_res.versions.len() - i,
        {
            let ghost pre_vs = transform_all(vers0.take(i as int), t, pn, delete_other_version, tv0g)
                + vers0.skip(i as int);
            let ghost alen = transform_all(
                vers0.take(i as int),
                t,
                pn,
                delete_other_version,
                tv0g,
            ).len() as int;
            proof {
                lemma_put_step(s0, o, n, set_versions(bx2, pre_vs), set_versions(bx2, pre_vs));
                assert(versions_wf(pre_vs));
                assert(vers0.skip(i as int)[0] == vers0[i as int]);
                assert(pre_vs[alen] == vers0[i as int]);
            }
            let ver = &box_res.versions[i];
            proof {
                assert(ver@ == vers0[i as int]);
            }
            if ver.version == box_version.version {
                version_present = true;
                proof {
                    assert(vers0[i as int].version == t);
                    lemma_version_idx_unique(vers0, t, i as int);
                    assert(tv0g == vers0[i as int]);
                    reconcile::lemma_transform_take_succ(
                        vers0,
                        t,
                        pn,
                        delete_other_version,
                        tv0g,
                        i as int,
                    );
                    lemma_has_version_take_succ(vers0, t, i as int);
                    assert(transform_all(
                        vers0.take(i as int + 1),
                        t,
                        pn,
                        delete_other_version,
                        tv0g,
                    ) + vers0.skip(i as int + 1) =~= pre_vs);
                }
            } else {
                proof {
                    assert(vers0[i as int].version != t);
                    lemma_has_version_take_succ(vers0, t, i as int);
                    reconcile::lemma_transform_take_succ(
                        vers0,
                        t,
                        pn,
                        delete_other_version,
                        tv0g,
                        i as int,
                    );
                }
                if delete_other_version {
                    match cloud::find_provider_index(&ver.providers, &box_provider.name) {
                        None => {
                            proof {
                                assert(!has_provider(vers0[i as int].providers, pn));
                                assert(transform_all(
                                    vers0.take(i as int + 1),
                                    t,
                                    pn,
                                    delete_other_version,
                                    tv0g,
                                ) + vers0.skip(i as int + 1) =~= pre_vs);
                            }
                        },
                        Some(_) => {
                            // Delete the same-named provider from this
                            // version; the delete calls take the scanned
                            // version's own description, falling back to
                            // the desired one.
                            let description = match &ver.description_markdown {
                                Some(d) => d.clone(),
                                None => box_version.description.clone(),
                            };
                            let version_to_delete = BoxVersion {
                                version: ver.version.clone(),
                                description,
                            };
                            proof {
                                assert(version_to_delete@.version == vers0[i as int].version);
                            }
                            match self.service.delete_provider(
                                &self.token,
                                vagrant_box,
                                &version_to_delete,
                                box_provider,
                            ) {
                                Ok(_) => (),
                                Err(e) => {
                                    return Err(e);
                                },
                            }
                            let ghost w = vers0[i as int];
                            let ghost w1 = set_providers(
                                w,
                                w.providers.remove(provider_idx(w.providers, pn)),
                            );
                            let ghost mid_vs = pre_vs.update(alen, w1);
                            proof {
                                lemma_version_idx_unique(pre_vs, w.version, alen);
                                assert(has_provider(w.providers, pn));
                                lemma_put_step(
                                    s0,
                                    o,
                                    n,
                                    set_versions(bx2, pre_vs),
                                    set_versions(bx2, mid_vs),
                                );
                                assert(self.service.boxes() == put_box(
                                    s0,
                                    o,
                                    n,
                                    set_versions(bx2, mid_vs),
                                ));
                            }
                            if ver.providers.len() == 1 {
                                // That was the version's only provider:
                                // the version goes too.
                                match self.service.delete_version(
                                    &self.token,
                                    vagrant_box,
                                    &version_to_delete,
                                ) {
                                    Ok(_) => (),
                                    Err(e) => {
                                        return Err(e);
                                    },
                                }
                                proof {
                                    lemma_version_idx_unique(mid_vs, w.version, alen);
                                    lemma_put_step(
                                        s0,
                                        o,
                                        n,
                                        set_versions(bx2, mid_vs),
                                        set_versions(bx2, mid_vs.remove(alen)),
                                    );
                                    assert(self.service.boxes() == put_box(
                                        s0,
                                        o,
                                        n,
                                        set_versions(bx2, mid_vs.remove(alen)),
                                    ));
                                    assert(w.providers.len() == 1);
                                    assert(reconcile::step_version(
                                        w,
                                        t,
                                        pn,
                                        delete_other_version,
                                        tv0g,
                                    ) =~= Seq::<VersionRep>::empty());
                                    assert(transform_all(
                                        vers0.take(i as int + 1),
                                        t,
                                        pn,
                                        delete_other_version,
                                        tv0g,
                                    ) + vers0.skip(i as int + 1) =~= mid_vs.remove(alen));
                                }
                            } else {
                                proof {
                                    assert(w.providers.len() != 1);
                                    assert(reconcile::step_version(
                                        w,
                                        t,
                                        pn,
                                        delete_other_version,
                                        tv0g,
                                    ) =~= seq![w1]);
                                    assert(transform_all(
                                        vers0.take(i as int + 1),
                                        t,
                                        pn,
                                        delete_other_version,
                                        tv0g,
                                    ) + vers0.skip(i as int + 1) =~= mid_vs);
                                }
                            }
                        },
                    }
                } else {
                    proof {
                        assert(transform_all(
                            vers0.take(i as int + 1),
                            t,
                            pn,
                            delete_other_version,
                            tv0g,
                        ) + vers0.skip(i as int + 1) =~= pre_vs);
                    }
                }
            }
            i += 1;
        }
        proof {
            assert(vers0.take(vers0.len() as int) =~= vers0);
            assert(vers0.skip(vers0.len() as int) =~= Seq::<VersionRep>::empty());
            assert(transform_all(vers0.take(vers0.len() as int), t, pn, delete_other_version, tv0g)
                + vers0.skip(vers0.len() as int) =~= transform_all(
                vers0,
                t,
                pn,
                delete_other_version,
                tv0g,
            ));
        }
        Ok(version_present)
    }

    /// Converge the registry so that the box exists with at least the
    /// given version, that version holds the given provider, and the
    /// version is released; return the resulting full box representation.
    ///
    /// The box, the version and the provider are created where they are
    /// missing; the box and the provider are updated where they exist
    /// but do not match the specification.  The description of an
    /// existing version is never updated.
    ///
    /// The `delete_other_version` parameter is intended for special
    /// purposes and should be set to false for most cases.  When it is
    /// true, every provider carrying the same provider name in any other
    /// version is deleted, and a version whose only provider was deleted
    /// this way is deleted too; the given version and provider pair is
    /// always exempt.  This is mostly useful when building boxes on a CI
    /// that only keeps the last successful build of each provider.
    ///
    /// Any failure from the remote service aborts the whole operation
    /// and is surfaced immediately; completed sub-steps are not rolled
    /// back.
    #[verifier::rlimit(90)]
    pub fn ensure_provider_present(
        &mut self,
        vagrant_box: &VagrantBox,
        box_version: &BoxVersion,
        box_provider: &BoxProvider,
        delete_other_version: bool,
    ) -> (r: Result<api::VagrantBox, Error>)
        requires
            cloud::registry_wf(old(self).service.boxes()),
        ensures
            cloud::registry_wf(final(self).service.boxes()),
            final(self).token == old(self).token,
            match r {
                Ok(rep) => reconcile::reconciled(
                    old(self).service.boxes(),
                    final(self).service.boxes(),
                    vagrant_box@,
                    box_version@,
                    box_provider@,
                    delete_other_version,
                    rep@,
                ),
                Err(_) => true,
            },
    {
        let ghost s0 = self.service.boxes();
        let ghost o = vagrant_box.username@;
        let ghost n = vagrant_box.name@;
        let ghost t = box_version.version@;
        let ghost pn = box_provider.name@;

        // Resolve the box and synchronize its attributes.
        let box_res = match self.sync_box(vagrant_box) {
            Ok(bx) => bx,
            Err(e) => {
                return Err(e);
            },
        };
        let ghost bx2 = box_res@;
        let ghost vers0 = bx2.versions;
        proof {
            assert(box_keyed(bx2, o, n));
            lemma_put_step(s0, o, n, bx2, bx2);
            assert(versions_wf(vers0));
        }

        // Scan the existing versions, pruning when asked to.
        let version_present = match self.prune_scan(
            vagrant_box,
            box_version,
            box_provider,
            delete_other_version,
            &box_res,
            Ghost(s0),
        ) {
            Ok(vp) => vp,
            Err(e) => {
                return Err(e);
            },
        };
        let ghost tv0g = reconcile::target_before(vers0, t);
        let ghost a_full = transform_all(vers0, t, pn, delete_other_version, tv0g);
        proof {
            if has_version(vers0, t) {
                lemma_version_idx_valid(vers0, t);
            }
            lemma_put_step(s0, o, n, set_versions(bx2, a_full), set_versions(bx2, a_full));
            assert(versions_wf(a_full));
        }

        // Ensure the target version: create it when no scanned version
        // carried its label, otherwise take the one that did.
        let ghost mut vcur: Seq<VersionRep> = a_full;
        let ghost mut ti: int = 0;
        let target_version: api::Version;
        if !version_present {
            target_version = match self.service.create_version(
                &self.token,
                vagrant_box,
                box_version,
            ) {
                Ok(v) => v,
                Err(e) => {
                    return Err(e);
                },
            };
            proof {
                lemma_put_step(
                    s0,
                    o,
                    n,
                    set_versions(bx2, a_full),
                    set_versions(bx2, seq![target_version@] + a_full),
                );
                vcur = seq![target_version@] + a_full;
                ti = 0;
                assert(self.service.boxes() == put_box(s0, o, n, set_versions(bx2, vcur)));
                assert(vcur[ti] == target_version@);
                assert(cloud::fresh_version(target_version@, box_version@));
            }
        } else {
            let vi = match cloud::find_version_index(&box_res.versions, &box_version.version) {
                Some(vi) => vi,
                None => {
                    // The scan recorded the target label, so a version
                    // carrying it is provably present.
                    proof {
                        assert(false);
                    }
                    return Err(Error::InternalError(String::new()));
                },
            };
            target_version = box_res.versions[vi].clone();
            proof {
                assert(vers0[vi as int].version == t);
                lemma_version_idx_unique(vers0, t, vi as int);
                assert(target_version@ == tv0g);
                let k = lemma_transform_retarget(vers0, t, pn, delete_other_version, tv0g, tv0g);
                assert(a_full.update(k, tv0g) =~= a_full);
                vcur = a_full;
                ti = k;
                assert(vcur[ti] == target_version@);
            }
        }
        let ghost tv_cur = target_version@;
        proof {
            assert(self.service.boxes() == put_box(s0, o, n, set_versions(bx2, vcur)));
            assert(0 <= ti < vcur.len() && vcur[ti] == tv_cur);
            assert(tv_cur.version == t);
            lemma_put_step(s0, o, n, set_versions(bx2, vcur), set_versions(bx2, vcur));
            assert(versions_wf(vcur));
            lemma_version_idx_unique(vcur, t, ti);
        }

        // Ensure the target provider: create it when the version holds
        // none of that name, update it when it holds one that does not
        // match the specification.
        let ghost ps0t = tv_cur.providers;
        let ghost mut ps_t = ps0t;
        match cloud::find_provider_index(&target_version.providers, &box_provider.name) {
            None => {
                let created_prov = match self.service.create_provider(
                    &self.token,
                    vagrant_box,
                    box_version,
                    box_provider,
                ) {
                    Ok(pr) => pr,
                    Err(e) => {
                        return Err(e);
                    },
                };
                proof {
                    assert(!has_provider(ps0t, pn));
                    lemma_put_step(
                        s0,
                        o,
                        n,
                        set_versions(bx2, vcur),
                        set_versions(
                            bx2,
                            vcur.update(ti, set_providers(tv_cur, ps0t.push(created_prov@))),
                        ),
                    );
                    ps_t = ps0t.push(created_prov@);
                    assert(cloud::fresh_provider(created_prov@, box_provider@));
                    assert(reconcile::target_provider_set(ps0t, ps_t, box_provider@));
                }
            },
            Some(pj) => {
                proof {
                    assert(cloud::providers_wf(ps0t));
                    assert(ps0t[pj as int].name == pn);
                    lemma_provider_idx_unique(ps0t, pn, pj as int);
                }
                if !cmp_vagrant_providers(box_provider, &target_version.providers[pj]) {
                    let updated_prov = match self.service.update_provider(
                        &self.token,
                        vagrant_box,
                        box_version,
                        box_provider,
                    ) {
                        Ok(pr) => pr,
                        Err(e) => {
                            return Err(e);
                        },
                    };
                    proof {
                        lemma_put_step(
                            s0,
                            o,
                            n,
                            set_versions(bx2, vcur),
                            set_versions(
                                bx2,
                                vcur.update(
                                    ti,
                                    set_providers(
                                        tv_cur,
                                        ps0t.update(provider_idx(ps0t, pn), updated_prov@),
                                    ),
                                ),
                            ),
                        );
                        ps_t = ps0t.update(provider_idx(ps0t, pn), updated_prov@);
                        assert(provider_matches(box_provider@, updated_prov@));
                        assert(reconcile::target_provider_set(ps0t, ps_t, box_provider@));
                    }
                } else {
                    proof {
                        let pi = provider_idx(ps0t, pn);
                        assert(provider_matches(box_provider@, ps0t[pi]));
                        assert(ps0t.update(pi, ps0t[pi]) =~= ps0t);
                        assert(reconcile::target_provider_set(ps0t, ps_t, box_provider@));
                        assert(set_providers(tv_cur, ps_t) == tv_cur);
                        assert(vcur.update(ti, tv_cur) =~= vcur);
                    }
                }
            },
        }
        let ghost tv_mid = set_providers(tv_cur, ps_t);
        proof {
            assert(reconcile::target_provider_set(ps0t, ps_t, box_provider@));
            assert(self.service.boxes() == put_box(
                s0,
                o,
                n,
                set_versions(bx2, vcur.update(ti, tv_mid)),
            ));
        }

        // Release the target version.
        let released = match self.service.release_version(&self.token, vagrant_box, box_version) {
            Ok(v) => v,
            Err(e) => {
                return Err(e);
            },
        };
        let ghost tvf = released@;
        let ghost vfin = vcur.update(ti, tvf);
        proof {
            let v5 = vcur.update(ti, tv_mid);
            lemma_put_step(s0, o, n, set_versions(bx2, v5), set_versions(bx2, v5));
            assert(versions_wf(v5));
            assert(v5[ti] == tv_mid);
            lemma_version_idx_unique(v5, t, ti);
            assert(tvf == set_status(tv_mid, "active"@));
            lemma_put_step(s0, o, n, set_versions(bx2, v5), set_versions(bx2, v5.update(ti, tvf)));
            assert(v5.update(ti, tvf) =~= vfin);
            assert(self.service.boxes() == put_box(s0, o, n, set_versions(bx2, vfin)));
        }

        // Re-read the box and return its full current representation.
        let result_box = match self.service.read_box(&self.token, vagrant_box) {
            Ok(bx) => bx,
            Err(e) => {
                return Err(e);
            },
        };
        proof {
            lemma_put_step(s0, o, n, set_versions(bx2, vfin), set_versions(bx2, vfin));
            assert(result_box@ == set_versions(bx2, vfin));
            assert(tvf == set_status(set_providers(tv_cur, tvf.providers), "active"@));
            if has_version(vers0, t) {
                assert(tv_cur == tv0g);
                assert(reconcile::target_updated(version_at(vers0, t), tvf, box_provider@));
                let k2 = lemma_transform_retarget(vers0, t, pn, delete_other_version, tv0g, tvf);
                lemma_version_idx_unique(a_full, t, k2);
                lemma_version_idx_unique(a_full, t, ti);
                assert(k2 == ti);
                assert(vfin == transform_all(vers0, t, pn, delete_other_version, tvf));
                assert(reconcile::versions_reconciled(
                    vers0,
                    vfin,
                    box_version@,
                    box_provider@,
                    delete_other_version,
                ));
            } else {
                // The target version was created: it sits first, and the
                // transform of the scanned versions does not depend on
                // its final form.
                assert(ti == 0);
                assert(vcur == seq![tv_cur] + a_full);
                assert(vfin =~= seq![tvf] + a_full);
                lemma_transform_tv1_irrelevant(vers0, t, pn, delete_other_version, tv0g, tvf);
                assert(a_full == transform_all(vers0, t, pn, delete_other_version, tvf));
                assert(cloud::fresh_version(tv_cur, box_version@));
                assert(ps0t =~= Seq::<ProviderRep>::empty());
                assert(!has_provider(ps0t, pn));
                let pv = choose|pv: ProviderRep|
                    #[trigger] cloud::fresh_provider(pv, box_provider@) && ps_t == ps0t.push(pv);
                assert(tvf.providers == ps_t);
                assert(tvf.providers =~= seq![pv]);
                assert(reconcile::target_fresh(tvf, box_version@, box_provider@));
                assert(reconcile::versions_reconciled(
                    vers0,
                    vfin,
                    box_version@,
                    box_provider@,
                    delete_other_version,
                ));
            }
            assert(cloud::box_fields(result_box@, vagrant_box@));
            if has_box(s0, o, n) {
                assert(self.service.boxes() == s0.update(cloud::box_idx(s0, o, n), result_box@));
                assert(box_rest_eq(result_box@, box_at(s0, o, n)));
            } else {
                assert(self.service.boxes() == s0.push(result_box@));
                assert(result_box@.current_version is None);
                assert(!has_version(vers0, t));
            }
            assert(reconcile::reconciled(
                s0,
                self.service.boxes(),
                vagrant_box@,
                box_version@,
                box_provider@,
                delete_other_version,
                result_box@,
            ));
        }
        Ok(result_box)
    }
}

/// Compare `first` with `second` if `second` is `Some(s)`, otherwise the
/// comparison fails: an absent remote value never counts as agreement.
pub open spec fn spec_compare_strings(first: Seq<char>, second: Option<Seq<char>>) -> bool {
    match second {
        Some(val) => first == val,
        None => false,
    }
}

/// A desired provider matches a reported one iff the names are equal and
/// the desired URL equals the reported original URL; a hosted provider
/// with no recorded original URL never matches.
pub open spec fn provider_matches(p: ProviderSpec, rp: api::ProviderRep) -> bool {
    &&& rp.name == p.name
    &&& spec_compare_strings(p.url, rp.original_url)
}

/// A desired version matches a reported one iff the labels are equal and
/// the desired description equals the reported markdown description; a
/// reported version with no markdown description never matches.
pub open spec fn version_matches(v: VersionSpec, rv: api::VersionRep) -> bool {
    &&& rv.version == v.version
    &&& spec_compare_strings(v.description, rv.description_markdown)
}

/// A desired box matches a reported one iff the identity key is equal,
/// both descriptive fields are present in the specification and equal to
/// the reported ones (a specification that omits a description never
/// matches: absence is not implicit agreement), and the privacy flags are
/// equal as options (both unset is a match).
pub open spec fn box_matches(b: BoxSpec, rb: api::BoxRep) -> bool {
    &&& rb.username == b.username
    &&& rb.name == b.name
    &&& (match b.short_description {
        Some(sd) => rb.short_description == Some(sd),
        None => false,
    })
    &&& (match b.description {
        Some(d) => rb.description_markdown == Some(d),
        None => false,
    })
    &&& rb.private == b.is_private
}

/// Compare `first` with `second` if `second` is `Some(s)`, otherwise
/// return false.
pub fn compare_strings(first: &String, second: &Option<String>) -> (r: bool)
    ensures
        r == spec_compare_strings(first@, second.deep_view()),
{
    match second {
        Some(val) => *first == *val,
        None => false,
    }
}

/// Decide whether a desired provider already matches a reported one.
pub fn cmp_vagrant_providers(box_provider: &BoxProvider, api_provider: &api::Provider) -> (r:
    bool)
    ensures
        r == provider_matches(box_provider@, api_provider@),
{
    box_provider.name == api_provider.name && compare_strings(
        &box_provider.url,
        &api_provider.original_url,
    )
}

/// Decide whether a desired version already matches a reported one.
pub fn cmp_vagrant_versions(box_version: &BoxVersion, api_version: &api::Version) -> (r: bool)
    ensures
        r == version_matches(box_version@, api_version@),
{
    box_version.version == api_version.version && compare_strings(
        &box_version.description,
        &api_version.description_markdown,
    )
}

/// Decide whether a desired box already matches a reported one.
pub fn cmp_vagrant_boxes(vagrant_box: &VagrantBox, api_vagrant_box: &api::VagrantBox) -> (r:
    bool)
    ensures
        r == box_matches(vagrant_box@, api_vagrant_box@),
{
    let key_eq = vagrant_box.username == api_vagrant_box.username && vagrant_box.name
        == api_vagrant_box.name;
    let short_eq = match &vagrant_box.short_description {
        Some(sd) => compare_strings(sd, &api_vagrant_box.short_description),
        None => false,
    };
    let descr_eq = match &vagrant_box.description {
        Some(d) => compare_strings(d, &api_vagrant_box.description_markdown),
        None => false,
    };
    let private_eq = match (&vagrant_box.is_private, &api_vagrant_box.private) {
        (Some(a), Some(b)) => *a == *b,
        (None, None) => true,
        _ => false,
    };
    key_eq && short_eq && descr_eq && private_eq
}

} // verus!
