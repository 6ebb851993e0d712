//! Verified in-memory implementation of the remote service.
//!
//! [`InMemoryCloud`] holds a whole registry in a vector of box
//! representations and honors every call of [`cloud::VagrantCloud`]
//! against it: a call whose target exists succeeds, one whose target is
//! missing fails with a "not found" status, and one that would create a
//! duplicate fails with an "unprocessable" status.  The bearer token is
//! accepted and ignored: every box behaves as publicly readable and
//! writable, which is what the property tests need.

use vstd::prelude::*;
use vstd::string::StringExecFns;

use crate::api;
use crate::api::{boxes_view, providers_view, versions_view, BoxRep, ProviderRep, VersionRep};
use crate::cloud;
use crate::cloud::VagrantCloud;
use crate::cloud::{
    lemma_box_idx_unique, lemma_provider_idx_unique, lemma_providers_wf_push,
    lemma_providers_wf_remove, lemma_providers_wf_update, lemma_registry_wf_push,
    lemma_registry_wf_remove, lemma_registry_wf_update, lemma_version_idx_unique,
    lemma_versions_wf_prepend, lemma_versions_wf_remove, lemma_versions_wf_update, registry_wf,
    set_box_fields, set_description, set_providers, set_status, set_versions,
};
use crate::errors::{Error, NOT_FOUND, UNPROCESSABLE};
use crate::{BoxProvider, BoxVersion, VagrantBox};

verus! {

/// An error carrying the given status and a human readable message.
fn status_error(status: u16, message: &str) -> (e: Error)
    ensures
        e.spec_status() == Some(status),
{
    Error::ApiCallFailure(status, message.to_string())
}

/// Removing then inserting at the same index replaces the element there.
proof fn lemma_remove_insert<A>(s: Seq<A>, i: int, x: A)
    requires
        0 <= i < s.len(),
    ensures
        s.remove(i).insert(i, x) == s.update(i, x),
{
    assert(s.remove(i).insert(i, x) =~= s.update(i, x));
}

/// The box views of an updated vector are the updated box views.
proof fn lemma_boxes_view_update(s: Seq<api::VagrantBox>, i: int, x: api::VagrantBox)
    requires
        0 <= i < s.len(),
    ensures
        boxes_view(s.update(i, x)) == boxes_view(s).update(i, x@),
{
    assert(boxes_view(s.update(i, x)) =~= boxes_view(s).update(i, x@));
}

/// The box views of an extended vector are the extended box views.
proof fn lemma_boxes_view_push(s: Seq<api::VagrantBox>, x: api::VagrantBox)
    ensures
        boxes_view(s.push(x)) == boxes_view(s).push(x@),
{
    assert(boxes_view(s.push(x)) =~= boxes_view(s).push(x@));
}

/// The box views of a shrunk vector are the shrunk box views.
proof fn lemma_boxes_view_remove(s: Seq<api::VagrantBox>, i: int)
    requires
        0 <= i < s.len(),
    ensures
        boxes_view(s.remove(i)) == boxes_view(s).remove(i),
{
    assert(boxes_view(s.remove(i)) =~= boxes_view(s).remove(i));
}

/// The version views of an updated vector are the updated version views.
proof fn lemma_versions_view_update(s: Seq<api::Version>, i: int, x: api::Version)
    requires
        0 <= i < s.len(),
    ensures
        versions_view(s.update(i, x)) == versions_view(s).update(i, x@),
{
    assert(versions_view(s.update(i, x)) =~= versions_view(s).update(i, x@));
}

/// The version views of a vector with an insertion are the version views
/// with that insertion.
proof fn lemma_versions_view_insert(s: Seq<api::Version>, i: int, x: api::Version)
    requires
        0 <= i <= s.len(),
    ensures
        versions_view(s.insert(i, x)) == versions_view(s).insert(i, x@),
{
    s.insert_ensures(i, x);
    versions_view(s).insert_ensures(i, x@);
    assert(versions_view(s.insert(i, x)) =~= versions_view(s).insert(i, x@));
}

/// The version views of a shrunk vector are the shrunk version views.
proof fn lemma_versions_view_remove(s: Seq<api::Version>, i: int)
    requires
        0 <= i < s.len(),
    ensures
        versions_view(s.remove(i)) == versions_view(s).remove(i),
{
    assert(versions_view(s.remove(i)) =~= versions_view(s).remove(i));
}

/// The provider views of an updated vector are the updated provider
/// views.
proof fn lemma_providers_view_update(s: Seq<api::Provider>, i: int, x: api::Provider)
    requires
        0 <= i < s.len(),
    ensures
        providers_view(s.update(i, x)) == providers_view(s).update(i, x@),
{
    assert(providers_view(s.update(i, x)) =~= providers_view(s).update(i, x@));
}

/// The provider views of an extended vector are the extended provider
/// views.
proof fn lemma_providers_view_push(s: Seq<api::Provider>, x: api::Provider)
    ensures
        providers_view(s.push(x)) == providers_view(s).push(x@),
{
    assert(providers_view(s.push(x)) =~= providers_view(s).push(x@));
}

/// The provider views of a shrunk vector are the shrunk provider views.
proof fn lemma_providers_view_remove(s: Seq<api::Provider>, i: int)
    requires
        0 <= i < s.len(),
    ensures
        providers_view(s.remove(i)) == providers_view(s).remove(i),
{
    assert(providers_view(s.remove(i)) =~= providers_view(s).remove(i));
}

/// In-memory remote service: the whole registry held in a vector.
#[derive(Debug)]
pub struct InMemoryCloud {
    /// The boxes the registry holds.
    pub store: Vec<api::VagrantBox>,
}

impl InMemoryCloud {
    /// An empty registry.
    pub fn new() -> (c: InMemoryCloud)
        ensures
            c.boxes() == Seq::<BoxRep>::empty(),
            registry_wf(c.boxes()),
    {
        let c = InMemoryCloud { store: Vec::new() };
        proof {
            assert(boxes_view(c.store@) =~= Seq::<BoxRep>::empty());
        }
        c
    }
}

impl cloud::VagrantCloud for InMemoryCloud {
    open spec fn boxes(&self) -> Seq<BoxRep> {
        boxes_view(self.store@)
    }

    fn read_box(&self, token: &Option<String>, vagrant_box: &VagrantBox) -> (r: Result<
        api::VagrantBox,
        Error,
    >) {
        let bi = match cloud::find_box_index(&self.store, &vagrant_box.username, &vagrant_box.name)
            {
            Some(i) => i,
            None => {
                return Err(status_error(NOT_FOUND, "Resource not found!"));
            },
        };
        proof {
            lemma_box_idx_unique(self.boxes(), vagrant_box.username@, vagrant_box.name@, bi as int);
        }
        Ok(self.store[bi].clone())
    }

    fn create_box(&mut self, token: &Option<String>, vagrant_box: &VagrantBox) -> (r: Result<
        api::VagrantBox,
        Error,
    >) {
        if cloud::find_box_index(&self.store, &vagrant_box.username, &vagrant_box.name).is_some() {
            return Err(status_error(UNPROCESSABLE, "box already exists"));
        }
        let fresh = api::VagrantBox {
            tag: None,
            username: vagrant_box.username.clone(),
            name: vagrant_box.name.clone(),
            private: vagrant_box.is_private,
            downloads: 0,
            created_at: String::new(),
            updated_at: String::new(),
            short_description: api::clone_opt_string(&vagrant_box.short_description),
            description_markdown: api::clone_opt_string(&vagrant_box.description),
            description_html: None,
            versions: Vec::new(),
            current_version: None,
        };
        let rep = fresh.clone();
        let ghost s0 = self.boxes();
        let ghost fv = fresh@;
        self.store.push(fresh);
        proof {
            lemma_boxes_view_push(old(self).store@, rep);
            assert(fv.versions =~= Seq::<VersionRep>::empty());
            assert(boxes_view(self.store@) == s0.push(rep@));
            lemma_registry_wf_push(s0, rep@);
        }
        Ok(rep)
    }

    fn delete_box(&mut self, token: &Option<String>, vagrant_box: &VagrantBox) -> (r: Result<
        api::VagrantBox,
        Error,
    >) {
        let bi = match cloud::find_box_index(&self.store, &vagrant_box.username, &vagrant_box.name)
            {
            Some(i) => i,
            None => {
                return Err(status_error(NOT_FOUND, "Resource not found!"));
            },
        };
        let ghost s0 = self.boxes();
        proof {
            lemma_box_idx_unique(s0, vagrant_box.username@, vagrant_box.name@, bi as int);
        }
        let removed = self.store.remove(bi);
        proof {
            lemma_boxes_view_remove(old(self).store@, bi as int);
            lemma_registry_wf_remove(s0, bi as int);
        }
        Ok(removed)
    }

    fn update_box(&mut self, token: &Option<String>, vagrant_box: &VagrantBox) -> (r: Result<
        api::VagrantBox,
        Error,
    >) {
        let bi = match cloud::find_box_index(&self.store, &vagrant_box.username, &vagrant_box.name)
            {
            Some(i) => i,
            None => {
                return Err(status_error(NOT_FOUND, "Resource not found!"));
            },
        };
        let ghost s0 = self.boxes();
        let ghost base = s0[bi as int];
        proof {
            lemma_box_idx_unique(s0, vagrant_box.username@, vagrant_box.name@, bi as int);
        }
        let mut bx = self.store.remove(bi);
        bx.short_description = api::clone_opt_string(&vagrant_box.short_description);
        bx.description_markdown = api::clone_opt_string(&vagrant_box.description);
        bx.private = vagrant_box.is_private;
        let rep = bx.clone();
        self.store.insert(bi, bx);
        proof {
            assert(rep@ == set_box_fields(base, vagrant_box@));
            lemma_remove_insert(old(self).store@, bi as int, rep);
            lemma_boxes_view_update(old(self).store@, bi as int, rep);
            assert(boxes_view(self.store@) == s0.update(bi as int, rep@));
            lemma_registry_wf_update(s0, bi as int, rep@);
        }
        Ok(rep)
    }

    fn create_version(
        &mut self,
        token: &Option<String>,
        vagrant_box: &VagrantBox,
        box_version: &BoxVersion,
    ) -> (r: Result<api::Version, Error>) {
        let bi = match cloud::find_box_index(&self.store, &vagrant_box.username, &vagrant_box.name)
            {
            Some(i) => i,
            None => {
                return Err(status_error(NOT_FOUND, "Resource not found!"));
            },
        };
        if cloud::find_version_index(&self.store[bi].versions, &box_version.version).is_some() {
            return Err(status_error(UNPROCESSABLE, "version already exists"));
        }
        let ghost s0 = self.boxes();
        let ghost base = s0[bi as int];
        proof {
            lemma_box_idx_unique(s0, vagrant_box.username@, vagrant_box.name@, bi as int);
            assert(base.versions == versions_view(self.store@[bi as int].versions@));
        }
        let fresh = api::Version {
            version: box_version.version.clone(),
            status: String::from_str("unreleased"),
            description_html: None,
            description_markdown: Some(box_version.description.clone()),
            created_at: None,
            updated_at: None,
            number: String::new(),
            release_url: String::new(),
            revoke_url: String::new(),
            providers: Vec::new(),
        };
        let rep = fresh.clone();
        let ghost fresh_val = fresh;
        let mut bx = self.store.remove(bi);
        let ghost bversions = bx.versions@;
        bx.versions.insert(0, fresh);
        let ghost bx1 = bx@;
        self.store.insert(bi, bx);
        proof {
            assert(rep@.providers =~= Seq::<ProviderRep>::empty());
            assert(cloud::fresh_version(rep@, box_version@));
            lemma_versions_view_insert(bversions, 0, fresh_val);
            assert(versions_view(bversions).insert(0, rep@) =~= seq![rep@] + base.versions);
            assert(bx1 == set_versions(base, seq![rep@] + base.versions));
            lemma_remove_insert(old(self).store@, bi as int, self.store@[bi as int]);
            lemma_boxes_view_update(old(self).store@, bi as int, self.store@[bi as int]);
            assert(boxes_view(self.store@) == s0.update(bi as int, bx1));
            lemma_versions_wf_prepend(base.versions, rep@);
            lemma_registry_wf_update(s0, bi as int, bx1);
        }
        Ok(rep)
    }

    fn read_version(
        &self,
        token: &Option<String>,
        vagrant_box: &VagrantBox,
        box_version: &BoxVersion,
    ) -> (r: Result<api::Version, Error>) {
        let bi = match cloud::find_box_index(&self.store, &vagrant_box.username, &vagrant_box.name)
            {
            Some(i) => i,
            None => {
                return Err(status_error(NOT_FOUND, "Resource not found!"));
            },
        };
        let vi = match cloud::find_version_index(&self.store[bi].versions, &box_version.version) {
            Some(i) => i,
            None => {
                return Err(status_error(NOT_FOUND, "Resource not found!"));
            },
        };
        proof {
            let s0 = self.boxes();
            lemma_box_idx_unique(s0, vagrant_box.username@, vagrant_box.name@, bi as int);
            lemma_version_idx_unique(s0[bi as int].versions, box_version.version@, vi as int);
        }
        Ok(self.store[bi].versions[vi].clone())
    }

    fn delete_version(
        &mut self,
        token: &Option<String>,
        vagrant_box: &VagrantBox,
        box_version: &BoxVersion,
    ) -> (r: Result<api::Version, Error>) {
        let bi = match cloud::find_box_index(&self.store, &vagrant_box.username, &vagrant_box.name)
            {
            Some(i) => i,
            None => {
                return Err(status_error(NOT_FOUND, "Resource not found!"));
            },
        };
        let vi = match cloud::find_version_index(&self.store[bi].versions, &box_version.version) {
            Some(i) => i,
            None => {
                return Err(status_error(NOT_FOUND, "Resource not found!"));
            },
        };
        let ghost s0 = self.boxes();
        let ghost base = s0[bi as int];
        proof {
            lemma_box_idx_unique(s0, vagrant_box.username@, vagrant_box.name@, bi as int);
            lemma_version_idx_unique(base.versions, box_version.version@, vi as int);
        }
        let mut bx = self.store.remove(bi);
        let ghost bversions = bx.versions@;
        let removed = bx.versions.remove(vi);
        let ghost bx1 = bx@;
        self.store.insert(bi, bx);
        proof {
            lemma_versions_view_remove(bversions, vi as int);
            assert(bx1 == set_versions(base, base.versions.remove(vi as int)));
            lemma_remove_insert(old(self).store@, bi as int, self.store@[bi as int]);
            lemma_boxes_view_update(old(self).store@, bi as int, self.store@[bi as int]);
            assert(boxes_view(self.store@) == s0.update(bi as int, bx1));
            lemma_versions_wf_remove(base.versions, vi as int);
            lemma_registry_wf_update(s0, bi as int, bx1);
        }
        Ok(removed)
    }

    fn update_version(
        &mut self,
        token: &Option<String>,
        vagrant_box: &VagrantBox,
        box_version: &BoxVersion,
    ) -> (r: Result<api::Version, Error>) {
        let bi = match cloud::find_box_index(&self.store, &vagrant_box.username, &vagrant_box.name)
            {
            Some(i) => i,
            None => {
                return Err(status_error(NOT_FOUND, "Resource not found!"));
            },
        };
        let vi = match cloud::find_version_index(&self.store[bi].versions, &box_version.version) {
            Some(i) => i,
            None => {
                return Err(status_error(NOT_FOUND, "Resource not found!"));
            },
        };
        let ghost s0 = self.boxes();
        let ghost base = s0[bi as int];
        proof {
            lemma_box_idx_unique(s0, vagrant_box.username@, vagrant_box.name@, bi as int);
            lemma_version_idx_unique(base.versions, box_version.version@, vi as int);
        }
        let mut bx = self.store.remove(bi);
        let ghost bversions = bx.versions@;
        let mut ver = bx.versions.remove(vi);
        ver.description_markdown = Some(box_version.description.clone());
        let rep = ver.clone();
        bx.versions.insert(vi, ver);
        let ghost bx1 = bx@;
        self.store.insert(bi, bx);
        proof {
            assert(rep@ == set_description(base.versions[vi as int], box_version.description@));
            lemma_remove_insert(bversions, vi as int, self.store@[bi as int].versions@[vi as int]);
            lemma_versions_view_update(
                bversions,
                vi as int,
                self.store@[bi as int].versions@[vi as int],
            );
            assert(bx1 == set_versions(base, base.versions.update(vi as int, rep@)));
            lemma_remove_insert(old(self).store@, bi as int, self.store@[bi as int]);
            lemma_boxes_view_update(old(self).store@, bi as int, self.store@[bi as int]);
            assert(boxes_view(self.store@) == s0.update(bi as int, bx1));
            lemma_versions_wf_update(base.versions, vi as int, rep@);
            lemma_registry_wf_update(s0, bi as int, bx1);
        }
        Ok(rep)
    }

    fn release_version(
        &mut self,
        token: &Option<String>,
        vagrant_box: &VagrantBox,
        box_version: &BoxVersion,
    ) -> (r: Result<api::Version, Error>) {
        let bi = match cloud::find_box_index(&self.store, &vagrant_box.username, &vagrant_box.name)
            {
            Some(i) => i,
            None => {
                return Err(status_error(NOT_FOUND, "Resource not found!"));
            },
        };
        let vi = match cloud::find_version_index(&self.store[bi].versions, &box_version.version) {
            Some(i) => i,
            None => {
                return Err(status_error(NOT_FOUND, "Resource not found!"));
            },
        };
        let ghost s0 = self.boxes();
        let ghost base = s0[bi as int];
        proof {
            lemma_box_idx_unique(s0, vagrant_box.username@, vagrant_box.name@, bi as int);
            lemma_version_idx_unique(base.versions, box_version.version@, vi as int);
        }
        let mut bx = self.store.remove(bi);
        let ghost bversions = bx.versions@;
        let mut ver = bx.versions.remove(vi);
        ver.status = String::from_str("active");
        let rep = ver.clone();
        bx.versions.insert(vi, ver);
        let ghost bx1 = bx@;
        self.store.insert(bi, bx);
        proof {
            assert(rep@ == set_status(base.versions[vi as int], "active"@));
            lemma_remove_insert(bversions, vi as int, self.store@[bi as int].versions@[vi as int]);
            lemma_versions_view_update(
                bversions,
                vi as int,
                self.store@[bi as int].versions@[vi as int],
            );
            assert(bx1 == set_versions(base, base.versions.update(vi as int, rep@)));
            lemma_remove_insert(old(self).store@, bi as int, self.store@[bi as int]);
            lemma_boxes_view_update(old(self).store@, bi as int, self.store@[bi as int]);
            assert(boxes_view(self.store@) == s0.update(bi as int, bx1));
            lemma_versions_wf_update(base.versions, vi as int, rep@);
            lemma_registry_wf_update(s0, bi as int, bx1);
        }
        Ok(rep)
    }

    fn create_provider(
        &mut self,
        token: &Option<String>,
        vagrant_box: &VagrantBox,
        box_version: &BoxVersion,
        box_provider: &BoxProvider,
    ) -> (r: Result<api::Provider, Error>) {
        let bi = match cloud::find_box_index(&self.store, &vagrant_box.username, &vagrant_box.name)
            {
            Some(i) => i,
            None => {
                return Err(status_error(NOT_FOUND, "Resource not found!"));
            },
        };
        let vi = match cloud::find_version_index(&self.store[bi].versions, &box_version.version) {
            Some(i) => i,
            None => {
                return Err(status_error(NOT_FOUND, "Resource not found!"));
            },
        };
        if cloud::find_provider_index(
            &self.store[bi].versions[vi].providers,
            &box_provider.name,
        ).is_some() {
            return Err(status_error(UNPROCESSABLE, "provider already exists"));
        }
        let ghost s0 = self.boxes();
        let ghost base = s0[bi as int];
        let ghost tv = base.versions[vi as int];
        proof {
            lemma_box_idx_unique(s0, vagrant_box.username@, vagrant_box.name@, bi as int);
            lemma_version_idx_unique(base.versions, box_version.version@, vi as int);
            assert(tv.providers == providers_view(
                self.store@[bi as int].versions@[vi as int].providers@,
            ));
        }
        let fresh = api::Provider {
            name: box_provider.name.clone(),
            hosted: false,
            hosted_token: None,
            original_url: Some(box_provider.url.clone()),
            created_at: String::new(),
            updated_at: String::new(),
            download_url: box_provider.url.clone(),
        };
        let rep = fresh.clone();
        let mut bx = self.store.remove(bi);
        let ghost bversions = bx.versions@;
        let mut ver = bx.versions.remove(vi);
        let ghost vproviders = ver.providers@;
        ver.providers.push(fresh);
        bx.versions.insert(vi, ver);
        let ghost bx1 = bx@;
        self.store.insert(bi, bx);
        proof {
            assert(cloud::fresh_provider(rep@, box_provider@));
            lemma_providers_view_push(vproviders, rep);
            lemma_remove_insert(bversions, vi as int, self.store@[bi as int].versions@[vi as int]);
            lemma_versions_view_update(
                bversions,
                vi as int,
                self.store@[bi as int].versions@[vi as int],
            );
            assert(bx1 == set_versions(
                base,
                base.versions.update(vi as int, set_providers(tv, tv.providers.push(rep@))),
            ));
            lemma_remove_insert(old(self).store@, bi as int, self.store@[bi as int]);
            lemma_boxes_view_update(old(self).store@, bi as int, self.store@[bi as int]);
            assert(boxes_view(self.store@) == s0.update(bi as int, bx1));
            lemma_providers_wf_push(tv.providers, rep@);
            lemma_versions_wf_update(
                base.versions,
                vi as int,
                set_providers(tv, tv.providers.push(rep@)),
            );
            lemma_registry_wf_update(s0, bi as int, bx1);
        }
        Ok(rep)
    }

    fn update_provider(
        &mut self,
        token: &Option<String>,
        vagrant_box: &VagrantBox,
        box_version: &BoxVersion,
        box_provider: &BoxProvider,
    ) -> (r: Result<api::Provider, Error>) {
        let bi = match cloud::find_box_index(&self.store, &vagrant_box.username, &vagrant_box.name)
            {
            Some(i) => i,
            None => {
                return Err(status_error(NOT_FOUND, "Resource not found!"));
            },
        };
        let vi = match cloud::find_version_index(&self.store[bi].versions, &box_version.version) {
            Some(i) => i,
            None => {
                return Err(status_error(NOT_FOUND, "Resource not found!"));
            },
        };
        let pj = match cloud::find_provider_index(
            &self.store[bi].versions[vi].providers,
            &box_provider.name,
        ) {
            Some(i) => i,
            None => {
                return Err(status_error(NOT_FOUND, "Resource not found!"));
            },
        };
        let ghost s0 = self.boxes();
        let ghost base = s0[bi as int];
        let ghost tv = base.versions[vi as int];
        proof {
            lemma_box_idx_unique(s0, vagrant_box.username@, vagrant_box.name@, bi as int);
            lemma_version_idx_unique(base.versions, box_version.version@, vi as int);
            assert(tv.providers == providers_view(
                self.store@[bi as int].versions@[vi as int].providers@,
            ));
            lemma_provider_idx_unique(tv.providers, box_provider.name@, pj as int);
        }
        let fresh = api::Provider {
            name: box_provider.name.clone(),
            hosted: false,
            hosted_token: None,
            original_url: Some(box_provider.url.clone()),
            created_at: String::new(),
            updated_at: String::new(),
            download_url: box_provider.url.clone(),
        };
        let rep = fresh.clone();
        let mut bx = self.store.remove(bi);
        let ghost bversions = bx.versions@;
        let mut ver = bx.versions.remove(vi);
        let ghost vproviders = ver.providers@;
        let _old_provider = ver.providers.remove(pj);
        ver.providers.insert(pj, fresh);
        bx.versions.insert(vi, ver);
        let ghost bx1 = bx@;
        self.store.insert(bi, bx);
        proof {
            assert(cloud::fresh_provider(rep@, box_provider@));
            lemma_remove_insert(vproviders, pj as int, rep);
            lemma_providers_view_update(vproviders, pj as int, rep);
            lemma_remove_insert(bversions, vi as int, self.store@[bi as int].versions@[vi as int]);
            lemma_versions_view_update(
                bversions,
                vi as int,
                self.store@[bi as int].versions@[vi as int],
            );
            assert(bx1 == set_versions(
                base,
                base.versions.update(
                    vi as int,
                    set_providers(tv, tv.providers.update(pj as int, rep@)),
                ),
            ));
            lemma_remove_insert(old(self).store@, bi as int, self.store@[bi as int]);
            lemma_boxes_view_update(old(self).store@, bi as int, self.store@[bi as int]);
            assert(boxes_view(self.store@) == s0.update(bi as int, bx1));
            lemma_providers_wf_update(tv.providers, pj as int, rep@);
            lemma_versions_wf_update(
                base.versions,
                vi as int,
                set_providers(tv, tv.providers.update(pj as int, rep@)),
            );
            lemma_registry_wf_update(s0, bi as int, bx1);
        }
        Ok(rep)
    }

    fn delete_provider(
        &mut self,
        token: &Option<String>,
        vagrant_box: &VagrantBox,
        box_version: &BoxVersion,
        box_provider: &BoxProvider,
    ) -> (r: Result<api::Provider, Error>) {
        let bi = match cloud::find_box_index(&self.store, &vagrant_box.username, &vagrant_box.name)
            {
            Some(i) => i,
            None => {
                return Err(status_error(NOT_FOUND, "Resource not found!"));
            },
        };
        let vi = match cloud::find_version_index(&self.store[bi].versions, &box_version.version) {
            Some(i) => i,
            None => {
                return Err(status_error(NOT_FOUND, "Resource not found!"));
            },
        };
        let pj = match cloud::find_provider_index(
            &self.store[bi].versions[vi].providers,
            &box_provider.name,
        ) {
            Some(i) => i,
            None => {
                return Err(status_error(NOT_FOUND, "Resource not found!"));
            },
        };
        let ghost s0 = self.boxes();
        let ghost base = s0[bi as int];
        let ghost tv = base.versions[vi as int];
        proof {
            lemma_box_idx_unique(s0, vagrant_box.username@, vagrant_box.name@, bi as int);
            lemma_version_idx_unique(base.versions, box_version.version@, vi as int);
            assert(tv.providers == providers_view(
                self.store@[bi as int].versions@[vi as int].providers@,
            ));
            lemma_provider_idx_unique(tv.providers, box_provider.name@, pj as int);
        }
        let mut bx = self.store.remove(bi);
        let ghost bversions = bx.versions@;
        let mut ver = bx.versions.remove(vi);
        let ghost vproviders = ver.providers@;
        let removed = ver.providers.remove(pj);
        bx.versions.insert(vi, ver);
        let ghost bx1 = bx@;
        self.store.insert(bi, bx);
        proof {
            lemma_providers_view_remove(vproviders, pj as int);
            lemma_remove_insert(bversions, vi as int, self.store@[bi as int].versions@[vi as int]);
            lemma_versions_view_update(
                bversions,
                vi as int,
                self.store@[bi as int].versions@[vi as int],
            );
            assert(bx1 == set_versions(
                base,
                base.versions.update(
                    vi as int,
                    set_providers(tv, tv.providers.remove(pj as int)),
                ),
            ));
            lemma_remove_insert(old(self).store@, bi as int, self.store@[bi as int]);
            lemma_boxes_view_update(old(self).store@, bi as int, self.store@[bi as int]);
            assert(boxes_view(self.store@) == s0.update(bi as int, bx1));
            lemma_providers_wf_remove(tv.providers, pj as int);
            lemma_versions_wf_update(
                base.versions,
                vi as int,
                set_providers(tv, tv.providers.remove(pj as int)),
            );
            lemma_registry_wf_update(s0, bi as int, bx1);
        }
        Ok(removed)
    }
}

} // verus!
