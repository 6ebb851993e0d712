//! Data shapes for the state reported by the remote registry.
//!
//! Each struct mirrors one resource representation that the service returns:
//! a box, a version of a box, and a provider of a version.  Every struct has
//! a ghost view (`ProviderRep`, `VersionRep`, `BoxRep`) over which all
//! contracts in this crate are stated.

use vstd::prelude::*;

verus! {

/// Ghost view of a remote provider representation.
pub struct ProviderRep {
    pub name: Seq<char>,
    pub hosted: bool,
    pub hosted_token: Option<Seq<char>>,
    pub original_url: Option<Seq<char>>,
    pub created_at: Seq<char>,
    pub updated_at: Seq<char>,
    pub download_url: Seq<char>,
}

/// Ghost view of a remote version representation.
pub struct VersionRep {
    pub version: Seq<char>,
    pub status: Seq<char>,
    pub description_html: Option<Seq<char>>,
    pub description_markdown: Option<Seq<char>>,
    pub created_at: Option<Seq<char>>,
    pub updated_at: Option<Seq<char>>,
    pub number: Seq<char>,
    pub release_url: Seq<char>,
    pub revoke_url: Seq<char>,
    pub providers: Seq<ProviderRep>,
}

/// Ghost view of a remote box representation.
pub struct BoxRep {
    pub tag: Option<Seq<char>>,
    pub username: Seq<char>,
    pub name: Seq<char>,
    pub private: Option<bool>,
    pub downloads: usize,
    pub created_at: Seq<char>,
    pub updated_at: Seq<char>,
    pub short_description: Option<Seq<char>>,
    pub description_markdown: Option<Seq<char>>,
    pub description_html: Option<Seq<char>>,
    pub versions: Seq<VersionRep>,
    pub current_version: Option<VersionRep>,
}

/// State of a provider as reported by the remote registry.
///
/// A provider stores the downloadable artifact of one virtualization
/// backend within a version of a box.
#[derive(Debug)]
pub struct Provider {
    /// Name of the provider
    pub name: String,
    /// Is the artifact for this provider hosted by the service itself?
    pub hosted: bool,
    /// Opaque token, present only for hosted artifacts
    pub hosted_token: Option<String>,
    /// Original URL from which the artifact is downloaded, present only
    /// when the artifact is hosted externally
    pub original_url: Option<String>,
    /// Date string indicating when this provider was created
    pub created_at: String,
    /// Date string indicating when this provider was last updated
    pub updated_at: String,
    /// Resolved download URL of this provider
    pub download_url: String,
}

/// State of a version as reported by the remote registry.
#[derive(Debug)]
pub struct Version {
    pub version: String,
    pub status: String,
    pub description_html: Option<String>,
    pub description_markdown: Option<String>,
    pub created_at: Option<String>,
    pub updated_at: Option<String>,
    pub number: String,
    pub release_url: String,
    pub revoke_url: String,
    pub providers: Vec<Provider>,
}

/// State of a box as reported by the remote registry.
#[derive(Debug)]
pub struct VagrantBox {
    pub tag: Option<String>,
    pub username: String,
    pub name: String,
    pub private: Option<bool>,
    pub downloads: usize,
    pub created_at: String,
    pub updated_at: String,
    pub short_description: Option<String>,
    pub description_markdown: Option<String>,
    pub description_html: Option<String>,
    pub versions: Vec<Version>,
    pub current_version: Option<Version>,
}

/// The views of a sequence of reported providers.
pub open spec fn providers_view(ps: Seq<Provider>) -> Seq<ProviderRep> {
    ps.map_values(|p: Provider| p@)
}

/// The views of a sequence of reported versions.
pub open spec fn versions_view(vs: Seq<Version>) -> Seq<VersionRep> {
    vs.map_values(|v: Version| v@)
}

/// The views of a sequence of reported boxes.
pub open spec fn boxes_view(bs: Seq<VagrantBox>) -> Seq<BoxRep> {
    bs.map_values(|b: VagrantBox| b@)
}

impl View for Provider {
    type V = ProviderRep;

    open spec fn view(&self) -> ProviderRep {
        ProviderRep {
            name: self.name@,
            hosted: self.hosted,
            hosted_token: self.hosted_token.deep_view(),
            original_url: self.original_url.deep_view(),
            created_at: self.created_at@,
            updated_at: self.updated_at@,
            download_url: self.download_url@,
        }
    }
}

impl View for Version {
    type V = VersionRep;

    open spec fn view(&self) -> VersionRep {
        VersionRep {
            version: self.version@,
            status: self.status@,
            description_html: self.description_html.deep_view(),
            description_markdown: self.description_markdown.deep_view(),
            created_at: self.created_at.deep_view(),
            updated_at: self.updated_at.deep_view(),
            number: self.number@,
            release_url: self.release_url@,
            revoke_url: self.revoke_url@,
            providers: providers_view(self.providers@),
        }
    }
}

impl View for VagrantBox {
    type V = BoxRep;

    open spec fn view(&self) -> BoxRep {
        BoxRep {
            tag: self.tag.deep_view(),
            username: self.username@,
            name: self.name@,
            private: self.private,
            downloads: self.downloads,
            created_at: self.created_at@,
            updated_at: self.updated_at@,
            short_description: self.short_description.deep_view(),
            description_markdown: self.description_markdown.deep_view(),
            description_html: self.description_html.deep_view(),
            versions: versions_view(self.versions@),
            current_version: match self.current_version {
                Some(ref v) => Some(v@),
                None => None,
            },
        }
    }
}

/// Clone a string option field for field.
pub(crate) fn clone_opt_string(o: &Option<String>) -> (r: Option<String>)
    ensures
        r == *o,
{
    match o {
        Some(s) => Some(s.clone()),
        None => None,
    }
}

impl Clone for Provider {
    /// A cloned provider reports the same state.
    fn clone(&self) -> (res: Self)
        ensures
            res == *self,
    {
        Provider {
            name: self.name.clone(),
            hosted: self.hosted,
            hosted_token: clone_opt_string(&self.hosted_token),
            original_url: clone_opt_string(&self.original_url),
            created_at: self.created_at.clone(),
            updated_at: self.updated_at.clone(),
            download_url: self.download_url.clone(),
        }
    }
}

/// Clone a provider list; the clone reports the same providers.
fn clone_providers(ps: &Vec<Provider>) -> (r: Vec<Provider>)
    ensures
        r@ == ps@,
{
    let mut r: Vec<Provider> = Vec::new();
    let mut i: usize = 0;
    while i < ps.len()
        invariant
            i <= ps.len(),
            r@ == ps@.take(i as int),
        decreases ps.len() - i,
    {
        r.push(ps[i].clone());
        proof {
            assert(r@ =~= ps@.take(i as int + 1));
        }
        i += 1;
    }
    proof {
        assert(ps@.take(ps.len() as int) =~= ps@);
    }
    r
}

impl Clone for Version {
    /// A cloned version reports the same state.
    fn clone(&self) -> (res: Self)
        ensures
            res@ == self@,
    {
        Version {
            version: self.version.clone(),
            status: self.status.clone(),
            description_html: clone_opt_string(&self.description_html),
            description_markdown: clone_opt_string(&self.description_markdown),
            created_at: clone_opt_string(&self.created_at),
            updated_at: clone_opt_string(&self.updated_at),
            number: self.number.clone(),
            release_url: self.release_url.clone(),
            revoke_url: self.revoke_url.clone(),
            providers: clone_providers(&self.providers),
        }
    }
}

/// Clone a version list; the clone reports the same versions.
fn clone_versions(vs: &Vec<Version>) -> (r: Vec<Version>)
    ensures
        versions_view(r@) == versions_view(vs@),
{
    let mut r: Vec<Version> = Vec::new();
    let mut i: usize = 0;
    while i < vs.len()
        invariant
            i <= vs.len(),
            r@.len() == i as int,
            versions_view(r@) == versions_view(vs@.take(i as int)),
        decreases vs.len() - i,
    {
        let cloned_version = vs[i].clone();
        r.push(cloned_version);
        proof {
            let a = versions_view(r@);
            let b = versions_view(vs@.take(i as int + 1));
            assert forall|k: int| 0 <= k < a.len() implies a[k] == b[k] by {
                assert(a[k] == r@[k]@);
                assert(b[k] == vs@.take(i as int + 1)[k]@);
                assert(vs@.take(i as int + 1)[k] == vs@[k]);
                if k < i as int {
                    assert(versions_view(vs@.take(i as int))[k] == vs@.take(i as int)[k]@);
                }
            }
            assert(a =~= b);
        }
        i += 1;
    }
    proof {
        assert(versions_view(vs@.take(vs.len() as int)) =~= versions_view(vs@));
    }
    r
}

impl Clone for VagrantBox {
    /// A cloned box reports the same state.
    fn clone(&self) -> (res: Self)
        ensures
            res@ == self@,
    {
        VagrantBox {
            tag: clone_opt_string(&self.tag),
            username: self.username.clone(),
            name: self.name.clone(),
            private: self.private,
            downloads: self.downloads,
            created_at: self.created_at.clone(),
            updated_at: self.updated_at.clone(),
            short_description: clone_opt_string(&self.short_description),
            description_markdown: clone_opt_string(&self.description_markdown),
            description_html: clone_opt_string(&self.description_html),
            versions: clone_versions(&self.versions),
            current_version: match &self.current_version {
                Some(v) => Some(v.clone()),
                None => None,
            },
        }
    }
}

/// The view of a provider built by `Provider::default`.
pub open spec fn default_provider_rep() -> ProviderRep {
    ProviderRep {
        name: Seq::<char>::empty(),
        hosted: false,
        hosted_token: None,
        original_url: None,
        created_at: Seq::<char>::empty(),
        updated_at: Seq::<char>::empty(),
        download_url: Seq::<char>::empty(),
    }
}

/// The view of a version built by `Version::default`.
pub open spec fn default_version_rep() -> VersionRep {
    VersionRep {
        version: Seq::<char>::empty(),
        status: Seq::<char>::empty(),
        description_html: None,
        description_markdown: None,
        created_at: None,
        updated_at: None,
        number: Seq::<char>::empty(),
        release_url: Seq::<char>::empty(),
        revoke_url: Seq::<char>::empty(),
        providers: Seq::<ProviderRep>::empty(),
    }
}

/// The view of a box built by `VagrantBox::default`.
pub open spec fn default_box_rep() -> BoxRep {
    BoxRep {
        tag: None,
        username: Seq::<char>::empty(),
        name: Seq::<char>::empty(),
        private: None,
        downloads: 0,
        created_at: Seq::<char>::empty(),
        updated_at: Seq::<char>::empty(),
        short_description: None,
        description_markdown: None,
        description_html: None,
        versions: Seq::<VersionRep>::empty(),
        current_version: None,
    }
}

impl Default for Provider {
    /// A provider with every field empty or unset.
    fn default() -> (res: Self)
        ensures
            res@ == default_provider_rep(),
    {
        Provider {
            name: String::new(),
            hosted: false,
            hosted_token: None,
            original_url: None,
            created_at: String::new(),
            updated_at: String::new(),
            download_url: String::new(),
        }
    }
}

impl Default for Version {
    /// A version with every field empty or unset.
    fn default() -> (res: Self)
        ensures
            res@ == default_version_rep(),
    {
        let res = Version {
            version: String::new(),
            status: String::new(),
            description_html: None,
            description_markdown: None,
            created_at: None,
            updated_at: None,
            number: String::new(),
            release_url: String::new(),
            revoke_url: String::new(),
            providers: Vec::new(),
        };
        proof {
            assert(res@.providers =~= Seq::<ProviderRep>::empty());
        }
        res
    }
}

impl Default for VagrantBox {
    /// A box with every field empty or unset.
    fn default() -> (res: Self)
        ensures
            res@ == default_box_rep(),
    {
        let res = VagrantBox {
            tag: None,
            username: String::new(),
            name: String::new(),
            private: None,
            downloads: 0,
            created_at: String::new(),
            updated_at: String::new(),
            short_description: None,
            description_markdown: None,
            description_html: None,
            versions: Vec::new(),
            current_version: None,
        };
        proof {
            assert(res@.versions =~= Seq::<VersionRep>::empty());
        }
        res
    }
}

} // verus!
