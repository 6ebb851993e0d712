//! Tests for the reconciliation helper, run against the verified
//! in-memory service.

use vagabond::memory::InMemoryCloud;
use vagabond::{cmp_vagrant_providers, cmp_vagrant_versions};
use vagabond::{BoxProvider, BoxVersion, Client, VagrantBox};

fn new_client() -> Client<InMemoryCloud> {
    Client::new(InMemoryCloud::new(), Some("api-token".to_string()))
}

fn fresh_box() -> VagrantBox {
    VagrantBox::new("testuser".to_string(), "fresh_box".to_string())
}

fn box_version_1() -> BoxVersion {
    BoxVersion { version: "15.16.17".to_string(), description: "version 15!!".to_string() }
}

fn box_version_2() -> BoxVersion {
    BoxVersion { version: "31.29.1".to_string(), description: "version 15!!".to_string() }
}

fn box_version_3() -> BoxVersion {
    BoxVersion { version: "28.1".to_string(), description: "version 15!!".to_string() }
}

fn box_version_4() -> BoxVersion {
    BoxVersion { version: "29".to_string(), description: "version 15!!".to_string() }
}

fn libvirt_provider_1() -> BoxProvider {
    BoxProvider {
        name: "libvirt".to_string(),
        url: "https://foo.bar.baz/my/box/15.16.17/img.box".to_string(),
    }
}

fn libvirt_provider_2() -> BoxProvider {
    BoxProvider {
        name: "libvirt".to_string(),
        url: "https://foo.bar.baz/my/box/31.29.1/img.box".to_string(),
    }
}

fn libvirt_provider_3() -> BoxProvider {
    BoxProvider {
        name: "libvirt".to_string(),
        url: "https://foo.bar.baz/my/box/28.1/img.box".to_string(),
    }
}

fn libvirt_provider_4() -> BoxProvider {
    BoxProvider {
        name: "libvirt".to_string(),
        url: "https://foo.bar.baz/my/box/29/img.box".to_string(),
    }
}

fn virtualbox_provider_1() -> BoxProvider {
    BoxProvider {
        name: "virtualbox".to_string(),
        url: "https://foo.bar.baz/my/box/15.16.17/img.box".to_string(),
    }
}

/// Reconciling a provider from scratch creates the box, the version and
/// the provider, and the resulting representation reports the input.
#[test]
fn test_create_provider_from_empty() {
    let mut client = new_client();
    let vagrant_box = fresh_box();

    let box_res = client.ensure_provider_present(
        &vagrant_box,
        &box_version_1(),
        &libvirt_provider_1(),
        false,
    );

    assert!(box_res.is_ok());

    let box_res = box_res.unwrap();
    assert_eq!(box_res.username, "testuser");
    assert_eq!(box_res.name, "fresh_box");

    assert_eq!(box_res.versions.len(), 1);
    assert!(cmp_vagrant_versions(&box_version_1(), &box_res.versions[0]));

    assert_eq!(box_res.versions[0].providers.len(), 1);
    assert!(cmp_vagrant_providers(&libvirt_provider_1(), &box_res.versions[0].providers[0]));
}

/// A changed box description is written back to the registry.
#[test]
fn check_box_updated_by_ensure_provider_present() {
    let mut client = new_client();

    let new_box = client
        .ensure_provider_present(&fresh_box(), &box_version_1(), &libvirt_provider_1(), false)
        .unwrap();

    assert!(new_box.description_markdown.is_none());

    let description = "This is a description".to_string();

    let box_with_description = VagrantBox {
        username: new_box.username.clone(),
        name: new_box.name.clone(),
        is_private: new_box.private,
        short_description: new_box.short_description.clone(),
        description: Some(description.clone()),
    };

    let updated_box = client.ensure_provider_present(
        &box_with_description,
        &box_version_1(),
        &libvirt_provider_1(),
        false,
    );
    assert!(updated_box.is_ok());

    let updated_box = updated_box.unwrap();

    assert!(updated_box.description_markdown.is_some());
    assert_eq!(updated_box.description_markdown, Some(description));
}

/// A changed provider URL updates the existing provider in place rather
/// than creating a second one.
#[test]
fn check_provider_updated_by_ensure_provider_present() {
    let mut client = new_client();
    let vagrant_box = fresh_box();

    let new_box = client
        .ensure_provider_present(&vagrant_box, &box_version_1(), &libvirt_provider_1(), false)
        .unwrap();

    let old_provider = &new_box.versions[0].providers[0];
    assert!(cmp_vagrant_providers(&libvirt_provider_1(), old_provider));

    let url = "https://this.url.doesn/t/exist.box".to_string();
    let provider_with_new_url = BoxProvider {
        name: libvirt_provider_1().name,
        url: url.clone(),
    };

    let updated_box = client.ensure_provider_present(
        &vagrant_box,
        &box_version_1(),
        &provider_with_new_url,
        false,
    );
    assert!(updated_box.is_ok());

    let updated_box = updated_box.unwrap();

    assert_eq!(updated_box.versions.len(), 1);
    assert_eq!(updated_box.versions[0].providers.len(), 1);

    let updated_provider = &updated_box.versions[0].providers[0];
    assert!(updated_provider.original_url.is_some());
    assert_eq!(updated_provider.original_url.as_ref().unwrap(), &url);
}

/// A second provider of another name joins the version; the first one
/// stays.
#[test]
fn test_add_second_provider() {
    let mut client = new_client();
    let vagrant_box = fresh_box();

    client
        .ensure_provider_present(&vagrant_box, &box_version_1(), &libvirt_provider_1(), false)
        .unwrap();

    let box_res = client
        .ensure_provider_present(&vagrant_box, &box_version_1(), &virtualbox_provider_1(), false)
        .unwrap();

    assert_eq!(box_res.username, "testuser");
    assert_eq!(box_res.name, "fresh_box");

    assert_eq!(box_res.versions.len(), 1);
    assert!(cmp_vagrant_versions(&box_version_1(), &box_res.versions[0]));

    let prov = &box_res.versions[0].providers;

    assert_eq!(box_res.versions[0].providers.len(), 2);
    assert!(prov.iter().any(|prov| cmp_vagrant_providers(&libvirt_provider_1(), prov)));
    assert!(prov.iter().any(|prov| cmp_vagrant_providers(&virtualbox_provider_1(), prov)));
}

/// A second version of another label joins the box, listed first, and
/// each version keeps its own provider set.
#[test]
fn test_add_second_version() {
    let mut client = new_client();
    let vagrant_box = fresh_box();

    client
        .ensure_provider_present(&vagrant_box, &box_version_1(), &libvirt_provider_1(), false)
        .unwrap();

    let box_res = client
        .ensure_provider_present(&vagrant_box, &box_version_2(), &libvirt_provider_2(), false)
        .unwrap();

    assert_eq!(box_res.username, "testuser");
    assert_eq!(box_res.name, "fresh_box");

    assert_eq!(box_res.versions.len(), 2);
    assert!(cmp_vagrant_versions(&box_version_2(), &box_res.versions[0]));
    assert!(cmp_vagrant_versions(&box_version_1(), &box_res.versions[1]));

    assert_eq!(box_res.versions[0].providers.len(), 1);
    assert!(cmp_vagrant_providers(&libvirt_provider_2(), &box_res.versions[0].providers[0]));
}

/// Add versions with two providers each in the standard way, then add
/// the target's libvirt provider with pruning: no libvirt provider is
/// left anywhere else, versions emptied by the pruning go, and versions
/// that held another provider survive with just that one.
#[test]
fn test_remove_all_other_providers() {
    let mut client = new_client();
    let vagrant_box = fresh_box();

    client
        .ensure_provider_present(&vagrant_box, &box_version_1(), &libvirt_provider_1(), false)
        .unwrap();
    client
        .ensure_provider_present(&vagrant_box, &box_version_1(), &virtualbox_provider_1(), false)
        .unwrap();

    client
        .ensure_provider_present(&vagrant_box, &box_version_2(), &libvirt_provider_2(), false)
        .unwrap();
    client
        .ensure_provider_present(&vagrant_box, &box_version_2(), &virtualbox_provider_1(), false)
        .unwrap();

    client
        .ensure_provider_present(&vagrant_box, &box_version_3(), &virtualbox_provider_1(), false)
        .unwrap();

    client
        .ensure_provider_present(&vagrant_box, &box_version_4(), &libvirt_provider_4(), false)
        .unwrap();

    let box_res = client
        .ensure_provider_present(&vagrant_box, &box_version_3(), &libvirt_provider_3(), true)
        .unwrap();

    assert_eq!(box_res.username, "testuser");
    assert_eq!(box_res.name, "fresh_box");

    assert_eq!(box_res.versions.len(), 3);

    let ver1_i = box_res
        .versions
        .iter()
        .position(|ver| cmp_vagrant_versions(&box_version_1(), ver))
        .unwrap();
    let ver2_i = box_res
        .versions
        .iter()
        .position(|ver| cmp_vagrant_versions(&box_version_2(), ver))
        .unwrap();
    let ver3_i = box_res
        .versions
        .iter()
        .position(|ver| cmp_vagrant_versions(&box_version_3(), ver))
        .unwrap();

    assert_eq!(box_res.versions[ver1_i].providers.len(), 1);
    assert!(cmp_vagrant_providers(
        &virtualbox_provider_1(),
        &box_res.versions[ver1_i].providers[0]
    ));

    assert_eq!(box_res.versions[ver2_i].providers.len(), 1);
    assert!(cmp_vagrant_providers(
        &virtualbox_provider_1(),
        &box_res.versions[ver2_i].providers[0]
    ));

    assert_eq!(box_res.versions[ver3_i].providers.len(), 2);
    assert!(box_res.versions[ver3_i]
        .providers
        .iter()
        .any(|prov| cmp_vagrant_providers(&libvirt_provider_3(), prov)));
    assert!(box_res.versions[ver3_i]
        .providers
        .iter()
        .any(|prov| cmp_vagrant_providers(&virtualbox_provider_1(), prov)));
}

/// Reconciling with pruning never deletes the provider that was passed
/// in, nor the target version's other providers.
#[test]
fn ensure_provider_present_doesnt_delete_passed_provider() {
    let mut client = new_client();
    let vagrant_box = fresh_box();

    client
        .ensure_provider_present(&vagrant_box, &box_version_1(), &libvirt_provider_1(), false)
        .unwrap();
    client
        .ensure_provider_present(&vagrant_box, &box_version_1(), &virtualbox_provider_1(), false)
        .unwrap();

    let ensure_res = client
        .ensure_provider_present(&vagrant_box, &box_version_1(), &libvirt_provider_1(), true)
        .unwrap();

    assert_eq!(ensure_res.username, "testuser");
    assert_eq!(ensure_res.name, "fresh_box");

    assert_eq!(ensure_res.versions.len(), 1);
    assert!(cmp_vagrant_versions(&box_version_1(), &ensure_res.versions[0]));

    let providers = &ensure_res.versions[0].providers;
    assert_eq!(providers.len(), 2);
    assert!(providers.iter().any(|prov| cmp_vagrant_providers(&libvirt_provider_1(), prov)));
    assert!(providers.iter().any(|prov| cmp_vagrant_providers(&virtualbox_provider_1(), prov)));
}

/// A read without a token succeeds against a readable box and reports
/// accurate identity fields.
#[test]
fn check_request_without_api_key_works() {
    let mut seeder = new_client();
    let trusty64 = VagrantBox::new("ubuntu".to_string(), "trusty64".to_string());
    seeder.create_box(&trusty64).unwrap();

    let client = Client::new(seeder.service, None);

    let ubuntu_box = client.read_box(&trusty64);

    assert!(ubuntu_box.is_ok());
    let ubuntu_box = ubuntu_box.unwrap();
    assert_eq!(ubuntu_box.name, "trusty64");
    assert_eq!(ubuntu_box.username, "ubuntu");
}

/// Repeating the same reconciliation leaves exactly one provider of the
/// name, still at the same URL, however often it runs.
#[test]
fn ensure_provider_present_is_idempotent() {
    let mut client = new_client();
    let vagrant_box = fresh_box();

    let first = client
        .ensure_provider_present(&vagrant_box, &box_version_1(), &libvirt_provider_1(), false)
        .unwrap();
    let second = client
        .ensure_provider_present(&vagrant_box, &box_version_1(), &libvirt_provider_1(), false)
        .unwrap();
    let third = client
        .ensure_provider_present(&vagrant_box, &box_version_1(), &libvirt_provider_1(), false)
        .unwrap();

    for box_res in [&first, &second, &third] {
        assert_eq!(box_res.versions.len(), 1);
        assert_eq!(box_res.versions[0].providers.len(), 1);
        assert!(cmp_vagrant_providers(&libvirt_provider_1(), &box_res.versions[0].providers[0]));
        assert_eq!(box_res.versions[0].status, "active");
    }
}
