//! Tests for the plain create/read/update/delete calls, run against the
//! verified in-memory service.

use vagabond::memory::InMemoryCloud;
use vagabond::{BoxProvider, BoxVersion, Client, VagrantBox};

fn new_client() -> Client<InMemoryCloud> {
    Client::new(InMemoryCloud::new(), Some("api-token".to_string()))
}

#[test]
fn box_creation_should_succeed() {
    let mut client = new_client();
    let vagrant_box = VagrantBox::new("testuser".to_string(), "test_box".to_string());

    let box_create_res = client.create_box(&vagrant_box);

    assert!(box_create_res.is_ok());

    let box_res = box_create_res.unwrap();
    assert_eq!(box_res.username, "testuser");
    assert_eq!(box_res.name, "test_box");
}

#[test]
fn version_creation_should_succeed() {
    let version = "2.1.3";
    let description = "This is a box for version testing";
    let mut client = new_client();
    let vagrant_box = VagrantBox::new("testuser".to_string(), "test_version_box".to_string());
    client.create_box(&vagrant_box).unwrap();

    let box_version = BoxVersion {
        version: version.to_string(),
        description: description.to_string(),
    };
    let ver_create_res = client.create_version(&vagrant_box, &box_version);
    assert!(ver_create_res.is_ok());

    let version_result = ver_create_res.unwrap();

    assert_eq!(version_result.version, version);
    if version_result.description_markdown.is_some() {
        assert_eq!(version_result.description_markdown.unwrap(), description);
    }
}

#[test]
fn version_deletion_should_work() {
    let version = "42.21.11";
    let mut client = new_client();
    let vagrant_box = VagrantBox::new("testuser".to_string(), "test_version_box".to_string());
    client.create_box(&vagrant_box).unwrap();

    let box_version = BoxVersion {
        version: version.to_string(),
        description: "This is a test Box".to_string(),
    };
    client.create_version(&vagrant_box, &box_version).unwrap();

    let delete_res = client.delete_version(&vagrant_box, &box_version);

    assert!(delete_res.is_ok());

    assert_eq!(delete_res.unwrap().version, version);
}

#[test]
fn read_box_reports_a_missing_box_as_not_found() {
    let client = new_client();
    let vagrant_box = VagrantBox::new("testuser".to_string(), "no_such_box".to_string());

    let res = client.read_box(&vagrant_box);
    assert!(res.is_err());
    assert_eq!(res.unwrap_err().into_status(), Some(404));
}

#[test]
fn creating_a_box_twice_is_refused() {
    let mut client = new_client();
    let vagrant_box = VagrantBox::new("testuser".to_string(), "test_box".to_string());

    client.create_box(&vagrant_box).unwrap();
    let second = client.create_box(&vagrant_box);
    assert!(second.is_err());
    assert_eq!(second.unwrap_err().into_status(), Some(422));
}

#[test]
fn release_version_marks_the_version_active() {
    let mut client = new_client();
    let vagrant_box = VagrantBox::new("testuser".to_string(), "test_box".to_string());
    client.create_box(&vagrant_box).unwrap();

    let box_version = BoxVersion {
        version: "1.0.0".to_string(),
        description: "first".to_string(),
    };
    let created = client.create_version(&vagrant_box, &box_version).unwrap();
    assert_eq!(created.status, "unreleased");

    let released = client.release_version(&vagrant_box, &box_version).unwrap();
    assert_eq!(released.status, "active");
}

#[test]
fn read_version_returns_the_stored_version() {
    let mut client = new_client();
    let vagrant_box = VagrantBox::new("testuser".to_string(), "test_box".to_string());
    client.create_box(&vagrant_box).unwrap();

    let box_version = BoxVersion {
        version: "3.4.5".to_string(),
        description: "a version to read back".to_string(),
    };
    client.create_version(&vagrant_box, &box_version).unwrap();

    let read = client.read_version(&vagrant_box, &box_version).unwrap();
    assert_eq!(read.version, "3.4.5");
    assert_eq!(read.description_markdown, Some("a version to read back".to_string()));
}

#[test]
fn update_version_replaces_the_description() {
    let mut client = new_client();
    let vagrant_box = VagrantBox::new("testuser".to_string(), "test_box".to_string());
    client.create_box(&vagrant_box).unwrap();

    let box_version = BoxVersion {
        version: "3.4.5".to_string(),
        description: "before".to_string(),
    };
    client.create_version(&vagrant_box, &box_version).unwrap();

    let changed = BoxVersion {
        version: "3.4.5".to_string(),
        description: "after".to_string(),
    };
    let updated = client.update_version(&vagrant_box, &changed).unwrap();
    assert_eq!(updated.version, "3.4.5");
    assert_eq!(updated.description_markdown, Some("after".to_string()));
}

#[test]
fn provider_update_and_deletion_work_in_place() {
    let mut client = new_client();
    let vagrant_box = VagrantBox::new("testuser".to_string(), "test_box".to_string());
    client.create_box(&vagrant_box).unwrap();

    let box_version = BoxVersion {
        version: "3.4.5".to_string(),
        description: "holds providers".to_string(),
    };
    client.create_version(&vagrant_box, &box_version).unwrap();

    let provider = BoxProvider {
        name: "libvirt".to_string(),
        url: "https://foo.bar.baz/one.box".to_string(),
    };
    let created = client.create_provider(&vagrant_box, &box_version, &provider).unwrap();
    assert_eq!(created.name, "libvirt");
    assert_eq!(created.original_url, Some("https://foo.bar.baz/one.box".to_string()));
    assert!(!created.hosted);

    let moved = BoxProvider {
        name: "libvirt".to_string(),
        url: "https://foo.bar.baz/two.box".to_string(),
    };
    let updated = client.update_provider(&vagrant_box, &box_version, &moved).unwrap();
    assert_eq!(updated.original_url, Some("https://foo.bar.baz/two.box".to_string()));

    let deleted = client.delete_provider(&vagrant_box, &box_version, &moved).unwrap();
    assert_eq!(deleted.name, "libvirt");

    let read = client.read_version(&vagrant_box, &box_version).unwrap();
    assert_eq!(read.providers.len(), 0);
}

#[test]
fn deleting_a_box_removes_it() {
    let mut client = new_client();
    let vagrant_box = VagrantBox::new("testuser".to_string(), "test_box".to_string());
    client.create_box(&vagrant_box).unwrap();

    let deleted = client.delete_box(&vagrant_box).unwrap();
    assert_eq!(deleted.name, "test_box");

    let res = client.read_box(&vagrant_box);
    assert!(res.is_err());
    assert_eq!(res.unwrap_err().into_status(), Some(404));
}
