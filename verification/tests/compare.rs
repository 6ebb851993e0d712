//! Tests for the equivalence predicates between desired specifications
//! and reported representations.

use vagabond::api;
use vagabond::errors::Error;
use vagabond::{cmp_vagrant_boxes, cmp_vagrant_providers, cmp_vagrant_versions, compare_strings};
use vagabond::{BoxProvider, BoxVersion, VagrantBox};

#[test]
fn compare_providers() {
    let box_provider = BoxProvider {
        name: "libvirt".to_string(),
        url: "https://foo.bar.baz/my/box/img.box".to_string(),
    };

    let mut api_response = api::Provider {
        name: "libvirt".to_string(),
        original_url: Some("https://foo.bar.baz/my/box/img.box".to_string()),
        ..Default::default()
    };

    assert!(cmp_vagrant_providers(&box_provider, &api_response));

    api_response.name = "bla".to_string();
    assert!(!cmp_vagrant_providers(&box_provider, &api_response));

    api_response.name = "libvirt".to_string();
    api_response.original_url = None;
    assert!(!cmp_vagrant_providers(&box_provider, &api_response));
}

#[test]
fn compare_versions() {
    let box_version = BoxVersion {
        version: "5.6.8".to_string(),
        description: "The best version to come!".to_string(),
    };

    let mut api_response = api::Version {
        version: "5.6.8".to_string(),
        ..Default::default()
    };

    assert!(!cmp_vagrant_versions(&box_version, &api_response));

    api_response.description_markdown = Some("The best version to come!".to_string());
    assert!(cmp_vagrant_versions(&box_version, &api_response));

    api_response.version = "1.2.3".to_string();
    assert!(!cmp_vagrant_versions(&box_version, &api_response));
}

#[test]
fn compare_boxes() {
    let vagrant_box = VagrantBox::new("me".to_string(), "MY_BOX".to_string());

    let mut api_response = api::VagrantBox {
        username: "me".to_string(),
        name: "MY_BOX".to_string(),
        ..Default::default()
    };

    // A specification that omits its descriptions never matches, even
    // when the reported box omits them too: absence is not implicit
    // agreement.
    assert!(!cmp_vagrant_boxes(&vagrant_box, &api_response));

    api_response.private = Some(true);
    assert!(!cmp_vagrant_boxes(&vagrant_box, &api_response));
}

#[test]
fn compare_boxes_with_all_fields_set() {
    let vagrant_box = VagrantBox {
        username: "me".to_string(),
        name: "MY_BOX".to_string(),
        short_description: Some("short".to_string()),
        description: Some("long".to_string()),
        is_private: Some(false),
    };

    let mut api_response = api::VagrantBox {
        username: "me".to_string(),
        name: "MY_BOX".to_string(),
        short_description: Some("short".to_string()),
        description_markdown: Some("long".to_string()),
        private: Some(false),
        ..Default::default()
    };

    assert!(cmp_vagrant_boxes(&vagrant_box, &api_response));

    api_response.description_markdown = Some("changed".to_string());
    assert!(!cmp_vagrant_boxes(&vagrant_box, &api_response));

    api_response.description_markdown = Some("long".to_string());
    api_response.private = Some(true);
    assert!(!cmp_vagrant_boxes(&vagrant_box, &api_response));

    api_response.private = None;
    assert!(!cmp_vagrant_boxes(&vagrant_box, &api_response));
}

#[test]
fn compare_strings_never_matches_an_absent_value() {
    let wanted = "value".to_string();
    assert!(compare_strings(&wanted, &Some("value".to_string())));
    assert!(!compare_strings(&wanted, &Some("other".to_string())));
    assert!(!compare_strings(&wanted, &None));
}

#[test]
fn error_into_status() {
    let err = Error::ApiCallFailure(404, "Resource not found!".to_string());
    assert_eq!(err.into_status(), Some(404));

    let other_error = Error::InternalError("oops".to_string());
    assert_eq!(other_error.into_status(), None);

    let io_error = Error::Io("connection refused".to_string());
    assert_eq!(io_error.into_status(), None);

    let unexpected = Error::UnexpectedResponse("<html>".to_string());
    assert_eq!(unexpected.into_status(), None);
}
