use icrate::availability::{
    deprecated_attribute, platform_from_name, Availability, Platform, PlatformAvailability,
    Unavailable, Version,
};

fn record(platform: &str, unavailable: bool, deprecated: Option<Version>, message: Option<&str>) -> PlatformAvailability {
    PlatformAvailability {
        platform: platform.to_string(),
        unavailable,
        introduced: Some(Version { x: 10, y: Some(2), z: None }),
        deprecated,
        obsoleted: None,
        message: message.map(|m| m.to_string()),
    }
}

#[test]
fn nothing_unavailable_gives_no_attribute() {
    assert_eq!(Unavailable::none().to_string(), "");
}

#[test]
fn unavailable_platforms_give_cfg_attribute() {
    let mut u = Unavailable::none();
    u.ios = true;
    u.maccatalyst = true;
    assert_eq!(
        u.to_string(),
        "#[cfg(not(any(target_os = \"ios\",target = \"aarch64-apple-ios-macabi\",target = \"x86_64-apple-ios-macabi\")))]\n"
    );
}

#[test]
fn library_unavailability_is_left_out() {
    let mut lib = Unavailable::none();
    lib.macos = true;
    let mut u = Unavailable::none();
    u.macos = true;
    u.tvos = true;
    u.library_unavailablility = Some(Box::new(lib));
    assert_eq!(u.to_string(), "#[cfg(not(any(target_os = \"tvos\")))]\n");
}

#[test]
fn platform_names() {
    assert_eq!(platform_from_name(&"ios".to_string()), Some(Platform::Ios));
    assert_eq!(platform_from_name(&"macos_app_extension".to_string()), Some(Platform::MacosAppExtension));
    assert_eq!(platform_from_name(&"swift".to_string()), None);
    assert_eq!(platform_from_name(&"IOS".to_string()), None);
}

#[test]
fn attributes_are_applied_in_order() {
    let v = Version { x: 10, y: Some(15), z: None };
    let records = vec![
        record("macos", false, Some(v), Some("first")),
        record("ios", true, None, Some("second")),
        record("swift", true, None, None),
        record("unknownos", true, None, Some("ignored")),
    ];
    let a = Availability::from_attributes(records, &Unavailable::none());
    assert!(a.unavailable.ios);
    assert!(!a.unavailable.macos);
    assert_eq!(a.deprecated.macos, Some(v));
    assert_eq!(a.introduced.ios, Some(Version { x: 10, y: Some(2), z: None }));
    assert_eq!(a.message, Some("second".to_string()));
    assert_eq!(a.swift.as_ref().map(|s| s.platform.as_str()), Some("swift"));
    assert_eq!(
        a.to_string(),
        "#[deprecated = \"second\"]\n#[cfg(not(any(target_os = \"ios\")))]\n"
    );
}

#[test]
fn deprecated_without_message() {
    let v = Version { x: 1, y: None, z: None };
    let a = Availability::from_attributes(vec![record("tvos", false, Some(v), None)], &Unavailable::none());
    assert_eq!(a.to_string(), "#[deprecated]\n");
}

#[test]
fn not_deprecated_and_available_gives_nothing() {
    let a = Availability::from_attributes(vec![record("watchos", false, None, None)], &Unavailable::none());
    assert_eq!(a.to_string(), "");
    let b = Availability::from_attributes(Vec::new(), &Unavailable::none());
    assert_eq!(b.to_string(), "");
}

#[test]
fn deprecation_message_is_quoted() {
    let v = Version { x: 1, y: None, z: None };
    let a = Availability::from_attributes(
        vec![record("ios", false, Some(v), Some("use \"new\""))],
        &Unavailable::none(),
    );
    assert_eq!(a.to_string(), "#[deprecated = \"use \\\"new\\\"\"]\n");
}

#[test]
fn deprecated_attribute_lines() {
    let quoted = "\"m\"".to_string();
    assert_eq!(deprecated_attribute(Some(&quoted)), "#[deprecated = \"m\"]\n");
    assert_eq!(deprecated_attribute(None), "#[deprecated]\n");
}

#[test]
fn no_attribute_list_gives_none() {
    assert!(Availability::from_platform_availability(None, &Unavailable::none()).is_none());
    let a = Availability::from_platform_availability(
        Some(vec![record("ios", true, None, None)]),
        &Unavailable::none(),
    );
    assert!(a.map(|a| a.unavailable.ios).unwrap_or(false));
}
