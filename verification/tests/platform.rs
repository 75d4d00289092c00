use imessage_database::util::platform::Platform;

#[test]
fn can_parse_macos_any_case() {
    assert!(matches!(Platform::from_cli("macos"), Some(Platform::macOS)));
    assert!(matches!(Platform::from_cli("MACOS"), Some(Platform::macOS)));
    assert!(matches!(Platform::from_cli("MacOS"), Some(Platform::macOS)));
}

#[test]
fn can_parse_ios_any_case() {
    assert!(matches!(Platform::from_cli("ios"), Some(Platform::iOS)));
    assert!(matches!(Platform::from_cli("IOS"), Some(Platform::iOS)));
    assert!(matches!(Platform::from_cli("iOS"), Some(Platform::iOS)));
}

#[test]
fn can_parse_ios_fs_any_case() {
    assert!(matches!(Platform::from_cli("iosfs"), Some(Platform::iOSFS)));
    assert!(matches!(Platform::from_cli("iOSfs"), Some(Platform::iOSFS)));
    assert!(matches!(Platform::from_cli("iOSFS"), Some(Platform::iOSFS)));
    assert!(matches!(Platform::from_cli("iosFS"), Some(Platform::iOSFS)));
}

#[test]
fn cant_parse_invalid() {
    assert!(Platform::from_cli("mac").is_none());
    assert!(Platform::from_cli("iphone").is_none());
    assert!(Platform::from_cli("").is_none());
}

#[test]
fn platform_names_and_default() {
    assert_eq!(Platform::default(), Platform::macOS);
    assert_eq!(Platform::macOS.to_string(), "macOS");
    assert_eq!(Platform::iOS.to_string(), "iOS");
    assert_eq!(Platform::iOSFS.to_string(), "iOS_fs");
}

#[test]
fn platform_ignores_unicode_case_too() {
    // Uppercase letters outside ASCII are lowercased as well
    assert!(Platform::from_cli("İos").is_none());
    assert!(matches!(Platform::from_cli("MACOS"), Some(Platform::macOS)));
}
