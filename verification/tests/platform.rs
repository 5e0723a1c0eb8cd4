use rnvim::platform::platform_from_uname;

#[test]
fn known_platforms() {
    assert_eq!(platform_from_uname("Linux x86_64"), Some("linux-x86_64"));
    assert_eq!(platform_from_uname("Linux aarch64"), Some("linux-aarch64"));
    assert_eq!(platform_from_uname("Darwin x86_64"), Some("darwin-x86_64"));
    assert_eq!(platform_from_uname("Darwin arm64"), Some("darwin-aarch64"));
}

#[test]
fn unknown_platform_returns_none() {
    assert_eq!(platform_from_uname("Windows x86_64"), None);
    assert_eq!(platform_from_uname(""), None);
}

#[test]
fn trims_whitespace() {
    assert_eq!(platform_from_uname("  Linux x86_64\n"), Some("linux-x86_64"));
}

#[test]
fn trims_unicode_whitespace_and_tabs() {
    assert_eq!(platform_from_uname("\u{3000}\tDarwin arm64\r\n\u{a0}"), Some("darwin-aarch64"));
    assert_eq!(platform_from_uname("Linux  x86_64"), None);
    assert_eq!(platform_from_uname("linux x86_64"), None);
}
