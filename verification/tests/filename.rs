use chunkdl::filename::{add_default_extension, clean_filename, extract_filename, sanitize_name};

fn assert_usable(name: &str) {
    assert!(!name.is_empty());
    assert!(name.contains('.'));
    assert!(name.chars().all(|c| !c.is_control()));
}

#[test]
fn derives_names_for_ordinary_urls() {
    assert_eq!(extract_filename("http://h/a/b.txt"), "b.txt");
    assert_eq!(extract_filename("http://h/a%20b"), "a b.bin");
    assert_eq!(extract_filename("http://example.com/dir/archive.tar.gz"), "archive.tar.gz");
}

#[test]
fn falls_back_for_rootless_and_invalid_urls() {
    assert_eq!(extract_filename(""), "invalid_url.bin");
    assert_eq!(extract_filename("::not a url::"), "invalid_url.bin");
    assert_eq!(extract_filename("http://h/"), "h.bin");
}

#[test]
fn derivation_is_total() {
    for url in [
        "",
        "http://h/",
        "http://h/a/b.txt",
        "http://h/a%20b",
        "::not a url::",
        "http://h/a/b/c///",
        "http://h/%00%01",
        "http://h/%2e%2e/x%2Fy",
        "https://[::1]:8080/p/q",
        "file:///etc/passwd",
    ] {
        let name = extract_filename(url);
        assert_usable(&name);
    }
}

#[test]
fn decoded_separators_are_neutralized() {
    // %2F decodes to a slash, which may not survive into a file name
    assert_eq!(extract_filename("http://h/a%2Fb"), "a_b.bin");
    assert_eq!(clean_filename("a%2Fb"), "a_b");
    assert_eq!(clean_filename("a%20b"), "a b");
    // invalid UTF-8 after decoding falls back to an empty name
    assert_eq!(clean_filename("%ff%fe"), "");
}

#[test]
fn sanitizer_replaces_forbidden_characters() {
    assert_eq!(sanitize_name("a/b\\c:d*e"), "a_b_c_d_e");
    assert_eq!(sanitize_name("tab\tnl\n"), "tab_nl_");
    assert_eq!(sanitize_name("plain-name"), "plain-name");
}

#[test]
fn default_extension_only_when_missing() {
    assert_eq!(add_default_extension("report".to_string()), "report.bin");
    assert_eq!(add_default_extension("report.txt".to_string()), "report.txt");
    assert_eq!(add_default_extension(String::new()), ".bin");
}

#[test]
fn trailing_slashes_do_not_hide_the_segment() {
    assert_eq!(extract_filename("http://h/a/b.txt///"), "b.txt");
}
