use cnut::dirs::{cache, DirError};
use cnut::paths::join;
use cnut::text::{address_string, decimal_string};
use cnut::toolchain::{is_space, pinned_nightly, pinned_stable, split_lines};
use cnut::web::{beautify_toml, style};

#[test]
fn beautify_marks_headers() {
    let out = beautify_toml("[network]\r\nbind = 1\n[]\n[x\n".to_string());
    assert_eq!(
        out,
        "<code><pre><span class=\"strong\">[network]</span>\nbind = 1\n<span class=\"strong\">[]</span>\n[x\n</pre></code>"
    );
    assert_eq!(beautify_toml(String::new()), "<code><pre></pre></code>");
    assert_eq!(beautify_toml("a\n\nb".to_string()), "<code><pre>a\n\nb\n</pre></code>");
}

#[test]
fn style_wraps_content() {
    let page = style("<p>hi</p>".to_string());
    assert!(page.starts_with("<html lang=\"en\">\n\n<head>"));
    assert!(page.contains("<title>Casper Utilities for Network Testing</title>"));
    assert!(page.contains("code {\n    .strong {"));
    assert!(page.ends_with("<body>\n    <p>hi</p>\n</body>\n\n</html>"));
}

#[test]
fn lines_match_std() {
    for text in ["", "a", "a\n", "a\r\nb", "a\rb\r", "\n\n", "x\r\n\r\n"] {
        let ours: Vec<String> = split_lines(text).into_iter().map(|l| l.into_iter().collect()).collect();
        let std: Vec<String> = text.lines().map(|l| l.to_string()).collect();
        assert_eq!(ours, std, "{text:?}");
    }
}

#[test]
fn pinned_toolchains() {
    assert_eq!(pinned_nightly("nightly-2024-01-01\nother\n"), Some("nightly-2024-01-01".to_string()));
    assert_eq!(pinned_nightly(""), None);
    let file = "[toolchain]\n  channel = \"1.77.2\"\ncomponents = []\n";
    assert_eq!(pinned_stable(file), Some("1.77.2".to_string()));
    assert_eq!(pinned_stable("[toolchain]\n\tchannel=\"x\" \"y\"\n"), Some("x".to_string()));
    assert_eq!(pinned_stable("[toolchain]\nchannel = 1\n"), None);
    assert_eq!(pinned_stable("[toolchain]\n"), None);
    assert_eq!(pinned_stable("x = \"channel\"\n"), None);
}

#[test]
fn numbers_addresses_and_paths() {
    assert_eq!(decimal_string(0), "0");
    assert_eq!(decimal_string(1234567890), "1234567890");
    assert_eq!(decimal_string(u64::MAX), u64::MAX.to_string());
    assert_eq!(address_string("127.0.0.1", 34000), "127.0.0.1:34000");
    assert_eq!(join("a", "b"), "a/b");
    assert_eq!(join("a/", "b"), "a/b");
    assert_eq!(join("", "b"), "/b");
}

#[test]
fn cache_directory_lookup() {
    match cache() {
        Ok(dir) => assert!(!dir.is_empty()),
        Err(e) => assert_eq!(e, DirError::FailedToFindBaseDirectory),
    }
}

#[test]
fn white_space_matches_std_on_every_char() {
    for c in (0u32..=0x10FFFF).filter_map(char::from_u32) {
        assert_eq!(is_space(c), c.is_whitespace(), "{:#x}", c as u32);
    }
}
