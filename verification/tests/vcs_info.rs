use riggen_app::vcs_info::{short_hash, string_field};

#[test]
fn a_packaged_crate_names_its_commit() {
    let json = r#"{
  "git": {
    "sha1": "48f1845d0c3e2b9a7f6e5d4c3b2a1908f7e6d5c4"
  },
  "path_in_vcs": "crates/riggen-app"
}"#;
    assert_eq!(short_hash(json).as_deref(), Some("48f1845"));
}

#[test]
fn an_allow_dirty_package_says_so() {
    let json = r#"{"git":{"sha1":"48f1845d0c3e2b9a7f6e5d4c3b2a1908f7e6d5c4","dirty":true},"path_in_vcs":""}"#;
    assert_eq!(short_hash(json).as_deref(), Some("48f1845-dirty"));
    let clean = json.replace("true", "false");
    assert_eq!(short_hash(&clean).as_deref(), Some("48f1845"));
}

#[test]
fn no_hash_is_none_not_a_guess() {
    assert_eq!(short_hash(r#"{"path_in_vcs": ""}"#), None);
    assert_eq!(short_hash(r#"{"git": {"sha1": "xyz"}}"#), None);
    assert_eq!(short_hash(""), None);
}

#[test]
fn a_field_is_read_past_white_space_and_one_colon() {
    assert_eq!(string_field("{\"a\" :\t \"x y\", \"a\": \"z\"}", "a").as_deref(), Some("x y"));
    assert_eq!(string_field("{\"a\" :: \"x\"}", "a"), None);
    assert_eq!(string_field("{\"a\": 3}", "a"), None);
    assert_eq!(string_field("{\"a\": \"open", "a"), None);
    assert_eq!(string_field("{\"b\": \"x\"}", "a"), None);
}

#[test]
fn a_short_or_non_hex_sha_is_refused() {
    assert_eq!(short_hash(r#"{"sha1": "48f184"}"#), None);
    assert_eq!(short_hash(r#"{"sha1": "48f1845g"}"#), None);
    assert_eq!(short_hash(r#"{"sha1": "ABCDEF0"}"#).as_deref(), Some("ABCDEF0"));
    // Colons are skipped in any number before `true`.
    assert_eq!(short_hash(r#"{"sha1": "48f1845", "dirty" :: true}"#).as_deref(), Some("48f1845-dirty"));
}

#[test]
fn every_unicode_white_space_is_skipped_before_a_value() {
    let spaces: Vec<char> = (0u32..=0x10FFFF).filter_map(char::from_u32).filter(|c| c.is_whitespace()).collect();
    assert_eq!(spaces.len(), 25);
    let padding: String = spaces.iter().collect();
    let json = format!("{{\"sha1\"{padding}:{padding}\"abc\"}}");
    assert_eq!(string_field(&json, "sha1").as_deref(), Some("abc"));
    let not_space = format!("{{\"sha1\"\u{200B}: \"abc\"}}");
    assert_eq!(string_field(&not_space, "sha1"), None);
}
