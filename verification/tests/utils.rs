use blockverse_backend::text::{blank, trim};
use blockverse_backend::utils::crypto::{generate_id, hash_string};
use blockverse_backend::utils::validation::{is_valid_content, is_valid_username, sanitize_content};

#[test]
fn hash_of_abc() {
    assert_eq!(
        hash_string("abc"),
        "ba7816bf8f01cfea414140de5dae2223b00361a396177a9cb410ff61f20015ad"
    );
}

#[test]
fn hash_of_empty_text() {
    assert_eq!(
        hash_string(""),
        "e3b0c44298fc1c149afbf4c8996fb92427ae41e4649b934ca495991b7852b855"
    );
}

#[test]
fn generated_id_hashes_the_joined_parts() {
    assert_eq!(generate_id("post", "alice", 42), hash_string("post_alice_42"));
    assert_eq!(generate_id("", "", 0), hash_string("__0"));
    assert_ne!(generate_id("post", "alice", 42), generate_id("post", "alice", 43));
}

#[test]
fn usernames_by_shape() {
    assert!(is_valid_username("alice_01"));
    assert!(is_valid_username("a"));
    assert!(is_valid_username("abcdefghij0123456789"));
    assert!(!is_valid_username("abcdefghij0123456789x"));
    assert!(!is_valid_username(""));
    assert!(!is_valid_username("al ice"));
    assert!(!is_valid_username("al-ice"));
}

#[test]
fn content_by_shape() {
    assert!(is_valid_content("hello"));
    assert!(!is_valid_content("   \n\t"));
    assert!(!is_valid_content(""));
    assert!(is_valid_content(&"x".repeat(280)));
    assert!(!is_valid_content(&"x".repeat(281)));
}

#[test]
fn sanitizing_trims_both_ends() {
    assert_eq!(sanitize_content("  hi there \n"), "hi there");
    assert_eq!(sanitize_content(" \t "), "");
    assert_eq!(sanitize_content(""), "");
    assert_eq!(sanitize_content("x"), "x");
    assert_eq!(sanitize_content("\u{3000}a b\u{a0}"), "a b");
    assert_eq!(sanitize_content("  \u{e9}t\u{e9} "), "\u{e9}t\u{e9}");
    assert_eq!(trim(" a "), " a ".trim());
    assert_eq!(trim("\n\n"), "");
}

#[test]
fn blank_is_whitespace_only() {
    assert!(blank(""));
    assert!(blank(" \t\r\n\u{2003}"));
    assert!(!blank(" . "));
}
