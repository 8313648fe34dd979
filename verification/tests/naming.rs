use snippet_store::naming::{format_filename, is_valid_url};
use snippet_store::text::{ends_with, starts_with};

#[test]
fn test_format_filename_adds_extension() {
    assert_eq!(format_filename("my_snippet"), "my_snippet.txt");
}

#[test]
fn test_format_filename_keeps_extension() {
    assert_eq!(format_filename("already_has.txt"), "already_has.txt");
}

#[test]
fn test_valid_url() {
    assert!(is_valid_url("https://google.com"));
    assert!(!is_valid_url("not_a_url"));
}

#[test]
fn test_snippet_naming_integration() {
    let snippet_name = "database_config";
    let result = format_filename(snippet_name);
    assert!(result.contains("database_config"));
    assert!(result.ends_with(".txt"));
}

#[test]
fn format_filename_edge_cases() {
    assert_eq!(format_filename(""), ".txt");
    assert_eq!(format_filename(".txt"), ".txt");
    assert_eq!(format_filename("txt"), "txt.txt");
    assert_eq!(format_filename("a.TXT"), "a.TXT.txt");
    assert_eq!(format_filename("notes.txt.bak"), "notes.txt.bak.txt");
    assert_eq!(format_filename("größe"), "größe.txt");
    assert_eq!(format_filename("größe.txt"), "größe.txt");
}

#[test]
fn format_filename_is_idempotent() {
    let once = format_filename("report");
    assert_eq!(format_filename(&once), once);
}

#[test]
fn valid_url_edge_cases() {
    assert!(is_valid_url("http://example.com"));
    assert!(is_valid_url("http://"));
    assert!(is_valid_url("https://"));
    assert!(!is_valid_url(""));
    assert!(!is_valid_url("http:/"));
    assert!(!is_valid_url("HTTP://example.com"));
    assert!(!is_valid_url("ftp://example.com"));
    assert!(!is_valid_url(" https://example.com"));
    assert!(!is_valid_url("https:/example.com"));
}

#[test]
fn prefix_and_suffix_tests() {
    assert!(starts_with("hello", ""));
    assert!(starts_with("hello", "he"));
    assert!(starts_with("hello", "hello"));
    assert!(!starts_with("hello", "hello!"));
    assert!(!starts_with("hello", "el"));
    assert!(ends_with("hello", ""));
    assert!(ends_with("hello", "lo"));
    assert!(ends_with("hello", "hello"));
    assert!(!ends_with("hello", "xhello"));
    assert!(!ends_with("hello", "ll"));
    assert!(ends_with("naïve.txt", ".txt"));
    assert!(starts_with("éa", "é"));
    assert!(!starts_with("éa", "e"));
}
