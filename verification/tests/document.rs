use snippet_store::document::{fields_of, find_field, find_read, snippet_of};
use snippet_store::snippet::Snippet;

fn pair(name: &str, value: &str) -> (String, String) {
    (String::from(name), String::from(value))
}

fn read(name: &str, value: Option<&str>) -> (String, Option<String>) {
    (String::from(name), value.map(String::from))
}

#[test]
fn find_field_takes_the_first_member_of_that_name() {
    let fields = vec![pair("a", "1"), pair("b", "2"), pair("a", "3")];
    assert_eq!(find_field(&fields, "a"), Some(String::from("1")));
    assert_eq!(find_field(&fields, "b"), Some(String::from("2")));
    assert_eq!(find_field(&fields, "c"), None);
    assert_eq!(find_field(&fields, ""), None);
    assert_eq!(find_field(&Vec::new(), "a"), None);
}

#[test]
fn find_read_takes_the_first_member_of_that_name_if_it_is_a_string() {
    let fields = vec![read("a", Some("1")), read("b", None), read("a", Some("3")), read("b", Some("4"))];
    assert_eq!(find_read(&fields, "a"), Some(String::from("1")));
    assert_eq!(find_read(&fields, "b"), None);
    assert_eq!(find_read(&fields, "c"), None);
    assert_eq!(find_read(&Vec::new(), "a"), None);
}

#[test]
fn a_snippet_has_the_members_content_and_created_at() {
    let snippet = Snippet { content: String::from("c"), created_at: String::from("t") };
    assert_eq!(fields_of(&snippet), vec![pair("content", "c"), pair("created_at", "t")]);
    let back = snippet_of(&vec![read("content", Some("c")), read("created_at", Some("t"))]).unwrap();
    assert_eq!(back.content, "c");
    assert_eq!(back.created_at, "t");
}

#[test]
fn members_without_both_names_are_no_snippet() {
    assert!(snippet_of(&vec![read("content", Some("c"))]).is_none());
    assert!(snippet_of(&vec![read("created_at", Some("t"))]).is_none());
    assert!(snippet_of(&vec![]).is_none());
    assert!(snippet_of(&vec![read("Content", Some("c")), read("created_at", Some("t"))]).is_none());
    assert!(snippet_of(&vec![read("content", None), read("created_at", Some("t"))]).is_none());
    assert!(snippet_of(&vec![read("content", Some("c")), read("created_at", None)]).is_none());
    let with_more = snippet_of(&vec![
        read("x", None),
        read("created_at", Some("t")),
        read("y", Some("z")),
        read("content", Some("c")),
    ])
    .unwrap();
    assert_eq!(with_more.content, "c");
    assert_eq!(with_more.created_at, "t");
}
