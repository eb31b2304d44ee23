use touconv::parsers::xml::common::{str_eq, ParseState, Tag};

#[test]
fn tag_matches_namespace_and_name() {
    let tag = Tag::new("ns".to_string(), "p".to_string());
    assert!(tag.matches("ns", "p"));
    assert!(!tag.matches("ns", "t"));
    assert!(!tag.matches("other", "p"));
    assert!(!tag.matches("n", "p"));
    assert_eq!(tag.namespace(), "ns");
    assert_eq!(tag.name(), "p");
    let same = Tag::from_refs("ns", "p");
    assert!(same.matches(tag.namespace(), tag.name()));
}

#[test]
fn strings_compare_by_characters() {
    assert!(str_eq("", ""));
    assert!(str_eq("héllo", "héllo"));
    assert!(!str_eq("hello", "hellö"));
    assert!(!str_eq("abc", "ab"));
}

#[test]
fn parse_state_is_a_stack() {
    let mut state = ParseState::new();
    assert!(state.last_opened_tag().is_none());
    assert!(state.close_tag().is_none());
    state.open_tag(Box::new(Tag::from_refs("a", "x")));
    state.open_tag(Box::new(Tag::from_refs("b", "y")));
    assert!(state.last_opened_tag().unwrap().matches("b", "y"));
    let closed = state.close_tag().unwrap();
    assert!(closed.matches("b", "y"));
    assert!(state.last_opened_tag().unwrap().matches("a", "x"));
    assert!(state.close_tag().unwrap().matches("a", "x"));
    assert!(state.close_tag().is_none());
    assert!(state.last_opened_tag().is_none());
}

#[test]
fn parse_state_from_open_tags() {
    let state = ParseState::with_open_tags(vec![Tag::from_refs("a", "x"), Tag::from_refs("b", "y")]);
    assert!(state.last_opened_tag().unwrap().matches("b", "y"));
}
