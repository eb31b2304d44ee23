use touconv::constants::WORD_2006;
use touconv::parsers::xml::common::{Event, ParseState, Tag};
use touconv::parsers::xml::subparsers::ooxml::Parser;
use touconv::{ElementEvent, ElementStart, ElementStartVariant, ParseError};

fn assert_parser_sends_event(
    xml_event: Event,
    parse_state: ParseState,
    expected_events: Vec<ElementEvent>,
) {
    let parser = Parser::new();
    let mut out: Vec<Result<ElementEvent, ParseError>> = Vec::new();
    parser.handle_xml_event(&xml_event, &parse_state, &mut out);
    assert_eq!(out.len(), expected_events.len());
    for (got, expected) in out.iter().zip(expected_events.iter()) {
        match got {
            Ok(event) => assert_eq!(event, expected),
            Err(_) => panic!("the subparser reported an error"),
        }
    }
}

#[test]
fn parser_sends_events() {
    assert_parser_sends_event(
        Event::Text("test"),
        ParseState::with_open_tags(vec![Tag::from_refs(WORD_2006, "t")]),
        vec![ElementEvent::Text("test".to_string())],
    );
    assert_parser_sends_event(
        Event::Text("test"),
        ParseState::with_open_tags(vec![Tag::from_refs(WORD_2006, "p")]),
        vec![],
    );
    assert_parser_sends_event(
        Event::TagAboutToOpen(&Tag::from_refs(WORD_2006, "p")),
        ParseState::with_open_tags(vec![]),
        vec![ElementEvent::Start(ElementStart::simple(ElementStartVariant::Paragraph))],
    );
    assert_parser_sends_event(
        Event::TagAboutToOpen(&Tag::from_refs("unknown", "p")),
        ParseState::with_open_tags(vec![]),
        vec![],
    );
    assert_parser_sends_event(
        Event::TagAboutToOpen(&Tag::from_refs(WORD_2006, "unknown")),
        ParseState::with_open_tags(vec![]),
        vec![],
    );
    assert_parser_sends_event(
        Event::TagClosed(&Tag::from_refs(WORD_2006, "p")),
        ParseState::with_open_tags(vec![]),
        vec![ElementEvent::End],
    );
    assert_parser_sends_event(
        Event::TagClosed(&Tag::from_refs("unknown", "p")),
        ParseState::with_open_tags(vec![]),
        vec![],
    );
    assert_parser_sends_event(
        Event::TagClosed(&Tag::from_refs(WORD_2006, "unknown")),
        ParseState::with_open_tags(vec![]),
        vec![],
    )
}

#[test]
fn text_is_read_from_the_innermost_tag_only() {
    assert_parser_sends_event(
        Event::Text("inner"),
        ParseState::with_open_tags(vec![
            Tag::from_refs(WORD_2006, "t"),
            Tag::from_refs(WORD_2006, "r"),
        ]),
        vec![],
    );
    assert_parser_sends_event(
        Event::Text(" a & b "),
        ParseState::with_open_tags(vec![
            Tag::from_refs(WORD_2006, "p"),
            Tag::from_refs(WORD_2006, "r"),
            Tag::from_refs(WORD_2006, "t"),
        ]),
        vec![ElementEvent::Text(" a & b ".to_string())],
    );
}
