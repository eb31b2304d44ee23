use touconv::constants::WORD_2006;
use touconv::parsers::xml::common::Tag;
use touconv::parsers::xml::registry::SubparserRegistry;
use touconv::parsers::xml::{Parser, Token};
use touconv::{ElementEvent, ElementStart, ElementStartVariant, ParseError};

fn start(namespace: &str, name: &str) -> Token {
    Token::Start {
        namespace: Some(namespace.as_bytes().to_vec()),
        local_name: name.as_bytes().to_vec(),
    }
}

fn end(name: &str) -> Token {
    Token::End { name: name.as_bytes().to_vec() }
}

fn text(content: &str) -> Token {
    Token::Text { content: content.as_bytes().to_vec() }
}

fn paragraph() -> ElementEvent {
    ElementEvent::Start(ElementStart::simple(ElementStartVariant::Paragraph))
}

fn events(out: Vec<Result<ElementEvent, ParseError>>) -> Vec<ElementEvent> {
    out.into_iter()
        .map(|r| match r {
            Ok(e) => e,
            Err(e) => panic!("unexpected error: {}", e.message()),
        })
        .collect()
}

fn is_invalid_input(r: &Result<ElementEvent, ParseError>) -> bool {
    matches!(r, Err(ParseError::InvalidInput { .. }))
}

#[test]
fn paragraph_with_two_runs() {
    let tokens = vec![
        start(WORD_2006, "document"),
        start(WORD_2006, "body"),
        start(WORD_2006, "p"),
        start(WORD_2006, "r"),
        start(WORD_2006, "rPr"),
        end("w:rPr"),
        start(WORD_2006, "t"),
        text("Hello "),
        end("w:t"),
        end("w:r"),
        start(WORD_2006, "r"),
        start(WORD_2006, "t"),
        text("world"),
        end("w:t"),
        end("w:r"),
        end("w:p"),
        end("w:body"),
        end("w:document"),
        Token::Eof,
    ];
    let out = Parser::new().parse(&tokens);
    assert_eq!(
        events(out),
        vec![
            paragraph(),
            ElementEvent::Text("Hello ".to_string()),
            ElementEvent::Text("world".to_string()),
            ElementEvent::End,
        ]
    );
}

#[test]
fn unknown_namespace_wrapper_is_silent_but_inner_text_is_kept() {
    let tokens = vec![
        start("urn:unknown", "wrapper"),
        start(WORD_2006, "t"),
        text("inside"),
        end("w:t"),
        text("under the wrapper"),
        end("x:wrapper"),
        Token::Eof,
    ];
    let out = Parser::new().parse(&tokens);
    assert_eq!(events(out), vec![ElementEvent::Text("inside".to_string())]);
}

#[test]
fn closing_with_nothing_open_reports_one_error() {
    let mut parser = Parser::new();
    let mut out = Vec::new();
    assert!(parser.handle_token(&end("w:p"), &mut out));
    assert_eq!(out.len(), 1);
    assert!(is_invalid_input(&out[0]));
    match &out[0] {
        Err(ParseError::InvalidInput { explanation }) => {
            assert_eq!(explanation, "Found closing tag when no tags were open: w:p")
        }
        _ => panic!("expected an invalid-input error"),
    }
    assert!(parser.parse_state().last_opened_tag().is_none());
    assert!(parser.handle_token(&start(WORD_2006, "p"), &mut out));
    assert!(parser.handle_token(&end("w:p"), &mut out));
    assert_eq!(out.len(), 3);
    assert_eq!(out[1].as_ref().ok(), Some(&paragraph()));
    assert_eq!(out[2].as_ref().ok(), Some(&ElementEvent::End));
}

#[test]
fn text_at_the_root_or_under_an_unknown_namespace_is_silent() {
    let tokens = vec![
        text("  \n"),
        start("urn:unknown", "t"),
        text("ignored"),
        end("x:t"),
        text("after"),
        Token::Eof,
    ];
    assert!(Parser::new().parse(&tokens).is_empty());
}

#[test]
fn word_text_is_kept_verbatim() {
    let tokens = vec![start(WORD_2006, "t"), text(" spaced  out\ttext é "), end("w:t")];
    let out = Parser::new().parse(&tokens);
    assert_eq!(events(out), vec![ElementEvent::Text(" spaced  out\ttext é ".to_string())]);
}

#[test]
fn text_under_a_word_tag_other_than_t_is_silent() {
    let tokens = vec![start(WORD_2006, "p"), text("x"), end("w:p")];
    let out = Parser::new().parse(&tokens);
    assert_eq!(events(out), vec![paragraph(), ElementEvent::End]);
}

#[test]
fn invalid_utf8_reports_invalid_input_and_goes_on() {
    let tokens = vec![
        Token::Start { namespace: Some(vec![0xff, 0xfe]), local_name: b"p".to_vec() },
        Token::Start { namespace: Some(WORD_2006.as_bytes().to_vec()), local_name: vec![0xc3] },
        start(WORD_2006, "t"),
        Token::Text { content: vec![0x80] },
        text("ok"),
        end("w:t"),
        Token::Eof,
    ];
    let out = Parser::new().parse(&tokens);
    assert_eq!(out.len(), 4);
    assert!(is_invalid_input(&out[0]));
    assert!(is_invalid_input(&out[1]));
    assert!(is_invalid_input(&out[2]));
    assert_eq!(out[3].as_ref().ok(), Some(&ElementEvent::Text("ok".to_string())));
}

#[test]
fn other_tokens_are_ignored() {
    let tokens = vec![Token::Other, start(WORD_2006, "p"), Token::Other, end("w:p")];
    let out = Parser::new().parse(&tokens);
    assert_eq!(events(out), vec![paragraph(), ElementEvent::End]);
}

#[test]
fn start_tags_without_namespace_are_nesting_context() {
    let tokens = vec![
        start(WORD_2006, "p"),
        Token::Start { namespace: None, local_name: b"x".to_vec() },
        end("x"),
        end("w:p"),
        Token::Eof,
    ];
    let out = Parser::new().parse(&tokens);
    assert_eq!(events(out), vec![paragraph(), ElementEvent::End]);

    let mut parser = Parser::new();
    let mut out = Vec::new();
    parser.handle_token(&Token::Start { namespace: None, local_name: b"t".to_vec() }, &mut out);
    let open = parser.parse_state().last_opened_tag().unwrap();
    assert!(open.matches("", "t"));
    parser.handle_token(&text("not word text"), &mut out);
    assert!(out.is_empty());
}

#[test]
fn nothing_after_end_of_stream_is_read() {
    let mut parser = Parser::new();
    let mut out = Vec::new();
    assert!(!parser.handle_token(&Token::Eof, &mut out));
    assert!(out.is_empty());
    let tokens = vec![start(WORD_2006, "p"), Token::Eof, end("w:p"), end("w:body")];
    let out = Parser::new().parse(&tokens);
    assert_eq!(events(out), vec![paragraph()]);
}

#[test]
fn nested_paragraphs_balance() {
    let tokens = vec![
        start(WORD_2006, "p"),
        start(WORD_2006, "p"),
        end("w:p"),
        start(WORD_2006, "p"),
        end("w:p"),
        end("w:p"),
    ];
    let out = events(Parser::new().parse(&tokens));
    let mut depth: i32 = 0;
    for e in &out {
        match e {
            ElementEvent::Start(_) => depth += 1,
            ElementEvent::End => depth -= 1,
            ElementEvent::Text(_) => {}
        }
        assert!(depth >= 0);
    }
    assert_eq!(depth, 0);
    assert_eq!(out.len(), 6);
}

#[test]
fn subparsers_are_reused() {
    let mut registry = SubparserRegistry::new();
    assert_eq!(registry.subparser_for(WORD_2006), Some(0));
    assert_eq!(registry.len(), 1);
    assert_eq!(registry.subparser_for("urn:unknown"), None);
    assert_eq!(registry.len(), 1);
    assert_eq!(registry.subparser_for(WORD_2006), Some(0));
    assert_eq!(registry.len(), 1);
}

#[test]
fn decoded_tags_and_text_follow_the_innermost_tag() {
    let mut parser = Parser::new();
    let mut out = Vec::new();
    parser.handle_decoded_text("root", &mut out);
    assert!(out.is_empty());
    parser.open_decoded_tag(Tag::from_refs(WORD_2006, "p"), &mut out);
    parser.open_decoded_tag(Tag::from_refs(WORD_2006, "t"), &mut out);
    parser.handle_decoded_text("kept", &mut out);
    parser.open_decoded_tag(Tag::from_refs("urn:unknown", "x"), &mut out);
    parser.handle_decoded_text("dropped", &mut out);
    assert!(parser.parse_state().last_opened_tag().unwrap().matches("urn:unknown", "x"));
    assert_eq!(events(out), vec![paragraph(), ElementEvent::Text("kept".to_string())]);
}
