use crate::errors::ParseError;
use crate::events::ElementEvent;
use crate::parsers::{delivered, emitted, emitted_of, Emitted};
use vstd::prelude::*;

pub mod common;
pub mod laws;
pub mod registry;
pub mod subparsers;

use self::common::{Event, ParseState, Tag, TagView, XmlEventView};
use self::registry::{registry_after, SubparserRegistry};
use self::subparsers::{has_subparser, subparser_events};

verus! {

/// One token of a namespace-aware tokenizer, with its names and text as raw bytes.
#[derive(Debug)]
pub enum Token {
    /// An element starts; `namespace` is `None` where it has no namespace, and the
    /// tag then gets the empty one.
    Start { namespace: Option<Vec<u8>>, local_name: Vec<u8> },
    /// An element ends; `name` is its name as written.
    End { name: Vec<u8> },
    Text { content: Vec<u8> },
    /// The input is over.
    Eof,
    /// Any other token, or a failure of the tokenizer.
    Other,
}

/// The text that some bytes hold as UTF-8, or, where they are not valid UTF-8, the
/// description of the decoding error.
pub uninterp spec fn utf8_decoded(b: Seq<u8>) -> Result<Seq<char>, Seq<char>>;

/// Relies on quick_xml::Reader::decode (without the `encoding` feature): the bytes
/// read as UTF-8, or the error where they are not valid UTF-8, which depends on the
/// bytes alone and is handed on as its debug text.
#[verifier::external_body]
fn decode(bytes: &[u8]) -> (r: Result<String, String>)
    ensures
        match r {
            Ok(s) => utf8_decoded(bytes@) == Ok::<Seq<char>, Seq<char>>(s@),
            Err(e) => utf8_decoded(bytes@) == Err::<Seq<char>, Seq<char>>(e@),
        },
{
    match quick_xml::Reader::from_str("").decode(bytes) {
        Ok(s) => Ok(s.to_string()),
        Err(e) => Err(format!("{:#?}", e)),
    }
}

/// What a consumer receives when the subparser of namespace `ns` handles `ev`.
pub open spec fn dispatched(ns: Seq<char>, ev: XmlEventView, open: Seq<TagView>) -> Seq<Emitted> {
    delivered(subparser_events(ns, ev, open))
}

/// The tag that a start token names: its namespace and local name decoded, the
/// namespace first; a start without a namespace gets the empty one.
pub open spec fn decoded_tag(ns: Option<Seq<u8>>, local_name: Seq<u8>) -> Result<TagView, Seq<char>> {
    match ns {
        Some(ns) => match utf8_decoded(ns) {
            Err(e) => Err(e),
            Ok(n) => match utf8_decoded(local_name) {
                Err(e) => Err(e),
                Ok(l) => Ok((n, l)),
            },
        },
        None => match utf8_decoded(local_name) {
            Err(e) => Err(e),
            Ok(l) => Ok((Seq::empty(), l)),
        },
    }
}

/// The effect of a start tag: the open tags after it, and what the consumer receives.
pub open spec fn step_start(open: Seq<TagView>, ns: Option<Seq<u8>>, local_name: Seq<u8>) -> (
    Seq<TagView>,
    Seq<Emitted>,
) {
    match decoded_tag(ns, local_name) {
        Ok(t) => open_effect(open, t),
        Err(e) => (open, seq![Emitted::InvalidInput(e)]),
    }
}

/// The effect of opening the tag `t`: its subparser sees the parent context.
pub open spec fn open_effect(open: Seq<TagView>, t: TagView) -> (Seq<TagView>, Seq<Emitted>) {
    (open.push(t), dispatched(t.0, XmlEventView::TagAboutToOpen(t), open))
}

/// The effect of the text `s`: the subparser of the innermost open tag handles it.
pub open spec fn text_effect(open: Seq<TagView>, s: Seq<char>) -> Seq<Emitted> {
    if open.len() == 0 {
        Seq::empty()
    } else {
        dispatched(open.last().0, XmlEventView::Text(s), open)
    }
}

/// The explanation of the error for an end tag, named `name`, that closes nothing.
pub open spec fn unmatched_close_explanation(name: Seq<u8>) -> Seq<char> {
    match utf8_decoded(name) {
        Ok(s) => "Found closing tag when no tags were open: "@ + s,
        Err(_) => "Found closing tag when no tags were open, with a name that is not valid UTF-8"@,
    }
}

/// The effect of an end tag named `name`.
pub open spec fn step_end(open: Seq<TagView>, name: Seq<u8>) -> (Seq<TagView>, Seq<Emitted>) {
    if open.len() == 0 {
        (open, seq![Emitted::InvalidInput(unmatched_close_explanation(name))])
    } else {
        (
            open.drop_last(),
            dispatched(open.last().0, XmlEventView::TagClosed(open.last()), open.drop_last()),
        )
    }
}

/// The effect of a text token.
pub open spec fn step_text(open: Seq<TagView>, content: Seq<u8>) -> (Seq<TagView>, Seq<Emitted>) {
    match utf8_decoded(content) {
        Err(e) => (open, seq![Emitted::InvalidInput(e)]),
        Ok(s) => (open, text_effect(open, s)),
    }
}

/// One token's effect: the open tags after it, and what the consumer receives.
pub open spec fn step(open: Seq<TagView>, token: Token) -> (Seq<TagView>, Seq<Emitted>) {
    match token {
        Token::Start { namespace, local_name } => step_start(
            open,
            namespace_bytes(namespace),
            local_name@,
        ),
        Token::End { name } => step_end(open, name@),
        Token::Text { content } => step_text(open, content@),
        _ => (open, Seq::empty()),
    }
}

/// The bytes of a start token's namespace, where it has one.
pub open spec fn namespace_bytes(namespace: Option<Vec<u8>>) -> Option<Seq<u8>> {
    match namespace {
        Some(ns) => Some(ns@),
        None => None,
    }
}

/// The namespace whose subparser one token asks the registry for, if any.
pub open spec fn consulted(open: Seq<TagView>, token: Token) -> Option<Seq<char>> {
    match token {
        Token::Start { namespace, local_name } => match decoded_tag(
            namespace_bytes(namespace),
            local_name@,
        ) {
            Ok(t) => Some(t.0),
            Err(_) => None,
        },
        Token::End { .. } => if open.len() == 0 {
            None
        } else {
            Some(open.last().0)
        },
        Token::Text { content } => if utf8_decoded(content@) is Ok && open.len() > 0 {
            Some(open.last().0)
        } else {
            None
        },
        _ => None,
    }
}

/// The namespaces of a registry after it was asked for `ns`, if for any.
pub open spec fn registry_then(nss: Seq<Seq<char>>, ns: Option<Seq<char>>) -> Seq<Seq<char>> {
    match ns {
        Some(ns) => registry_after(nss, ns),
        None => nss,
    }
}

/// The effect of the tokens from `open` on: the open tags at the end, and what the
/// consumer receives. Nothing after the first `Eof` is read.
pub open spec fn run_from(open: Seq<TagView>, tokens: Seq<Token>) -> (Seq<TagView>, Seq<Emitted>)
    decreases tokens.len(),
{
    if tokens.len() == 0 || tokens[0] is Eof {
        (open, Seq::empty())
    } else {
        let (o1, e1) = step(open, tokens[0]);
        let (o2, e2) = run_from(o1, tokens.drop_first());
        (o2, e1 + e2)
    }
}

/// What a consumer receives from a whole parse of `tokens`.
pub open spec fn parse_spec(tokens: Seq<Token>) -> Seq<Emitted> {
    run_from(Seq::empty(), tokens).1
}

/// Looks at the namespace of each tag and lets the relevant subparser handle it.
pub struct Parser {
    subparser_registry: SubparserRegistry,
    parse_state: ParseState,
}

impl View for Parser {
    type V = Seq<TagView>;

    /// The open tags.
    closed spec fn view(&self) -> Seq<TagView> {
        self.parse_state@
    }
}

impl Parser {
    pub closed spec fn wf(&self) -> bool {
        self.subparser_registry.wf()
    }

    /// The namespaces for which a subparser was made.
    pub closed spec fn subparser_namespaces(&self) -> Seq<Seq<char>> {
        self.subparser_registry@
    }

    pub fn new() -> (r: Parser)
        ensures
            r.wf(),
            r@ == Seq::<TagView>::empty(),
            r.subparser_namespaces() == Seq::<Seq<char>>::empty(),
    {
        Parser { subparser_registry: SubparserRegistry::new(), parse_state: ParseState::new() }
    }

    /// The tags open at this point of the parse.
    pub fn parse_state(&self) -> (r: &ParseState)
        ensures
            r@ == self@,
    {
        &self.parse_state
    }

    /// Decodes a start tag's namespace, where it has one, and its local name.
    fn to_tag(namespace: Option<&[u8]>, local_name: &[u8]) -> (r: Result<Tag, ParseError>)
        ensures
            match decoded_tag(
                match namespace {
                    Some(ns) => Some(ns@),
                    None => None,
                },
                local_name@,
            ) {
                Ok(t) => r is Ok && r->Ok_0@ == t,
                Err(e) => r matches Err(ParseError::InvalidInput { explanation }) && explanation@
                    == e,
            },
    {
        let namespace = match namespace {
            Some(ns) => match decode(ns) {
                Ok(s) => s,
                Err(explanation) => {
                    return Err(ParseError::InvalidInput { explanation });
                },
            },
            None => String::new(),
        };
        let name = match decode(local_name) {
            Ok(s) => s,
            Err(explanation) => {
                return Err(ParseError::InvalidInput { explanation });
            },
        };
        Ok(Tag::new(namespace, name))
    }

    /// Hands `event` to the subparser of `namespace`, if one is known.
    fn dispatch(
        &mut self,
        namespace: &str,
        event: &Event,
        out: &mut Vec<Result<ElementEvent, ParseError>>,
    )
        requires
            old(self).wf(),
        ensures
            final(self).wf(),
            final(self)@ == old(self)@,
            final(self).subparser_namespaces() == registry_after(
                old(self).subparser_namespaces(),
                namespace@,
            ),
            old(out)@.is_prefix_of(final(out)@),
            emitted(final(out)@) == emitted(old(out)@) + dispatched(
                namespace@,
                event.view(),
                old(self)@,
            ),
    {
        proof {
            self.subparser_registry.lemma_entries();
        }
        match self.subparser_registry.subparser_for(namespace) {
            Some(i) => {
                proof {
                    self.subparser_registry.lemma_entries();
                    registry::lemma_registry_grows(old(self).subparser_registry@, namespace@);
                }
                self.subparser_registry.get(i).handle_xml_event(event, &self.parse_state, out);
            },
            None => {
                assert(!has_subparser(namespace@));
                assert(emitted(out@) =~= emitted(old(out)@) + dispatched(
                    namespace@,
                    event.view(),
                    old(self)@,
                ));
            },
        }
    }

    /// Opens a decoded tag: its subparser, if any, sees it first, then it is pushed.
    pub fn open_decoded_tag(&mut self, tag: Tag, out: &mut Vec<Result<ElementEvent, ParseError>>)
        requires
            old(self).wf(),
        ensures
            final(self).wf(),
            final(self)@ == open_effect(old(self)@, tag@).0,
            final(self).subparser_namespaces() == registry_after(
                old(self).subparser_namespaces(),
                tag@.0,
            ),
            old(out)@.is_prefix_of(final(out)@),
            emitted(final(out)@) == emitted(old(out)@) + open_effect(old(self)@, tag@).1,
    {
        self.dispatch(tag.namespace(), &Event::TagAboutToOpen(&tag), out);
        self.parse_state.open_tag(Box::new(tag));
    }

    /// Hands decoded text to the subparser of the innermost open tag, if any.
    pub fn handle_decoded_text(&mut self, text: &str, out: &mut Vec<Result<ElementEvent, ParseError>>)
        requires
            old(self).wf(),
        ensures
            final(self).wf(),
            final(self)@ == old(self)@,
            final(self).subparser_namespaces() == if old(self)@.len() == 0 {
                old(self).subparser_namespaces()
            } else {
                registry_after(old(self).subparser_namespaces(), old(self)@.last().0)
            },
            old(out)@.is_prefix_of(final(out)@),
            emitted(final(out)@) == emitted(old(out)@) + text_effect(old(self)@, text@),
    {
        let namespace = match self.parse_state.last_opened_tag() {
            Some(tag) => tag.namespace().to_owned(),
            None => {
                assert(emitted(out@) =~= emitted(old(out)@) + Seq::empty());
                return;
            },
        };
        self.dispatch(namespace.as_str(), &Event::Text(text), out);
    }

    /// Handles a start token, with `namespace` its namespace where it has one.
    fn handle_opening_tag(
        &mut self,
        namespace: Option<&[u8]>,
        local_name: &[u8],
        out: &mut Vec<Result<ElementEvent, ParseError>>,
    )
        requires
            old(self).wf(),
        ensures
            ({
                let ns = match namespace {
                    Some(ns) => Some(ns@),
                    None => None,
                };
                &&& final(self).wf()
                &&& final(self)@ == step_start(old(self)@, ns, local_name@).0
                &&& final(self).subparser_namespaces() == registry_then(
                    old(self).subparser_namespaces(),
                    match decoded_tag(ns, local_name@) {
                        Ok(t) => Some(t.0),
                        Err(_) => None,
                    },
                )
                &&& old(out)@.is_prefix_of(final(out)@)
                &&& emitted(final(out)@) == emitted(old(out)@) + step_start(
                    old(self)@,
                    ns,
                    local_name@,
                ).1
            }),
    {
        match Parser::to_tag(namespace, local_name) {
            Ok(tag) => self.open_decoded_tag(tag, out),
            Err(error) => {
                let ghost e = error;
                out.push(Err(error));
                assert(emitted(out@) =~= emitted(old(out)@) + seq![emitted_of(Err(e))]);
            },
        }
    }

    /// The error for an end tag that closes nothing; it names the tag.
    fn unmatched_closing_tag(name: &[u8]) -> (r: ParseError)
        ensures
            r matches ParseError::InvalidInput { explanation } && explanation@
                == unmatched_close_explanation(name@),
    {
        let explanation = match decode(name) {
            Ok(s) => String::from_str("Found closing tag when no tags were open: ").concat(
                s.as_str(),
            ),
            Err(_) => String::from_str(
                "Found closing tag when no tags were open, with a name that is not valid UTF-8",
            ),
        };
        ParseError::InvalidInput { explanation }
    }

    fn handle_closing_tag(&mut self, name: &[u8], out: &mut Vec<Result<ElementEvent, ParseError>>)
        requires
            old(self).wf(),
        ensures
            final(self).wf(),
            final(self)@ == step_end(old(self)@, name@).0,
            final(self).subparser_namespaces() == if old(self)@.len() == 0 {
                old(self).subparser_namespaces()
            } else {
                registry_after(old(self).subparser_namespaces(), old(self)@.last().0)
            },
            old(out)@.is_prefix_of(final(out)@),
            emitted(final(out)@) == emitted(old(out)@) + step_end(old(self)@, name@).1,
            old(self)@.len() == 0 ==> (final(out)@.last() matches Err(
                ParseError::InvalidInput { explanation },
            ) && explanation@ == unmatched_close_explanation(name@)),
    {
        match self.parse_state.close_tag() {
            Some(tag) => {
                let tag: Tag = *tag;
                self.dispatch(tag.namespace(), &Event::TagClosed(&tag), out);
            },
            None => {
                let error = Parser::unmatched_closing_tag(name);
                let ghost e = error;
                out.push(Err(error));
                assert(emitted(out@) =~= emitted(old(out)@) + seq![emitted_of(Err(e))]);
            },
        }
    }

    fn handle_text(&mut self, content: &[u8], out: &mut Vec<Result<ElementEvent, ParseError>>)
        requires
            old(self).wf(),
        ensures
            final(self).wf(),
            final(self)@ == step_text(old(self)@, content@).0,
            final(self).subparser_namespaces() == if utf8_decoded(content@) is Ok && old(
                self,
            )@.len() > 0 {
                registry_after(old(self).subparser_namespaces(), old(self)@.last().0)
            } else {
                old(self).subparser_namespaces()
            },
            old(out)@.is_prefix_of(final(out)@),
            emitted(final(out)@) == emitted(old(out)@) + step_text(old(self)@, content@).1,
    {
        match decode(content) {
            Ok(text) => self.handle_decoded_text(text.as_str(), out),
            Err(explanation) => {
                let error = ParseError::InvalidInput { explanation };
                let ghost e = error;
                out.push(Err(error));
                assert(emitted(out@) =~= emitted(old(out)@) + seq![emitted_of(Err(e))]);
            },
        }
    }

    /// Handles one token: appends to `out` what the consumer receives for it, and says
    /// whether the parse goes on (it stops at `Eof`).
    pub fn handle_token(&mut self, token: &Token, out: &mut Vec<Result<ElementEvent, ParseError>>) -> (more: bool)
        requires
            old(self).wf(),
        ensures
            final(self).wf(),
            final(self)@ == step(old(self)@, *token).0,
            final(self).subparser_namespaces() == registry_then(
                old(self).subparser_namespaces(),
                consulted(old(self)@, *token),
            ),
            old(out)@.is_prefix_of(final(out)@),
            emitted(final(out)@) == emitted(old(out)@) + step(old(self)@, *token).1,
            (token is End && old(self)@.len() == 0) ==> (final(out)@.last() matches Err(
                ParseError::InvalidInput { explanation },
            ) && explanation@ == unmatched_close_explanation(token->name@)),
            more == !(token is Eof),
    {
        match token {
            Token::Start { namespace: Some(namespace), local_name } => {
                self.handle_opening_tag(Some(namespace.as_slice()), local_name.as_slice(), out);
            },
            Token::Start { namespace: None, local_name } => {
                self.handle_opening_tag(None, local_name.as_slice(), out);
            },
            Token::End { name } => {
                self.handle_closing_tag(name.as_slice(), out);
            },
            Token::Text { content } => {
                self.handle_text(content.as_slice(), out);
            },
            Token::Eof => {
                assert(emitted(out@) =~= emitted(old(out)@) + Seq::empty());
                return false;
            },
            Token::Other => {
                assert(emitted(out@) =~= emitted(old(out)@) + Seq::empty());
            },
        }
        true
    }

    /// Handles the tokens in order up to the first `Eof`, and returns what the consumer
    /// receives, in document order.
    pub fn parse(self, tokens: &Vec<Token>) -> (r: Vec<Result<ElementEvent, ParseError>>)
        requires
            self.wf(),
        ensures
            emitted(r@) == run_from(self@, tokens@).1,
    {
        let mut parser = self;
        let ghost start = parser@;
        let mut out: Vec<Result<ElementEvent, ParseError>> = Vec::new();
        let n = tokens.len();
        let mut i: usize = 0;
        let mut more = true;
        assert(tokens@.subrange(0, n as int) =~= tokens@);
        assert(emitted(out@) =~= Seq::empty());
        while more && i < n
            invariant
                parser.wf(),
                i <= n,
                n == tokens@.len(),
                more ==> run_from(start, tokens@) == (
                    run_from(parser@, tokens@.subrange(i as int, n as int)).0,
                    emitted(out@) + run_from(parser@, tokens@.subrange(i as int, n as int)).1,
                ),
                !more ==> run_from(start, tokens@).1 == emitted(out@),
            decreases n - i,
        {
            let ghost rest = tokens@.subrange(i as int, n as int);
            let ghost before = parser@;
            let ghost out_before = emitted(out@);
            assert(rest[0] == tokens@[i as int]);
            assert(rest.drop_first() =~= tokens@.subrange(i + 1, n as int));
            more = parser.handle_token(&tokens[i], &mut out);
            proof {
                if more {
                    let (o1, e1) = step(before, tokens@[i as int]);
                    let (o2, e2) = run_from(o1, rest.drop_first());
                    assert(out_before + (e1 + e2) =~= emitted(out@) + e2);
                } else {
                    assert(out_before + Seq::<Emitted>::empty() =~= out_before);
                    assert(emitted(out@) =~= out_before + Seq::<Emitted>::empty());
                }
            }
            i = i + 1;
        }
        proof {
            if more {
                assert(tokens@.subrange(i as int, n as int) =~= Seq::<Token>::empty());
                assert(emitted(out@) + Seq::<Emitted>::empty() =~= emitted(out@));
            }
        }
        out
    }
}

} // verus!
