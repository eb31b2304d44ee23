use crate::events::DocEvent;
use crate::parsers::xml::common::TagView;
use crate::parsers::xml::subparsers::has_subparser;
use crate::parsers::xml::subparsers::ooxml::word_tag;
use crate::parsers::xml::{
    consulted, decoded_tag, namespace_bytes, open_effect, run_from, step, unmatched_close_explanation,
    utf8_decoded, Token,
};
use crate::parsers::{delivered, Emitted};
use vstd::prelude::*;

verus! {

/// How many paragraph starts a consumer receives in `e`.
pub open spec fn starts(e: Seq<Emitted>) -> nat
    decreases e.len(),
{
    if e.len() == 0 {
        0
    } else {
        starts(e.drop_last()) + if e.last() matches Emitted::Event(DocEvent::Start(_)) {
            1nat
        } else {
            0nat
        }
    }
}

/// How many ends a consumer receives in `e`.
pub open spec fn ends(e: Seq<Emitted>) -> nat
    decreases e.len(),
{
    if e.len() == 0 {
        0
    } else {
        ends(e.drop_last()) + if e.last() matches Emitted::Event(DocEvent::End) {
            1nat
        } else {
            0nat
        }
    }
}

/// How many open tags are paragraphs.
pub open spec fn open_paragraphs(open: Seq<TagView>) -> nat
    decreases open.len(),
{
    if open.len() == 0 {
        0
    } else {
        open_paragraphs(open.drop_last()) + if open.last() == word_tag("p"@) {
            1nat
        } else {
            0nat
        }
    }
}

proof fn lemma_counts_append(a: Seq<Emitted>, b: Seq<Emitted>)
    ensures
        starts(a + b) == starts(a) + starts(b),
        ends(a + b) == ends(a) + ends(b),
    decreases b.len(),
{
    if b.len() == 0 {
        assert(a + b =~= a);
    } else {
        assert((a + b).drop_last() =~= a + b.drop_last());
        lemma_counts_append(a, b.drop_last());
    }
}

proof fn lemma_counts_one(x: Emitted)
    ensures
        starts(seq![x]) == (if x matches Emitted::Event(DocEvent::Start(_)) {
            1nat
        } else {
            0nat
        }),
        ends(seq![x]) == (if x matches Emitted::Event(DocEvent::End) {
            1nat
        } else {
            0nat
        }),
{
    let s = seq![x];
    assert(s.drop_last() =~= Seq::<Emitted>::empty());
    assert(s.last() == x);
    assert(starts(s.drop_last()) == 0);
    assert(ends(s.drop_last()) == 0);
}

proof fn lemma_delivered_empty()
    ensures
        delivered(Seq::empty()) == Seq::<Emitted>::empty(),
{
    assert(delivered(Seq::empty()) =~= Seq::<Emitted>::empty());
}

proof fn lemma_delivered_one(d: DocEvent)
    ensures
        delivered(seq![d]) == seq![Emitted::Event(d)],
{
    assert(delivered(seq![d]) =~= seq![Emitted::Event(d)]);
}

/// One token gives at most one value, and keeps the balance of starts, ends and open
/// paragraphs.
proof fn lemma_step_balance(open: Seq<TagView>, token: Token)
    ensures
        step(open, token).1.len() <= 1,
        starts(step(open, token).1) + open_paragraphs(open) == ends(step(open, token).1)
            + open_paragraphs(step(open, token).0),
{
    let (o, e) = step(open, token);
    lemma_delivered_empty();
    lemma_delivered_one(DocEvent::End);
    lemma_delivered_one(DocEvent::Start(crate::events::ElementStartVariant::Paragraph));
    lemma_counts_one(Emitted::Event(DocEvent::End));
    lemma_counts_one(Emitted::Event(DocEvent::Start(crate::events::ElementStartVariant::Paragraph)));
    match token {
        Token::Start { namespace, local_name } => {
            match decoded_tag(namespace_bytes(namespace), local_name@) {
                Ok(t) => {
                    assert(open.push(t).drop_last() =~= open);
                },
                Err(x) => {
                    lemma_counts_one(Emitted::InvalidInput(x));
                },
            }
        },
        Token::End { name } => {
            lemma_counts_one(Emitted::InvalidInput(unmatched_close_explanation(name@)));
        },
        Token::Text { content } => {
            match utf8_decoded(content@) {
                Ok(s) => {
                    lemma_delivered_one(DocEvent::Text(s));
                    lemma_counts_one(Emitted::Event(DocEvent::Text(s)));
                },
                Err(x) => {
                    lemma_counts_one(Emitted::InvalidInput(x));
                },
            }
        },
        _ => {},
    }
}

proof fn lemma_run_balance(open: Seq<TagView>, tokens: Seq<Token>)
    ensures
        starts(run_from(open, tokens).1) + open_paragraphs(open) == ends(run_from(open, tokens).1)
            + open_paragraphs(run_from(open, tokens).0),
        forall|k: int|
            0 <= k <= run_from(open, tokens).1.len() ==> ends(
                #[trigger] run_from(open, tokens).1.take(k),
            ) <= starts(run_from(open, tokens).1.take(k)) + open_paragraphs(open),
    decreases tokens.len(),
{
    let e = run_from(open, tokens).1;
    if tokens.len() == 0 || tokens[0] is Eof {
        assert forall|k: int| 0 <= k <= e.len() implies ends(#[trigger] e.take(k)) <= starts(
            e.take(k),
        ) + open_paragraphs(open) by {
            assert(e.take(k) =~= Seq::<Emitted>::empty());
        }
    } else {
        let (o1, e1) = step(open, tokens[0]);
        let (o2, e2) = run_from(o1, tokens.drop_first());
        lemma_step_balance(open, tokens[0]);
        lemma_run_balance(o1, tokens.drop_first());
        lemma_counts_append(e1, e2);
        assert(e == e1 + e2);
        assert forall|k: int| 0 <= k <= e.len() implies ends(#[trigger] e.take(k)) <= starts(
            e.take(k),
        ) + open_paragraphs(open) by {
            if k <= e1.len() {
                if k == 0 {
                    assert(e.take(k) =~= Seq::<Emitted>::empty());
                } else {
                    assert(e.take(k) =~= e1);
                }
            } else {
                let k2 = k - e1.len();
                assert(e.take(k) =~= e1 + e2.take(k2));
                lemma_counts_append(e1, e2.take(k2));
            }
        }
    }
}

/// Nesting: at every prefix of what a parse hands to its consumer, no more elements
/// have ended than started; and where every tag that was opened is closed by the end
/// of the input, as many end as start.
pub proof fn lemma_events_nest(tokens: Seq<Token>)
    ensures
        forall|k: int|
            0 <= k <= run_from(Seq::empty(), tokens).1.len() ==> ends(
                #[trigger] run_from(Seq::empty(), tokens).1.take(k),
            ) <= starts(run_from(Seq::empty(), tokens).1.take(k)),
        run_from(Seq::empty(), tokens).0.len() == 0 ==> starts(run_from(Seq::empty(), tokens).1)
            == ends(run_from(Seq::empty(), tokens).1),
{
    lemma_run_balance(Seq::empty(), tokens);
}

/// An end tag when no tag is open gives exactly one invalid-input error, which names
/// the tag, and leaves no tag open.
pub proof fn lemma_unmatched_close(token: Token)
    requires
        token is End,
    ensures
        step(Seq::empty(), token) == (
            Seq::<TagView>::empty(),
            seq![Emitted::InvalidInput(unmatched_close_explanation(token->name@))],
        ),
        consulted(Seq::empty(), token) is None,
{
}

/// A tag of a namespace without a subparser gives no event, and is still pushed as
/// context for what it holds.
pub proof fn lemma_unmapped_tag_is_context(open: Seq<TagView>, t: TagView)
    requires
        !has_subparser(t.0),
    ensures
        open_effect(open, t) == (open.push(t), Seq::<Emitted>::empty()),
{
    lemma_delivered_empty();
}

/// Text outside any open tag, or under a tag of a namespace without a subparser, gives
/// no event and leaves the open tags as they are.
pub proof fn lemma_unclaimed_text_is_silent(open: Seq<TagView>, token: Token)
    requires
        token is Text,
        open.len() == 0 || !has_subparser(open.last().0),
    ensures
        step(open, token).0 == open,
        forall|i: int| 0 <= i < step(open, token).1.len() ==> !(#[trigger] step(open, token).1[i] is Event),
{
    lemma_delivered_empty();
}

/// Text under a `t` tag of the word-processing namespace is handed on unchanged.
pub proof fn lemma_word_text_kept(open: Seq<TagView>, token: Token, text: Seq<char>)
    requires
        token is Text,
        utf8_decoded(token->content@) == Ok::<Seq<char>, Seq<char>>(text),
        open.len() > 0,
        open.last() == word_tag("t"@),
    ensures
        step(open, token) == (open, seq![Emitted::Event(DocEvent::Text(text))]),
{
    lemma_delivered_one(DocEvent::Text(text));
}

} // verus!
