//! The pure structural mapping from tokens to renderable nodes.
//!
//! [`render_token`] translates one non-`Ignore` token into one node;
//! [`render_tokens`] runs the whole pipeline over a token stream: `Ignore`
//! tokens are elided, every other token is mapped in order.

use crate::token::{tokens_wf, Span, Token};
use vstd::prelude::*;

verus! {

/// A renderable unit, produced one-to-one from a non-`Ignore` token. Node
/// text is owned: it is materialised from the buffer at rendering time.
#[derive(Clone, PartialEq, Eq, Debug)]
pub enum RenderedNode {
    /// Raw text, shown as-is.
    Text(String),
    /// A line break. It carries no text: the originating token's span is
    /// never rendered.
    LineBreak,
    /// Text wrapped in an emphasis-mark container.
    EmphasisMark(String),
    /// Text wrapped in a reference-style container (a term or annotation
    /// body).
    Reference(String),
    /// Body text annotated with an inline phonetic gloss.
    Ruby { body: String, gloss: String },
}

/// The mathematical shape of a rendered node: the same cases, with the
/// text as character sequences.
#[verifier::ext_equal]
pub enum NodeV {
    Text(Seq<char>),
    LineBreak,
    EmphasisMark(Seq<char>),
    Reference(Seq<char>),
    Ruby { body: Seq<char>, gloss: Seq<char> },
}

impl View for RenderedNode {
    type V = NodeV;

    open spec fn view(&self) -> NodeV {
        match self {
            RenderedNode::Text(s) => NodeV::Text(s@),
            RenderedNode::LineBreak => NodeV::LineBreak,
            RenderedNode::EmphasisMark(s) => NodeV::EmphasisMark(s@),
            RenderedNode::Reference(s) => NodeV::Reference(s@),
            RenderedNode::Ruby { body, gloss } => NodeV::Ruby { body: body@, gloss: gloss@ },
        }
    }
}

impl DeepView for RenderedNode {
    type V = NodeV;

    open spec fn deep_view(&self) -> NodeV {
        self.view()
    }
}

/// What one non-`Ignore` token renders to. This is the fixed mapping
/// policy: plain text and spaces render as their span's text, a newline
/// renders as a bare line break, ruby and kanji-ruby render identically,
/// and term and annotation bodies render as references.
pub open spec fn spec_render(text: Seq<char>, t: Token) -> NodeV
    recommends
        !t.is_ignore(),
{
    match t {
        Token::Plaintext(sp) => NodeV::Text(sp.spec_text(text)),
        Token::Space(sp) => NodeV::Text(sp.spec_text(text)),
        Token::NewLine(_) => NodeV::LineBreak,
        Token::EmphasisMark(sp) => NodeV::EmphasisMark(sp.spec_text(text)),
        Token::Term { body, .. } => NodeV::Reference(body.spec_text(text)),
        Token::Ruby { body, ruby } => NodeV::Ruby {
            body: body.spec_text(text),
            gloss: ruby.spec_text(text),
        },
        Token::KanjiRuby { body, ruby } => NodeV::Ruby {
            body: body.spec_text(text),
            gloss: ruby.spec_text(text),
        },
        Token::Annotation { body, .. } => NodeV::Reference(body.spec_text(text)),
        Token::Ignore(_) => vstd::pervasive::arbitrary(),
    }
}

/// What a whole token stream renders to: `Ignore` tokens are elided, every
/// other token maps through [`spec_render`], in order.
pub open spec fn rendered_of(text: Seq<char>, tokens: Seq<Token>) -> Seq<NodeV>
    decreases tokens.len(),
{
    if tokens.len() == 0 {
        Seq::empty()
    } else {
        let rest = rendered_of(text, tokens.drop_last());
        if tokens.last().is_ignore() {
            rest
        } else {
            rest.push(spec_render(text, tokens.last()))
        }
    }
}

/// Translate one token into one node. `Ignore` tokens are filtered out
/// before this point; one reaching here would be a defect in the pipeline
/// wiring, so they are excluded outright.
pub fn render_token(text: &str, t: &Token) -> (r: RenderedNode)
    requires
        t.wf(text@.len()),
        !t.is_ignore(),
    ensures
        r@ == spec_render(text@, *t),
{
    match t {
        Token::Plaintext(sp) => RenderedNode::Text(sp.fragment(text)),
        Token::Space(sp) => RenderedNode::Text(sp.fragment(text)),
        Token::NewLine(_) => RenderedNode::LineBreak,
        Token::EmphasisMark(sp) => RenderedNode::EmphasisMark(sp.fragment(text)),
        Token::Term { body, .. } => RenderedNode::Reference(body.fragment(text)),
        Token::Ruby { body, ruby } => RenderedNode::Ruby {
            body: body.fragment(text),
            gloss: ruby.fragment(text),
        },
        Token::KanjiRuby { body, ruby } => RenderedNode::Ruby {
            body: body.fragment(text),
            gloss: ruby.fragment(text),
        },
        Token::Annotation { body, .. } => RenderedNode::Reference(body.fragment(text)),
        Token::Ignore(_) => vstd::pervasive::unreached(),
    }
}

/// The re-parse pipeline's mapping stage: drop `Ignore` tokens, map every
/// survivor through [`render_token`], preserving order.
pub fn render_tokens(text: &str, tokens: &Vec<Token>) -> (r: Vec<RenderedNode>)
    requires
        tokens_wf(tokens@, text@.len()),
    ensures
        r.deep_view() == rendered_of(text@, tokens@),
{
    let mut nodes: Vec<RenderedNode> = Vec::new();
    let mut i: usize = 0;
    proof {
        assert(nodes.deep_view() =~= rendered_of(text@, tokens@.take(0)));
    }
    while i < tokens.len()
        invariant
            0 <= i <= tokens.len(),
            tokens_wf(tokens@, text@.len()),
            nodes.deep_view() == rendered_of(text@, tokens@.take(i as int)),
        decreases tokens.len() - i,
    {
        proof {
            assert(tokens@.take(i + 1).drop_last() =~= tokens@.take(i as int));
            assert(tokens@.take(i + 1).last() == tokens@[i as int]);
        }
        let t = &tokens[i];
        if !matches!(t, Token::Ignore(_)) {
            let node = render_token(text, t);
            nodes.push(node);
            proof {
                assert(nodes.deep_view() =~= rendered_of(text@, tokens@.take(i + 1)));
            }
        }
        i += 1;
    }
    proof {
        assert(tokens@.take(tokens@.len() as int) =~= tokens@);
    }
    nodes
}

/// The flat text a node shows to annotation-unaware output: a ruby gloss
/// appears after its body, bracketed by the literal fallback markers `(`
/// and `)`; a line break is a newline character.
pub open spec fn fallback_of(n: NodeV) -> Seq<char> {
    match n {
        NodeV::Text(s) => s,
        NodeV::LineBreak => "\n"@,
        NodeV::EmphasisMark(s) => s,
        NodeV::Reference(s) => s,
        NodeV::Ruby { body, gloss } => body + "("@ + gloss + ")"@,
    }
}

impl RenderedNode {
    /// Materialise the node's fallback text for annotation-unaware
    /// output.
    pub fn fallback_text(&self) -> (r: String)
        ensures
            r@ == fallback_of(self@),
    {
        match self {
            RenderedNode::Text(s) => s.clone(),
            RenderedNode::LineBreak => String::from_str("\n"),
            RenderedNode::EmphasisMark(s) => s.clone(),
            RenderedNode::Reference(s) => s.clone(),
            RenderedNode::Ruby { body, gloss } => {
                let mut r = body.clone();
                r.append("(");
                r.append(gloss.as_str());
                r.append(")");
                r
            },
        }
    }
}

/// Ignore elision: a token stream renders to exactly as many nodes as it
/// has non-`Ignore` tokens, and the `i`-th node is the rendering of the
/// `i`-th non-`Ignore` token — original order is kept.
pub proof fn lemma_ignore_elision(text: Seq<char>, tokens: Seq<Token>)
    ensures
        rendered_of(text, tokens) == tokens.filter(|t: Token| !t.is_ignore()).map_values(
            |t: Token| spec_render(text, t),
        ),
        rendered_of(text, tokens).len() == tokens.filter(|t: Token| !t.is_ignore()).len(),
    decreases tokens.len(),
{
    reveal(Seq::filter);
    let pred = |t: Token| !t.is_ignore();
    let f = |t: Token| spec_render(text, t);
    if tokens.len() == 0 {
        assert(rendered_of(text, tokens) =~= tokens.filter(pred).map_values(f));
    } else {
        lemma_ignore_elision(text, tokens.drop_last());
        let rest = tokens.drop_last();
        if pred(tokens.last()) {
            assert(tokens.filter(pred) == rest.filter(pred).push(tokens.last()));
            assert(tokens.filter(pred).map_values(f) =~= rest.filter(pred).map_values(f).push(
                f(tokens.last()),
            ));
        }
    }
}

} // verus!
