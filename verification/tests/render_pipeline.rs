use simple_editor::render::{render_token, render_tokens, RenderedNode};
use simple_editor::token::{Span, Token};

fn sp(start: usize, len: usize) -> Span {
    Span { start, len }
}

#[test]
fn mapping_fidelity_ruby() {
    // "A(B)" read as a ruby token: body "A", gloss "B". The gloss is kept
    // bracketed by the literal fallback markers.
    let text = "A(B)";
    let token = Token::Ruby { body: sp(0, 1), ruby: sp(2, 1) };
    let node = render_token(text, &token);
    assert_eq!(
        node,
        RenderedNode::Ruby { body: String::from("A"), gloss: String::from("B") }
    );
    assert_eq!(node.fallback_text().as_str(), "A(B)");
}

#[test]
fn kanji_ruby_renders_like_ruby() {
    let text = "漢字《かんじ》";
    let plain = Token::Ruby { body: sp(0, 2), ruby: sp(3, 3) };
    let kanji = Token::KanjiRuby { body: sp(0, 2), ruby: sp(3, 3) };
    let a = render_token(text, &plain);
    let b = render_token(text, &kanji);
    assert_eq!(a, b);
    assert_eq!(
        a,
        RenderedNode::Ruby { body: String::from("漢字"), gloss: String::from("かんじ") }
    );
    assert_eq!(a.fallback_text().as_str(), "漢字(かんじ)");
}

#[test]
fn newline_rendering() {
    // [Plaintext("x"), NewLine, Plaintext("y")] gives three nodes; the
    // newline's own span text never shows up.
    let text = "x\ny";
    let tokens = vec![
        Token::Plaintext(sp(0, 1)),
        Token::NewLine(sp(1, 1)),
        Token::Plaintext(sp(2, 1)),
    ];
    let nodes = render_tokens(text, &tokens);
    assert_eq!(
        nodes,
        vec![
            RenderedNode::Text(String::from("x")),
            RenderedNode::LineBreak,
            RenderedNode::Text(String::from("y")),
        ]
    );
    assert_eq!(nodes[1].fallback_text().as_str(), "\n");
}

#[test]
fn ignore_elision_keeps_order() {
    // Ignore tokens interleaved with others: the output has exactly the
    // non-Ignore tokens' nodes, in the original order.
    let text = "abcde";
    let tokens = vec![
        Token::Plaintext(sp(0, 1)),
        Token::Ignore(sp(1, 1)),
        Token::Space(sp(2, 1)),
        Token::Ignore(sp(3, 1)),
        Token::EmphasisMark(sp(4, 1)),
    ];
    let nodes = render_tokens(text, &tokens);
    assert_eq!(nodes.len(), 3);
    assert_eq!(
        nodes,
        vec![
            RenderedNode::Text(String::from("a")),
            RenderedNode::Text(String::from("c")),
            RenderedNode::EmphasisMark(String::from("e")),
        ]
    );
}

#[test]
fn term_and_annotation_render_as_references() {
    let text = "word note";
    let term = Token::Term { body: sp(0, 4), term_id: 7 };
    let annotation = Token::Annotation { body: sp(5, 4), description: sp(0, 4) };
    assert_eq!(
        render_token(text, &term),
        RenderedNode::Reference(String::from("word"))
    );
    assert_eq!(
        render_token(text, &annotation),
        RenderedNode::Reference(String::from("note"))
    );
}

#[test]
fn space_renders_as_plain_text() {
    let text = "a b";
    let node = render_token(text, &Token::Space(sp(1, 1)));
    assert_eq!(node, RenderedNode::Text(String::from(" ")));
}

#[test]
fn term_id_is_carried_but_not_rendered() {
    let text = "word";
    let a = render_token(text, &Token::Term { body: sp(0, 4), term_id: 1 });
    let b = render_token(text, &Token::Term { body: sp(0, 4), term_id: 2 });
    assert_eq!(a, b);
}

#[test]
fn fallback_text_of_plain_nodes() {
    assert_eq!(RenderedNode::Text(String::from("x")).fallback_text().as_str(), "x");
    assert_eq!(RenderedNode::EmphasisMark(String::from("e")).fallback_text().as_str(), "e");
    assert_eq!(RenderedNode::Reference(String::from("r")).fallback_text().as_str(), "r");
}

#[test]
fn empty_stream_renders_nothing() {
    let nodes = render_tokens("anything", &vec![]);
    assert!(nodes.is_empty());
}
