use simple_editor::render::RenderedNode;
use simple_editor::session::{EditSession, Msg, DEBOUNCE_MS};
use simple_editor::token::{Span, Token};

fn plain(start: usize, len: usize) -> Token {
    Token::Plaintext(Span { start, len })
}

#[test]
fn create_starts_idle_and_empty() {
    let s = EditSession::create();
    assert_eq!(s.current_version(), 0);
    assert_eq!(s.text().as_str(), "");
    assert!(s.nodes().is_empty());
    assert!(s.pending.is_none());
}

#[test]
fn quiet_period_is_300ms() {
    assert_eq!(DEBOUNCE_MS, 300);
}

#[test]
fn change_text_arms_debounce_without_redraw() {
    let mut s = EditSession::create();
    let out = s.update(Msg::ChangeText(String::from("a")));
    assert!(!out.redraw);
    assert_eq!(out.schedule, Some(1));
    assert_eq!(s.current_version(), 1);
    assert_eq!(s.text().as_str(), "a");
    assert!(s.nodes().is_empty());
    assert_eq!(s.pending, Some(1));
}

#[test]
fn stale_request_is_a_noop() {
    // Two edits; the timer armed by the first fires late. Its version no
    // longer matches, so nothing changes and nothing redraws; the request
    // for the latest version succeeds.
    let mut s = EditSession::create();
    s.update(Msg::ChangeText(String::from("a")));
    s.update(Msg::ChangeText(String::from("ab")));
    let stale = s.update(Msg::ParseRequestText { version: 1, tokens: vec![plain(0, 2)] });
    assert!(!stale.redraw);
    assert!(stale.schedule.is_none());
    assert!(s.nodes().is_empty());
    assert_eq!(s.pending, Some(2));
    let fresh = s.update(Msg::ParseRequestText { version: 2, tokens: vec![plain(0, 2)] });
    assert!(fresh.redraw);
    assert_eq!(s.nodes(), &vec![RenderedNode::Text(String::from("ab"))]);
    assert!(s.pending.is_none());
}

#[test]
fn rapid_changes_coalesce_to_one_parse() {
    // Three rapid edits re-arm the timer three times; when all three
    // timers fire, only the last one's parse is taken, for the final text.
    let mut s = EditSession::create();
    let mut schedules = Vec::new();
    for text in ["a", "ab", "abc"] {
        let out = s.update(Msg::ChangeText(String::from(text)));
        schedules.push(out.schedule.unwrap());
    }
    assert_eq!(schedules, vec![1, 2, 3]);
    let mut redraws = 0;
    for version in schedules {
        // Each firing tokenizes the then-current buffer, which by now is
        // the final text.
        let tokens = vec![plain(0, s.text().chars().count())];
        let out = s.update(Msg::ParseRequestText { version, tokens });
        if out.redraw {
            redraws += 1;
        }
    }
    assert_eq!(redraws, 1);
    assert_eq!(s.nodes(), &vec![RenderedNode::Text(String::from("abc"))]);
}

#[test]
fn reparse_without_change_is_idempotent() {
    let mut s = EditSession::create();
    s.update(Msg::ChangeText(String::from("hi")));
    let first = s.update(Msg::ParseRequestText { version: 1, tokens: vec![plain(0, 2)] });
    assert!(first.redraw);
    let after_first = s.nodes().clone();
    let second = s.update(Msg::ParseRequestText { version: 1, tokens: vec![plain(0, 2)] });
    assert!(second.redraw);
    assert_eq!(s.nodes(), &after_first);
}

#[test]
fn version_wraps_at_the_top() {
    // The counter wraps instead of failing, as the edit generation is
    // only an identity.
    let mut s = EditSession {
        version: usize::MAX,
        text: String::new(),
        nodes: Vec::new(),
        pending: None,
    };
    let out = s.update(Msg::ChangeText(String::from("x")));
    assert_eq!(s.current_version(), 0);
    assert_eq!(out.schedule, Some(0));
}

#[test]
fn out_of_bounds_tokens_retain_previous_nodes() {
    // A token stream that does not fit the buffer is a failed upstream
    // parse: the previous rendering stays, nothing redraws.
    let mut s = EditSession::create();
    s.update(Msg::ChangeText(String::from("ab")));
    s.update(Msg::ParseRequestText { version: 1, tokens: vec![plain(0, 2)] });
    let before = s.nodes().clone();
    s.update(Msg::ChangeText(String::from("c")));
    let out = s.update(Msg::ParseRequestText { version: 2, tokens: vec![plain(0, 5)] });
    assert!(!out.redraw);
    assert_eq!(s.nodes(), &before);
}

#[test]
fn empty_buffer_parses_to_no_nodes() {
    let mut s = EditSession::create();
    s.update(Msg::ChangeText(String::from("")));
    let out = s.update(Msg::ParseRequestText { version: 1, tokens: vec![] });
    assert!(out.redraw);
    assert!(s.nodes().is_empty());
}

#[test]
fn ignore_tokens_never_reach_the_node_list() {
    let mut s = EditSession::create();
    s.update(Msg::ChangeText(String::from("a\nb")));
    let tokens = vec![
        plain(0, 1),
        Token::Ignore(Span { start: 1, len: 1 }),
        Token::NewLine(Span { start: 1, len: 1 }),
        plain(2, 1),
    ];
    let out = s.update(Msg::ParseRequestText { version: 1, tokens });
    assert!(out.redraw);
    assert_eq!(
        s.nodes(),
        &vec![
            RenderedNode::Text(String::from("a")),
            RenderedNode::LineBreak,
            RenderedNode::Text(String::from("b")),
        ]
    );
}
