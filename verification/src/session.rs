//! The editing session: text buffer, edit version, debounce bookkeeping and
//! the staleness-gated installation of re-parse results.
//!
//! The host shell feeds messages in: a [`Msg::ChangeText`] for every edit,
//! and a [`Msg::ParseRequestText`] when a debounce timer it armed fires,
//! carrying the token stream its tokenizer produced over the current
//! buffer. The session decides which results are still relevant: a request
//! whose version no longer matches is discarded silently.

use crate::render::{render_tokens, rendered_of, NodeV, RenderedNode};
use crate::token::{tokens_check_in, tokens_wf, Token};
use vstd::prelude::*;

verus! {

/// The quiet period, in milliseconds, between the last edit and the
/// re-parse attempt. The host arms its timer with this delay.
pub const DEBOUNCE_MS: u64 = 300;

/// A message into the session's single mutation entry point.
pub enum Msg {
    /// The input surface changed: the full new text, not a diff.
    ChangeText(String),
    /// A debounce timer armed for `version` fired; `tokens` is the
    /// tokenizer's output over the session's current buffer.
    ParseRequestText { version: usize, tokens: Vec<Token> },
}

/// What the host must do after an update: redraw the preview, and arm a
/// debounce timer for a version.
pub struct UpdateOutcome {
    /// The rendered node list was replaced; mount it anew.
    pub redraw: bool,
    /// Arm a timer for [`DEBOUNCE_MS`]; when it fires, tokenize the
    /// current buffer and send [`Msg::ParseRequestText`] with this version.
    pub schedule: Option<usize>,
}

/// The state a session holds between messages.
pub struct EditSession {
    /// Edit generation counter; bumped (wrapping) on every text change.
    pub version: usize,
    /// The full current contents of the input surface.
    pub text: String,
    /// The rendered nodes of some version of the buffer: the current one
    /// or a strictly earlier one, never a partial parse.
    pub nodes: Vec<RenderedNode>,
    /// The version the most recently armed timer carries; `None` when no
    /// armed parse is outstanding.
    pub pending: Option<usize>,
}

/// The mathematical shape of a session.
#[verifier::ext_equal]
pub struct SessionView {
    pub version: usize,
    pub text: Seq<char>,
    pub nodes: Seq<NodeV>,
    pub pending: Option<usize>,
}

impl View for EditSession {
    type V = SessionView;

    open spec fn view(&self) -> SessionView {
        SessionView {
            version: self.version,
            text: self.text@,
            nodes: self.nodes.deep_view(),
            pending: self.pending,
        }
    }
}

/// The version after one more edit: one up, wrapping at the top.
pub open spec fn next_version(v: usize) -> usize {
    if v == usize::MAX {
        0
    } else {
        (v + 1) as usize
    }
}

/// What a text change does: replace the buffer, bump the version, arm the
/// debounce for the new version. The rendered nodes stay as they are.
pub open spec fn spec_change_text(s: SessionView, text: Seq<char>) -> SessionView {
    SessionView {
        version: next_version(s.version),
        text: text,
        nodes: s.nodes,
        pending: Some(next_version(s.version)),
    }
}

/// A parse request is acted on exactly when it is current — its version
/// matches the session's — and its token stream lies inside the buffer.
/// A stale version is the normal debounce discard; an out-of-bounds token
/// stream is a failed upstream parse, which must leave the previous nodes
/// intact.
pub open spec fn parse_accepted(s: SessionView, version: usize, tokens: Seq<Token>) -> bool {
    version == s.version && tokens_wf(tokens, s.text.len())
}

/// What a parse request does: when accepted, install the rendering of the
/// token stream and return to the idle state; otherwise leave the session
/// exactly as it was.
pub open spec fn spec_parse_request(s: SessionView, version: usize, tokens: Seq<Token>) -> SessionView {
    if parse_accepted(s, version, tokens) {
        SessionView { nodes: rendered_of(s.text, tokens), pending: None, ..s }
    } else {
        s
    }
}

impl EditSession {
    /// A fresh session: version 0, empty buffer, nothing rendered, no
    /// armed parse.
    pub fn create() -> (s: Self)
        ensures
            s@.version == 0,
            s@.text == Seq::<char>::empty(),
            s@.nodes == Seq::<NodeV>::empty(),
            s@.pending is None,
    {
        let s = EditSession {
            version: 0,
            text: String::new(),
            nodes: Vec::new(),
            pending: None,
        };
        proof {
            assert(s@.nodes =~= Seq::<NodeV>::empty());
        }
        s
    }

    /// The session's current edit version.
    pub fn current_version(&self) -> (v: usize)
        ensures
            v == self@.version,
    {
        self.version
    }

    /// Whether a parse armed for `version` is still current.
    pub fn is_current(&self, version: usize) -> (b: bool)
        ensures
            b == (version == self@.version),
    {
        self.version == version
    }

    /// The current text buffer.
    pub fn text(&self) -> (t: &String)
        ensures
            t@ == self@.text,
    {
        &self.text
    }

    /// The current rendered nodes.
    pub fn nodes(&self) -> (ns: &Vec<RenderedNode>)
        ensures
            ns.deep_view() == self@.nodes,
    {
        &self.nodes
    }

    /// The single mutation entry point: handle one message.
    ///
    /// A text change replaces the buffer, bumps the version and asks the
    /// host to arm the debounce timer for the new version; it never
    /// redraws by itself. A parse request is installed only when accepted
    /// (see [`parse_accepted`]); a stale or malformed one is a silent
    /// no-op, so superseded timers may fire harmlessly.
    pub fn update(&mut self, msg: Msg) -> (r: UpdateOutcome)
        ensures
            match msg {
                Msg::ChangeText(t) => {
                    &&& final(self)@ == spec_change_text(old(self)@, t@)
                    &&& r.redraw == false
                    &&& r.schedule == Some(final(self)@.version)
                },
                Msg::ParseRequestText { version, tokens } => {
                    &&& final(self)@ == spec_parse_request(old(self)@, version, tokens@)
                    &&& r.redraw == parse_accepted(old(self)@, version, tokens@)
                    &&& r.schedule is None
                },
            },
    {
        match msg {
            Msg::ChangeText(t) => {
                let v = if self.version == usize::MAX {
                    0
                } else {
                    self.version + 1
                };
                self.version = v;
                self.text = t;
                self.pending = Some(v);
                UpdateOutcome { redraw: false, schedule: Some(v) }
            },
            Msg::ParseRequestText { version, tokens } => {
                if version != self.version {
                    return UpdateOutcome { redraw: false, schedule: None };
                }
                let n = self.text.as_str().unicode_len();
                if !tokens_check_in(&tokens, n) {
                    return UpdateOutcome { redraw: false, schedule: None };
                }
                let nodes = render_tokens(self.text.as_str(), &tokens);
                self.nodes = nodes;
                self.pending = None;
                UpdateOutcome { redraw: true, schedule: None }
            },
        }
    }
}

/// The session after a sequence of text changes, applied in order.
pub open spec fn run_changes(s: SessionView, texts: Seq<Seq<char>>) -> SessionView
    decreases texts.len(),
{
    if texts.len() == 0 {
        s
    } else {
        run_changes(spec_change_text(s, texts.first()), texts.drop_first())
    }
}

/// The version each change of a run produced, in order: the `i`-th entry
/// is the session's version right after the `i`-th change, which is also
/// the version that change's debounce timer was armed with.
pub open spec fn versions_of(s: SessionView, texts: Seq<Seq<char>>) -> Seq<usize> {
    Seq::new(texts.len(), |i: int| run_changes(s, texts.take(i + 1)).version)
}

/// One timer firing: the version it was armed with, and the token stream
/// the tokenizer produced over the buffer when it fired.
pub open spec fn run_requests(s: SessionView, reqs: Seq<(usize, Seq<Token>)>) -> SessionView
    decreases reqs.len(),
{
    if reqs.len() == 0 {
        s
    } else {
        run_requests(spec_parse_request(s, reqs.first().0, reqs.first().1), reqs.drop_first())
    }
}

/// How many of a sequence of parse requests are accepted — that is, how
/// many re-parses actually replace the rendered nodes and redraw.
pub open spec fn count_redraws(s: SessionView, reqs: Seq<(usize, Seq<Token>)>) -> int
    decreases reqs.len(),
{
    if reqs.len() == 0 {
        0
    } else {
        (if parse_accepted(s, reqs.first().0, reqs.first().1) {
            1int
        } else {
            0int
        }) + count_redraws(
            spec_parse_request(s, reqs.first().0, reqs.first().1),
            reqs.drop_first(),
        )
    }
}

proof fn lemma_run_changes_concat(s: SessionView, a: Seq<Seq<char>>, b: Seq<Seq<char>>)
    ensures
        run_changes(s, a + b) == run_changes(run_changes(s, a), b),
    decreases a.len(),
{
    if a.len() == 0 {
        assert(a + b =~= b);
    } else {
        assert((a + b).first() == a.first());
        assert((a + b).drop_first() =~= a.drop_first() + b);
        lemma_run_changes_concat(spec_change_text(s, a.first()), a.drop_first(), b);
    }
}

/// A run of changes ends with the last text as the buffer, the rendered
/// nodes untouched, and the debounce armed for the final version.
proof fn lemma_run_changes_final(s: SessionView, texts: Seq<Seq<char>>)
    requires
        texts.len() > 0,
    ensures
        run_changes(s, texts).text == texts.last(),
        run_changes(s, texts).nodes == s.nodes,
        run_changes(s, texts).pending == Some(run_changes(s, texts).version),
        run_changes(s, texts).version == versions_of(s, texts).last(),
    decreases texts.len(),
{
    assert(texts.take(texts.len() as int) =~= texts);
    let s1 = spec_change_text(s, texts.first());
    let rest = texts.drop_first();
    assert(run_changes(s, texts) == run_changes(s1, rest));
    if texts.len() == 1 {
        assert(rest.len() == 0);
        assert(run_changes(s1, rest) == s1);
    } else {
        lemma_run_changes_final(s1, rest);
        assert(rest.last() == texts.last());
    }
}

/// Requests whose versions all miss the session's current version leave
/// the session untouched and cause no redraw.
proof fn lemma_stale_requests_noop(s: SessionView, reqs: Seq<(usize, Seq<Token>)>)
    requires
        forall|i: int| 0 <= i < reqs.len() ==> (#[trigger] reqs[i]).0 != s.version,
    ensures
        run_requests(s, reqs) == s,
        count_redraws(s, reqs) == 0,
    decreases reqs.len(),
{
    if reqs.len() > 0 {
        assert(reqs[0].0 != s.version);
        assert(!parse_accepted(s, reqs.first().0, reqs.first().1));
        assert(forall|i: int|
            0 <= i < reqs.drop_first().len() ==> (#[trigger] reqs.drop_first()[i]).0 == reqs[i
                + 1].0);
        lemma_stale_requests_noop(s, reqs.drop_first());
    }
}

proof fn lemma_run_requests_concat(
    s: SessionView,
    a: Seq<(usize, Seq<Token>)>,
    b: Seq<(usize, Seq<Token>)>,
)
    ensures
        run_requests(s, a + b) == run_requests(run_requests(s, a), b),
        count_redraws(s, a + b) == count_redraws(s, a) + count_redraws(run_requests(s, a), b),
    decreases a.len(),
{
    if a.len() == 0 {
        assert(a + b =~= b);
    } else {
        assert((a + b).first() == a.first());
        assert((a + b).drop_first() =~= a.drop_first() + b);
        lemma_run_requests_concat(
            spec_parse_request(s, a.first().0, a.first().1),
            a.drop_first(),
            b,
        );
    }
}

proof fn lemma_run_changes_version(s: SessionView, texts: Seq<Seq<char>>)
    requires
        s.version + texts.len() <= usize::MAX,
    ensures
        run_changes(s, texts).version == s.version + texts.len(),
    decreases texts.len(),
{
    if texts.len() > 0 {
        let s1 = spec_change_text(s, texts.first());
        assert(s1.version == s.version + 1);
        lemma_run_changes_version(s1, texts.drop_first());
    }
}

/// Short of a wraparound of the version counter, a run of changes
/// produces consecutive versions — in particular strictly increasing
/// ones, as the staleness and coalescing laws assume. Only a run long
/// enough to wrap the counter all the way around can repeat a version.
pub proof fn lemma_versions_consecutive(s: SessionView, texts: Seq<Seq<char>>)
    requires
        s.version + texts.len() <= usize::MAX,
    ensures
        forall|i: int|
            0 <= i < texts.len() ==> #[trigger] versions_of(s, texts)[i] == s.version + i + 1,
        forall|i: int, j: int|
            0 <= i < j < texts.len() ==> #[trigger] versions_of(s, texts)[i]
                < #[trigger] versions_of(s, texts)[j],
{
    assert forall|i: int| 0 <= i < texts.len() implies #[trigger] versions_of(s, texts)[i]
        == s.version + i + 1 by {
        lemma_run_changes_version(s, texts.take(i + 1));
    }
}

/// Staleness monotonicity: after a run of text changes whose versions
/// strictly increase, a parse request armed by any change but the last is
/// stale — it is rejected and leaves the session exactly as it was — and
/// the request armed by the last change is accepted precisely when its
/// token stream lies inside the final buffer.
pub proof fn lemma_staleness_monotonic(
    s0: SessionView,
    texts: Seq<Seq<char>>,
    k: int,
    tokens: Seq<Token>,
)
    requires
        0 <= k < texts.len(),
        forall|i: int, j: int|
            0 <= i < j < texts.len() ==> #[trigger] versions_of(s0, texts)[i]
                < #[trigger] versions_of(s0, texts)[j],
    ensures
        k < texts.len() - 1 ==> !parse_accepted(
            run_changes(s0, texts),
            versions_of(s0, texts)[k],
            tokens,
        ),
        k < texts.len() - 1 ==> spec_parse_request(
            run_changes(s0, texts),
            versions_of(s0, texts)[k],
            tokens,
        ) == run_changes(s0, texts),
        k == texts.len() - 1 ==> (parse_accepted(
            run_changes(s0, texts),
            versions_of(s0, texts)[k],
            tokens,
        ) <==> tokens_wf(tokens, run_changes(s0, texts).text.len())),
{
    lemma_run_changes_final(s0, texts);
    let vs = versions_of(s0, texts);
    let sn = run_changes(s0, texts);
    assert(sn.version == vs[texts.len() - 1]);
    if k < texts.len() - 1 {
        assert(vs[k] < vs[texts.len() - 1]);
    }
}

/// Debounce coalescing: rapid text changes each arm the timer anew, but
/// when every armed timer later fires — in arming order, each carrying
/// the tokenization of the then-current (final) buffer — at most one
/// firing is accepted: the last one. When its token stream lies inside
/// the final buffer, exactly one re-parse happens and the rendered nodes
/// afterwards are the rendering of the final text.
pub proof fn lemma_debounce_coalescing(
    s0: SessionView,
    texts: Seq<Seq<char>>,
    reqs: Seq<(usize, Seq<Token>)>,
)
    requires
        texts.len() > 0,
        reqs.len() == texts.len(),
        forall|i: int, j: int|
            0 <= i < j < texts.len() ==> #[trigger] versions_of(s0, texts)[i]
                < #[trigger] versions_of(s0, texts)[j],
        forall|i: int| 0 <= i < reqs.len() ==> (#[trigger] reqs[i]).0 == versions_of(s0, texts)[i],
    ensures
        count_redraws(run_changes(s0, texts), reqs) <= 1,
        tokens_wf(reqs.last().1, texts.last().len()) ==> count_redraws(
            run_changes(s0, texts),
            reqs,
        ) == 1,
        tokens_wf(reqs.last().1, texts.last().len()) ==> run_requests(
            run_changes(s0, texts),
            reqs,
        ).nodes == rendered_of(texts.last(), reqs.last().1),
        !tokens_wf(reqs.last().1, texts.last().len()) ==> run_requests(
            run_changes(s0, texts),
            reqs,
        ) == run_changes(s0, texts),
{
    lemma_run_changes_final(s0, texts);
    let vs = versions_of(s0, texts);
    let sn = run_changes(s0, texts);
    let n = reqs.len() as int;
    let stale = reqs.take(n - 1);
    let last = reqs.skip(n - 1);
    assert(reqs =~= stale + last);
    assert(sn.version == vs[n - 1]);
    assert forall|i: int| 0 <= i < stale.len() implies (#[trigger] stale[i]).0 != sn.version by {
        assert(stale[i] == reqs[i]);
        assert(vs[i] < vs[n - 1]);
    }
    lemma_stale_requests_noop(sn, stale);
    lemma_run_requests_concat(sn, stale, last);
    assert(last.first() == reqs[n - 1]);
    assert(reqs[n - 1].0 == vs[n - 1]);
    assert(sn.text == texts.last());
    assert(reqs.last() == reqs[n - 1]);
    let s_after = spec_parse_request(sn, last.first().0, last.first().1);
    assert(run_requests(sn, last) == run_requests(s_after, last.drop_first()));
    assert(last.drop_first().len() == 0);
    assert(run_requests(s_after, last.drop_first()) == s_after);
    assert(count_redraws(s_after, last.drop_first()) == 0);
    assert(count_redraws(sn, last) == (if parse_accepted(sn, last.first().0, last.first().1) {
        1int
    } else {
        0int
    }));
}

/// Idempotence under no change: a parse request does not touch the buffer
/// or the version, so handling the same request again re-renders the same
/// token stream over the same text — the rendered nodes after the second
/// pass are structurally identical to those after the first.
pub proof fn lemma_parse_idempotent(s: SessionView, version: usize, tokens: Seq<Token>)
    ensures
        spec_parse_request(spec_parse_request(s, version, tokens), version, tokens).nodes
            == spec_parse_request(s, version, tokens).nodes,
        spec_parse_request(spec_parse_request(s, version, tokens), version, tokens).text
            == spec_parse_request(s, version, tokens).text,
        spec_parse_request(spec_parse_request(s, version, tokens), version, tokens).version
            == spec_parse_request(s, version, tokens).version,
{
}

} // verus!
