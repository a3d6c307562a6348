//! Spans into the text buffer and the classified tokens produced from it.
//!
//! A token never copies text out of the buffer: each variant carries one or
//! more [`Span`] values, lightweight `(start, len)` character ranges that are
//! materialised into owned strings only when a rendered node is built.

use vstd::prelude::*;

verus! {

/// A character range into a text buffer: `len` characters starting at
/// character offset `start`. A span is only meaningful together with the
/// buffer it points into; [`Span::wf`] says it lies inside a buffer of the
/// given length.
#[derive(Clone, Copy, PartialEq, Eq, Structural, Debug)]
pub struct Span {
    pub start: usize,
    pub len: usize,
}

impl Span {
    /// The span lies inside a buffer of `n` characters.
    pub open spec fn wf(self, n: nat) -> bool {
        self.start + self.len <= n
    }

    /// The characters of `text` that the span designates.
    pub open spec fn spec_text(self, text: Seq<char>) -> Seq<char>
        recommends
            self.wf(text.len()),
    {
        text.subrange(self.start as int, self.start + self.len)
    }

    /// Bounds check against a buffer of `n` characters.
    pub fn check_in(&self, n: usize) -> (b: bool)
        ensures
            b == self.wf(n as nat),
    {
        self.start <= n && self.len <= n - self.start
    }

    /// Materialise the span's text as an owned string. This is the only
    /// point where buffer text is copied.
    pub fn fragment(&self, text: &str) -> (r: String)
        requires
            self.wf(text@.len()),
        ensures
            r@ == self.spec_text(text@),
    {
        let n = text.unicode_len();
        let sub = text.substring_char(self.start, self.start + self.len);
        String::from_str(sub)
    }
}

/// A classified unit of the input text, one case per kind the grammar
/// distinguishes. `Ignore` is internal to tokenisation and must never reach
/// rendering; the pipeline elides it.
#[derive(Clone, Copy, PartialEq, Eq, Structural, Debug)]
pub enum Token {
    /// Plain text, rendered as-is.
    Plaintext(Span),
    /// Whitespace, a distinct token kind but rendered like plain text.
    Space(Span),
    /// A line break; the span's own text is not rendered.
    NewLine(Span),
    /// Text carrying an emphasis mark.
    EmphasisMark(Span),
    /// A reference to a dictionary term; the identifier is carried for
    /// later interactive linking but is not itself rendered.
    Term { body: Span, term_id: u64 },
    /// Body text with a phonetic gloss.
    Ruby { body: Span, ruby: Span },
    /// Body text with a phonetic gloss over kanji; rendered exactly like
    /// `Ruby`.
    KanjiRuby { body: Span, ruby: Span },
    /// Body text with an out-of-line description; the description is
    /// carried but not expanded inline.
    Annotation { body: Span, description: Span },
    /// Tokeniser-internal filler, elided before rendering.
    Ignore(Span),
}

impl Token {
    /// The token is tokeniser-internal and must not be rendered.
    pub open spec fn is_ignore(self) -> bool {
        self is Ignore
    }

    /// Every span of the token lies inside a buffer of `n` characters.
    pub open spec fn wf(self, n: nat) -> bool {
        match self {
            Token::Plaintext(sp) => sp.wf(n),
            Token::Space(sp) => sp.wf(n),
            Token::NewLine(sp) => sp.wf(n),
            Token::EmphasisMark(sp) => sp.wf(n),
            Token::Term { body, .. } => body.wf(n),
            Token::Ruby { body, ruby } => body.wf(n) && ruby.wf(n),
            Token::KanjiRuby { body, ruby } => body.wf(n) && ruby.wf(n),
            Token::Annotation { body, description } => body.wf(n) && description.wf(n),
            Token::Ignore(sp) => sp.wf(n),
        }
    }

    /// Bounds check of every span against a buffer of `n` characters.
    pub fn check_in(&self, n: usize) -> (b: bool)
        ensures
            b == self.wf(n as nat),
    {
        match self {
            Token::Plaintext(sp) => sp.check_in(n),
            Token::Space(sp) => sp.check_in(n),
            Token::NewLine(sp) => sp.check_in(n),
            Token::EmphasisMark(sp) => sp.check_in(n),
            Token::Term { body, .. } => body.check_in(n),
            Token::Ruby { body, ruby } => body.check_in(n) && ruby.check_in(n),
            Token::KanjiRuby { body, ruby } => body.check_in(n) && ruby.check_in(n),
            Token::Annotation { body, description } => body.check_in(n) && description.check_in(n),
            Token::Ignore(sp) => sp.check_in(n),
        }
    }
}

/// Every token's spans lie inside a buffer of `n` characters.
pub open spec fn tokens_wf(tokens: Seq<Token>, n: nat) -> bool {
    forall|i: int| 0 <= i < tokens.len() ==> (#[trigger] tokens[i]).wf(n)
}

/// Bounds check of a whole token stream against a buffer of `n` characters.
pub fn tokens_check_in(tokens: &Vec<Token>, n: usize) -> (b: bool)
    ensures
        b == tokens_wf(tokens@, n as nat),
{
    let mut i: usize = 0;
    while i < tokens.len()
        invariant
            0 <= i <= tokens.len(),
            forall|j: int| 0 <= j < i ==> (#[trigger] tokens@[j]).wf(n as nat),
        decreases tokens.len() - i,
    {
        if !tokens[i].check_in(n) {
            return false;
        }
        i += 1;
    }
    true
}

} // verus!
