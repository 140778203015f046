//! The token source the parser pulls from: a finite sequence of tokens that
//! ends at its first end-of-stream sentinel and then yields the sentinel
//! forever.
use vstd::prelude::*;
use crate::token::Token;

verus! {

/// Number of tokens of `s` from index `i` up to, not including, the first
/// end-of-stream sentinel (or the end of `s`).
pub open spec fn run_len(s: Seq<Token>, i: int) -> nat
    decreases s.len() - i,
{
    if 0 <= i < s.len() && !(s[i] is End) {
        1 + run_len(s, i + 1)
    } else {
        0
    }
}

/// The tokens of the stream that `s` describes: those before the first
/// end-of-stream sentinel.
pub open spec fn stream_len(s: Seq<Token>) -> nat {
    run_len(s, 0)
}

/// The `i`-th token of the stream that `s` describes, or the end sentinel
/// past its end.
pub open spec fn token_at(s: Seq<Token>, i: int) -> Token {
    if 0 <= i < stream_len(s) {
        s[i]
    } else {
        Token::End
    }
}

/// A token source over a fixed sequence of tokens.
pub struct Lexer {
    tokens: Vec<Token>,
    pos: usize,
}

impl Lexer {
    /// The whole sequence the source was made from.
    pub closed spec fn tokens(&self) -> Seq<Token> {
        self.tokens@
    }

    /// How many tokens have been handed out so far.
    pub closed spec fn pulled(&self) -> nat {
        self.pos as nat
    }

    /// How many real tokens are still to come.
    pub open spec fn left(&self) -> nat {
        run_len(self.tokens(), self.pulled() as int)
    }

    pub closed spec fn wf(&self) -> bool {
        &&& self.pos <= self.tokens.len()
        &&& forall|i: int| 0 <= i < self.pos ==> !(#[trigger] self.tokens@[i] is End)
        &&& run_len(self.tokens@, 0) == self.pos + run_len(self.tokens@, self.pos as int)
    }

    /// Tokens handed out and tokens to come make up the stream.
    pub proof fn lemma_counts(&self)
        requires
            self.wf(),
        ensures
            self.pulled() + self.left() == stream_len(self.tokens()),
    {
    }

    /// A source that hands out `tokens` in order, up to the first
    /// end-of-stream sentinel.
    pub fn new(tokens: Vec<Token>) -> (r: Lexer)
        ensures
            r.wf(),
            r.tokens() == tokens@,
            r.pulled() == 0,
    {
        Lexer { tokens, pos: 0 }
    }

    /// How many tokens have been handed out so far.
    pub fn position(&self) -> (r: usize)
        ensures
            r == self.pulled(),
    {
        self.pos
    }

    /// The next token of the stream, or the sentinel once it is exhausted.
    pub fn advance(&mut self) -> (r: Token)
        requires
            old(self).wf(),
        ensures
            final(self).wf(),
            final(self).tokens() == old(self).tokens(),
            old(self).left() > 0 ==> {
                &&& final(self).pulled() == old(self).pulled() + 1
                &&& final(self).left() + 1 == old(self).left()
                &&& r == old(self).tokens()[old(self).pulled() as int]
                &&& !(r is End)
            },
            old(self).left() == 0 ==> *final(self) == *old(self) && r is End,
    {
        if self.pos < self.tokens.len() && !matches!(self.tokens[self.pos], Token::End) {
            let t = self.tokens[self.pos].duplicate();
            self.pos = self.pos + 1;
            t
        } else {
            Token::End
        }
    }
}

/// Every token pulled before the stream ran out is counted by the stream's
/// length: a source that has no tokens left has handed out exactly
/// `stream_len` of them.
pub proof fn lemma_pulled_all(l: &Lexer)
    requires
        l.wf(),
        l.left() == 0,
    ensures
        l.pulled() == stream_len(l.tokens()),
{
    lemma_run_len_from(l.tokens(), l.pulled() as int, 0);
}

proof fn lemma_run_len_from(s: Seq<Token>, p: int, i: int)
    requires
        0 <= i <= p <= s.len(),
        forall|k: int| 0 <= k < p ==> !(#[trigger] s[k] is End),
        run_len(s, p) == 0,
    ensures
        run_len(s, i) == p - i,
    decreases p - i,
{
    if i < p {
        lemma_run_len_from(s, p, i + 1);
    }
}

} // verus!
