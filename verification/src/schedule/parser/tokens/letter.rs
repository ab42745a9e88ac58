//! The `Letter` token: a letter.
use vstd::prelude::*;

use super::Token;

verus! {

/// The token of a letter.
pub struct Letter {
    pub id: usize,
}

impl Letter {
    /// The token with id `id`.
    pub open spec fn spec_new(id: usize) -> Self {
        Letter { id }
    }

    /// The id of this token.
    pub open spec fn spec_id(self) -> usize {
        self.id
    }

    /// Makes the token with id `id`.
    pub fn new(id: usize) -> (r: Self)
        ensures
            r == Self::spec_new(id),
    {
        Self { id }
    }

    /// The id of this token.
    pub fn id(&self) -> (r: usize)
        ensures
            r == self.spec_id(),
    {
        self.id
    }

    /// Whether `next` may follow a token of this kind.
    pub fn is_next_valid(next: &Token) -> (r: bool)
        ensures
            r == super::spec_follows(Token::Letter(Self::spec_new(0)), *next),
    {
        match next {
            Token::Start(_) => false,
            Token::Number(_) => false,
            Token::Letter(_) => true,
            Token::Comma(_) => false,
            Token::Hyphen(_) => true,
            Token::Asterisk(_) => false,
            Token::Slash(_) => false,
            Token::End => true,
        }
    }
}

} // verus!
