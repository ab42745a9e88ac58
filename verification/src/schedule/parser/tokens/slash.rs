//! The `Slash` token: a slash, which gives the step of an interval.
use vstd::prelude::*;

use super::Token;

verus! {

/// The token of a slash, which gives the step of an interval.
pub struct Slash {
    pub id: usize,
}

impl Slash {
    /// The token with id `id`.
    pub open spec fn spec_new(id: usize) -> Self {
        Slash { id }
    }

    /// The id of this token.
    pub open spec fn spec_id(self) -> usize {
        self.id
    }

    /// Makes the token with id `id`.
    pub fn new(id: usize) -> (r: Self)
        ensures
            r == Self::spec_new(id),
    {
        Self { id }
    }

    /// The id of this token.
    pub fn id(&self) -> (r: usize)
        ensures
            r == self.spec_id(),
    {
        self.id
    }

    /// Whether `next` may follow a token of this kind.
    pub fn is_next_valid(next: &Token) -> (r: bool)
        ensures
            r == super::spec_follows(Token::Slash(Self::spec_new(0)), *next),
    {
        matches!(next, Token::Number(_))
    }
}

} // verus!
