//! The `Hyphen` token: a hyphen, which joins the ends of a range.
use vstd::prelude::*;

use super::Token;

verus! {

/// The token of a hyphen, which joins the ends of a range.
pub struct Hyphen {
    pub id: usize,
}

impl Hyphen {
    /// The token with id `id`.
    pub open spec fn spec_new(id: usize) -> Self {
        Hyphen { id }
    }

    /// The id of this token.
    pub open spec fn spec_id(self) -> usize {
        self.id
    }

    /// Makes the token with id `id`.
    pub fn new(id: usize) -> (r: Self)
        ensures
            r == Self::spec_new(id),
    {
        Self { id }
    }

    /// The id of this token.
    pub fn id(&self) -> (r: usize)
        ensures
            r == self.spec_id(),
    {
        self.id
    }

    /// Whether `next` may follow a token of this kind.
    pub fn is_next_valid(next: &Token) -> (r: bool)
        ensures
            r == super::spec_follows(Token::Hyphen(Self::spec_new(0)), *next),
    {
        matches!(next, Token::Number(_) | Token::Letter(_))
    }
}

} // verus!
