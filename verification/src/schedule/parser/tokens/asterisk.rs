//! The `Asterisk` token: an asterisk, which stands for every value.
use vstd::prelude::*;

use super::Token;

verus! {

/// The token of an asterisk, which stands for every value.
pub struct Asterisk {
    pub id: usize,
}

impl Asterisk {
    /// The token with id `id`.
    pub open spec fn spec_new(id: usize) -> Self {
        Asterisk { id }
    }

    /// The id of this token.
    pub open spec fn spec_id(self) -> usize {
        self.id
    }

    /// Makes the token with id `id`.
    pub fn new(id: usize) -> (r: Self)
        ensures
            r == Self::spec_new(id),
    {
        Self { id }
    }

    /// The id of this token.
    pub fn id(&self) -> (r: usize)
        ensures
            r == self.spec_id(),
    {
        self.id
    }

    /// Whether `next` may follow a token of this kind.
    pub fn is_next_valid(next: &Token) -> (r: bool)
        ensures
            r == super::spec_follows(Token::Asterisk(Self::spec_new(0)), *next),
    {
        matches!(next, Token::Slash(_) | Token::End)
    }
}

} // verus!
