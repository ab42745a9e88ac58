//! The entries of the token table: the char and position each token was read from.
use vstd::prelude::*;

verus! {

/// The char a token was read from and its position in the field.
#[derive(Debug)]
pub struct Entry {
    pub _value: char,
    pub _pos: usize,
}

impl Entry {
    /// The entry for `_value` read at position `_pos`.
    pub open spec fn spec_new(_value: char, _pos: usize) -> Self {
        Entry { _value, _pos }
    }

    /// The char of this entry.
    pub open spec fn spec_value(self) -> char {
        self._value
    }

    /// Makes the entry for `_value` read at position `_pos`.
    pub fn new(_value: char, _pos: usize) -> (r: Self)
        ensures
            r == Self::spec_new(_value, _pos),
    {
        Self { _value, _pos }
    }

    /// The char of this entry.
    pub fn _value(&self) -> (r: char)
        ensures
            r == self.spec_value(),
    {
        self._value
    }
}

} // verus!
