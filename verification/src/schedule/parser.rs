//! Parsing of the six fields of a cron expression: the sub-expression of
//! each field, the range of values it allows, and the validation that turns its
//! values into a ring for the field table.
use vstd::prelude::*;
use std::collections::HashSet;

use self::tokens::{spec_tokenize_result, TokenStream};
use crate::table::FieldTable;
use crate::{CopyRing, ParseError};

pub mod tokens;

verus! {

/// The values given for the seconds.
pub struct Seconds(pub Vec<u32>);

/// The values given for the minutes.
pub struct Minutes(pub Vec<u32>);

/// The values given for the hours.
pub struct Hours(pub Vec<u32>);

/// The values given for the days of the month.
pub struct DaysOfTheMonth(pub Vec<u32>);

/// The values given for the months.
pub struct Months(pub Vec<u32>);

/// The values given for the days of the week.
pub struct DaysOfTheWeek(pub Vec<u32>);

/// Which error `validate` reports for `values` allowed between `min` and
/// `max`, if any: none given, one below `min`, one above `max`, or one
/// given twice, checked in that order.
pub open spec fn spec_validate_error(values: Seq<u32>, min: u32, max: u32) -> Option<ParseError> {
    if values.len() == 0 {
        Some(ParseError::Empty)
    } else if exists|i: int| 0 <= i < values.len() && values[i] < min {
        Some(ParseError::BelowRange)
    } else if exists|i: int| 0 <= i < values.len() && values[i] > max {
        Some(ParseError::AboveRange)
    } else if exists|i: int, j: int| 0 <= i < j < values.len() && values[i] == values[j] {
        Some(ParseError::DuplicateValue)
    } else {
        None
    }
}

/// The values of `values` from `lo` up to (not including) `hi`, in
/// increasing order, each once.
pub open spec fn spec_in_order(values: Seq<u32>, lo: int, hi: int) -> Seq<u8>
    decreases hi - lo,
{
    if hi <= lo {
        Seq::empty()
    } else if values.contains((hi - 1) as u32) {
        spec_in_order(values, lo, hi - 1).push((hi - 1) as u8)
    } else {
        spec_in_order(values, lo, hi - 1)
    }
}

/// Whether `values` holds `v`.
fn holds(values: &Vec<u32>, v: u32) -> (r: bool)
    ensures
        r == values@.contains(v),
{
    let mut i: usize = 0;
    while i < values.len()
        invariant
            i <= values@.len(),
            forall|k: int| 0 <= k < i ==> values@[k] != v,
        decreases values@.len() - i,
    {
        if values[i] == v {
            return true;
        }
        i = i + 1;
    }
    false
}

/// Checks the values given for a field allowed between `min` and `max`,
/// and on success returns a ring of them in increasing order.
pub fn validate_values(values: &Vec<u32>, min: u32, max: u32) -> (r: Result<CopyRing<u8>, ParseError>)
    requires
        max < u32::MAX,
    ensures
        spec_validate_error(values@, min, max) matches Some(e) ==> r == Err::<CopyRing<u8>, ParseError>(e),
        spec_validate_error(values@, min, max) is None ==> (r matches Ok(ring) && ring.is_fresh(
            spec_in_order(values@, min as int, max + 1),
        )),
{
    if values.len() == 0 {
        return Err(ParseError::Empty);
    }
    let mut i: usize = 0;
    while i < values.len()
        invariant
            i <= values@.len(),
            forall|k: int| 0 <= k < i ==> values@[k] >= min,
        decreases values@.len() - i,
    {
        if values[i] < min {
            return Err(ParseError::BelowRange);
        }
        i = i + 1;
    }
    assert(!exists|k: int| 0 <= k < values@.len() && values@[k] < min);
    let mut i: usize = 0;
    while i < values.len()
        invariant
            i <= values@.len(),
            forall|k: int| 0 <= k < values@.len() ==> values@[k] >= min,
            forall|k: int| 0 <= k < i ==> values@[k] <= max,
        decreases values@.len() - i,
    {
        if values[i] > max {
            return Err(ParseError::AboveRange);
        }
        i = i + 1;
    }
    assert(!exists|k: int| 0 <= k < values@.len() && values@[k] > max);
    let mut dupck: HashSet<u32> = HashSet::new();
    let mut i: usize = 0;
    while i < values.len()
        invariant
            i <= values@.len(),
            forall|k: int| 0 <= k < values@.len() ==> min <= #[trigger] values@[k] <= max,
            forall|a: int, b: int| 0 <= a < b < i ==> values@[a] != values@[b],
            forall|x: u32| dupck@.contains(x) <==> exists|k: int| 0 <= k < i && values@[k] == x,
        decreases values@.len() - i,
    {
        proof {
            broadcast use vstd::std_specs::hash::group_hash_axioms;
        }
        let v = values[i];
        if !dupck.insert(v) {
            proof {
                let k = choose|k: int| 0 <= k < i && values@[k] == v;
                assert(values@[k] == values@[i as int]);
            }
            return Err(ParseError::DuplicateValue);
        }
        i = i + 1;
    }
    assert(!exists|a: int, b: int| 0 <= a < b < values@.len() && values@[a] == values@[b]);
    let mut sorted: Vec<u8> = Vec::new();
    let mut v: u32 = min;
    if min <= max {
        loop
            invariant_except_break
                min <= v <= max,
                sorted@ == spec_in_order(values@, min as int, v as int),
            invariant
                max < u32::MAX,
            ensures
                sorted@ == spec_in_order(values@, min as int, max + 1),
            decreases max - v,
        {
            if holds(values, v) {
                sorted.push(v as u8);
            }
            assert(sorted@ == spec_in_order(values@, min as int, v + 1));
            if v == max {
                break;
            }
            v = v + 1;
        }
    }
    Ok(CopyRing::new(sorted))
}

impl Seconds {
    /// The lowest second allowed.
    pub fn min() -> (r: u32)
        ensures
            r == 0,
    {
        0
    }

    /// The highest second allowed.
    pub fn max() -> (r: u32)
        ensures
            r == 59,
    {
        59
    }

    /// The values given.
    pub fn values(&self) -> (r: &Vec<u32>)
        ensures
            r@ == self.0@,
    {
        &self.0
    }

    /// Checks the values (see `validate_values`) and returns them as a ring.
    pub fn validate(self) -> (r: Result<CopyRing<u8>, ParseError>)
        ensures
            spec_validate_error(self.0@, 0, 59) matches Some(e) ==> r == Err::<CopyRing<u8>, ParseError>(e),
            spec_validate_error(self.0@, 0, 59) is None ==> (r matches Ok(ring) && ring.is_fresh(
                spec_in_order(self.0@, 0, 60),
            )),
    {
        validate_values(self.values(), Self::min(), Self::max())
    }
}

impl Minutes {
    /// The lowest minute allowed.
    pub fn min() -> (r: u32)
        ensures
            r == 0,
    {
        0
    }

    /// The highest minute allowed.
    pub fn max() -> (r: u32)
        ensures
            r == 59,
    {
        59
    }

    /// The values given.
    pub fn values(&self) -> (r: &Vec<u32>)
        ensures
            r@ == self.0@,
    {
        &self.0
    }

    /// Checks the values (see `validate_values`) and returns them as a ring.
    pub fn validate(self) -> (r: Result<CopyRing<u8>, ParseError>)
        ensures
            spec_validate_error(self.0@, 0, 59) matches Some(e) ==> r == Err::<CopyRing<u8>, ParseError>(e),
            spec_validate_error(self.0@, 0, 59) is None ==> (r matches Ok(ring) && ring.is_fresh(
                spec_in_order(self.0@, 0, 60),
            )),
    {
        validate_values(self.values(), Self::min(), Self::max())
    }
}

impl Hours {
    /// The lowest hour allowed.
    pub fn min() -> (r: u32)
        ensures
            r == 0,
    {
        0
    }

    /// The highest hour allowed.
    pub fn max() -> (r: u32)
        ensures
            r == 23,
    {
        23
    }

    /// The values given.
    pub fn values(&self) -> (r: &Vec<u32>)
        ensures
            r@ == self.0@,
    {
        &self.0
    }

    /// Checks the values (see `validate_values`) and returns them as a ring.
    pub fn validate(self) -> (r: Result<CopyRing<u8>, ParseError>)
        ensures
            spec_validate_error(self.0@, 0, 23) matches Some(e) ==> r == Err::<CopyRing<u8>, ParseError>(e),
            spec_validate_error(self.0@, 0, 23) is None ==> (r matches Ok(ring) && ring.is_fresh(
                spec_in_order(self.0@, 0, 24),
            )),
    {
        validate_values(self.values(), Self::min(), Self::max())
    }
}

impl DaysOfTheMonth {
    /// The lowest day of the month allowed.
    pub fn min() -> (r: u32)
        ensures
            r == 1,
    {
        1
    }

    /// The highest day of the month allowed.
    pub fn max() -> (r: u32)
        ensures
            r == 31,
    {
        31
    }

    /// The values given.
    pub fn values(&self) -> (r: &Vec<u32>)
        ensures
            r@ == self.0@,
    {
        &self.0
    }

    /// Checks the values (see `validate_values`) and returns them as a ring.
    pub fn validate(self) -> (r: Result<CopyRing<u8>, ParseError>)
        ensures
            spec_validate_error(self.0@, 1, 31) matches Some(e) ==> r == Err::<CopyRing<u8>, ParseError>(e),
            spec_validate_error(self.0@, 1, 31) is None ==> (r matches Ok(ring) && ring.is_fresh(
                spec_in_order(self.0@, 1, 32),
            )),
    {
        validate_values(self.values(), Self::min(), Self::max())
    }
}

impl Months {
    /// The lowest month allowed.
    pub fn min() -> (r: u32)
        ensures
            r == 1,
    {
        1
    }

    /// The highest month allowed.
    pub fn max() -> (r: u32)
        ensures
            r == 12,
    {
        12
    }

    /// The names that may stand for the months; the name at position `i`
    /// stands for month `i` (position 0 holds no month).
    pub fn as_strs() -> (r: Vec<&'static str>)
        ensures
            r@.len() == 13,
    {
        vec!["INV", "JAN", "FEB", "MAR", "APR", "MAY", "JUN", "JUL", "AUG", "SEP", "OCT", "NOV", "DEC"]
    }

    /// The values given.
    pub fn values(&self) -> (r: &Vec<u32>)
        ensures
            r@ == self.0@,
    {
        &self.0
    }

    /// Checks the values (see `validate_values`) and returns them as a ring.
    pub fn validate(self) -> (r: Result<CopyRing<u8>, ParseError>)
        ensures
            spec_validate_error(self.0@, 1, 12) matches Some(e) ==> r == Err::<CopyRing<u8>, ParseError>(e),
            spec_validate_error(self.0@, 1, 12) is None ==> (r matches Ok(ring) && ring.is_fresh(
                spec_in_order(self.0@, 1, 13),
            )),
    {
        validate_values(self.values(), Self::min(), Self::max())
    }
}

impl DaysOfTheWeek {
    /// The lowest weekday allowed (Sunday).
    pub fn min() -> (r: u32)
        ensures
            r == 0,
    {
        0
    }

    /// The highest weekday allowed (Saturday).
    pub fn max() -> (r: u32)
        ensures
            r == 6,
    {
        6
    }

    /// The names that may stand for the weekdays; the name at position `i`
    /// stands for weekday `i`, Sunday first.
    pub fn as_strs() -> (r: Vec<&'static str>)
        ensures
            r@.len() == 7,
    {
        vec!["SUN", "MON", "TUES", "WED", "THURS", "FRI", "SAT"]
    }

    /// The values given.
    pub fn values(&self) -> (r: &Vec<u32>)
        ensures
            r@ == self.0@,
    {
        &self.0
    }

    /// Checks the values (see `validate_values`) and returns them as a ring.
    pub fn validate(self) -> (r: Result<CopyRing<u8>, ParseError>)
        ensures
            spec_validate_error(self.0@, 0, 6) matches Some(e) ==> r == Err::<CopyRing<u8>, ParseError>(e),
            spec_validate_error(self.0@, 0, 6) is None ==> (r matches Ok(ring) && ring.is_fresh(
                spec_in_order(self.0@, 0, 7),
            )),
    {
        validate_values(self.values(), Self::min(), Self::max())
    }
}

/// Reads the sub-expression of one field. The field is tokenized first and a
/// tokenizing error is returned; reading the values of a field whose
/// tokens are all accepted is not done, so such a field is left out by the
/// `requires`.
pub fn parse_str(s: &str) -> (r: Result<Vec<u32>, ParseError>)
    requires
        spec_tokenize_result(s@) is Err,
    ensures
        r == Err::<Vec<u32>, ParseError>(spec_tokenize_result(s@)->Err_0),
{
    match TokenStream::tokenize(s) {
        Err(e) => Err(e),
        Ok(_) => {
            assert(false);
            Err(ParseError::Unknown)
        },
    }
}

impl FieldTable {
    /// Reads a field table from the six fields of a cron expression,
    /// seconds first. The first field is read first, so its tokenizing
    /// error is returned; past it nothing is read (see `parse_str`).
    pub fn try_from(value: Vec<&str>) -> (r: Result<FieldTable, ParseError>)
        requires
            value@.len() >= 1,
            spec_tokenize_result(value@[0]@) is Err,
        ensures
            r == Err::<FieldTable, ParseError>(spec_tokenize_result(value@[0]@)->Err_0),
    {
        match parse_str(value[0]) {
            Err(e) => Err(e),
            Ok(_) => {
                assert(false);
                Err(ParseError::Unknown)
            },
        }
    }
}

} // verus!
