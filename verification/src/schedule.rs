//! Schedules: the parsed form of a cron expression, and the search for the
//! first date and time a schedule allows.
use vstd::prelude::*;

use crate::clock::{DateTimeParts, LocalDateTime};
use crate::collection::copy_ring::CopyRing;
use crate::schedule::parser::tokens::{push_char, spec_tokenize_result};
use crate::table::fields::date::DaysInner;
use crate::table::{BuildError, Error, FieldTable};
use crate::{range_inclusive, spec_range, ParseError};

pub mod fields;
pub mod parser;
pub mod table;

verus! {

broadcast use crate::collection::copy_ring::group_ring_set;

/// A schedule: the rings of allowed values of each field.
#[derive(Debug)]
pub struct Schedule {
    pub fields: Box<FieldTable>,
}

/// The kinds of table that the macros `@hourly`, `@daily`, `@weekly`,
/// `@monthly` and `@yearly` stand for.
#[derive(Clone, Copy, Debug, PartialEq, Eq, Structural)]
pub enum Every {
    Hour,
    Day,
    Week,
    Month,
    Year,
}

/// The table of `every`, as its rings: second 0, minute 0, hour 0 (every
/// hour for `Hour`); every day of the month (`Hour`, `Day`), Sunday
/// (`Week`), or day 0 (`Month`, `Year`); every month, or month 0 (`Year`).
pub open spec fn spec_is_table_of(t: FieldTable, every: Every) -> bool {
    &&& t.time.secs.0.is_fresh(seq![0u8])
    &&& t.time.mins.0.is_fresh(seq![0u8])
    &&& t.time.hours.0.is_fresh(if every == Every::Hour { spec_range(0, 23) } else { seq![0u8] })
    &&& t.date.days.0 == match every {
        Every::Week => DaysInner::Week((t.date.days.0->Week_0.0, None)),
        _ => DaysInner::Month(t.date.days.0->Month_0),
    }
    &&& match every {
        Every::Week => t.date.days.0->Week_0.0.is_fresh(seq![0u8]),
        Every::Hour | Every::Day => t.date.days.0->Month_0.is_fresh(spec_range(1, 31)),
        _ => t.date.days.0->Month_0.is_fresh(seq![0u8]),
    }
    &&& t.date.months.0.is_fresh(if every == Every::Year { seq![0u8] } else { spec_range(1, 12) })
    &&& t.date.year is None
}

/// The error the build of the table of `@monthly` or `@yearly` reports: the
/// time half builds, the date half is out of range (its month day is 0, and
/// for `@yearly` its month too).
pub open spec fn spec_day_zero_error() -> BuildError {
    BuildError { time: None, date: Some(Error::OutOfRange) }
}

/// Builds the table of `every`: for `Hour`, `Day` and `Week` the table of
/// `spec_is_table_of`; `Month` and `Year` ask for day 0 (and `Year` for
/// month 0), which the build rejects as out of range.
fn table_of(every: Every) -> (r: Result<FieldTable, BuildError>)
    ensures
        every == Every::Hour || every == Every::Day || every == Every::Week ==> (r matches Ok(t)
            && spec_is_table_of(t, every)),
        every == Every::Month || every == Every::Year ==> r == Err::<FieldTable, BuildError>(spec_day_zero_error()),
{
    let mut builder = FieldTable::builder();
    builder.with_secs(CopyRing::from_value(0));
    builder.with_mins(CopyRing::from_value(0));
    if every == Every::Hour {
        builder.with_hours(CopyRing::new(range_inclusive(0, 23)));
    } else {
        builder.with_hours(CopyRing::from_value(0));
    }
    match every {
        Every::Hour | Every::Day => {
            builder.with_days_month(CopyRing::new(range_inclusive(1, 31)));
        },
        Every::Week => {
            builder.with_days_week(CopyRing::from_value(0));
        },
        Every::Month | Every::Year => {
            builder.with_days_month(CopyRing::from_value(0));
        },
    }
    if every == Every::Year {
        builder.with_months(CopyRing::from_value(0));
    } else {
        builder.with_months(CopyRing::new(range_inclusive(1, 12)));
    }
    builder.build()
}

/// The table of `@hourly`: second 0 and minute 0 of every hour of every day.
fn hourly() -> (r: FieldTable)
    ensures
        spec_is_table_of(r, Every::Hour),
{
    match table_of(Every::Hour) {
        Ok(t) => t,
        Err(_) => vstd::pervasive::unreached(),
    }
}

/// The table of `@daily`: midnight of every day.
fn daily() -> (r: FieldTable)
    ensures
        spec_is_table_of(r, Every::Day),
{
    match table_of(Every::Day) {
        Ok(t) => t,
        Err(_) => vstd::pervasive::unreached(),
    }
}

/// The table of `@weekly`: midnight of every Sunday.
fn weekly() -> (r: FieldTable)
    ensures
        spec_is_table_of(r, Every::Week),
{
    match table_of(Every::Week) {
        Ok(t) => t,
        Err(_) => vstd::pervasive::unreached(),
    }
}

/// The table of `@yearly`: midnight of day 0 of month 0, which its build
/// rejects as out of range.
fn annually() -> (r: Result<FieldTable, BuildError>)
    ensures
        r == Err::<FieldTable, BuildError>(spec_day_zero_error()),
{
    table_of(Every::Year)
}

/// The table of `@monthly`: midnight of day 0 of every month, which its
/// build rejects as out of range.
fn monthly() -> (r: Result<FieldTable, BuildError>)
    ensures
        r == Err::<FieldTable, BuildError>(spec_day_zero_error()),
{
    table_of(Every::Month)
}

/// Whether `c` is white space: a char with the Unicode `White_Space`
/// property, as `char::is_whitespace` tells.
pub open spec fn spec_is_whitespace(c: char) -> bool {
    ||| '\u{9}' <= c <= '\u{d}'
    ||| c == ' '
    ||| c == '\u{85}'
    ||| c == '\u{a0}'
    ||| c == '\u{1680}'
    ||| '\u{2000}' <= c <= '\u{200a}'
    ||| c == '\u{2028}'
    ||| c == '\u{2029}'
    ||| c == '\u{202f}'
    ||| c == '\u{205f}'
    ||| c == '\u{3000}'
}

/// Returns whether `c` is white space (see `spec_is_whitespace`).
pub fn is_whitespace(c: char) -> (r: bool)
    ensures
        r == spec_is_whitespace(c),
{
    ('\u{9}' <= c && c <= '\u{d}') || c == ' ' || c == '\u{85}' || c == '\u{a0}' || c == '\u{1680}' || (
    '\u{2000}' <= c && c <= '\u{200a}') || c == '\u{2028}' || c == '\u{2029}' || c == '\u{202f}' || c
        == '\u{205f}' || c == '\u{3000}'
}

/// The words of `cs`: its longest runs of chars that are not white space,
/// in order (what `str::split_whitespace` yields).
pub open spec fn spec_words(cs: Seq<char>) -> Seq<Seq<char>>
    decreases cs.len(),
{
    if cs.len() == 0 {
        Seq::empty()
    } else {
        let w = spec_words(cs.drop_last());
        let c = cs.last();
        if spec_is_whitespace(c) {
            w
        } else if cs.len() >= 2 && !spec_is_whitespace(cs[cs.len() - 2]) {
            w.update(w.len() - 1, w.last().push(c))
        } else {
            w.push(seq![c])
        }
    }
}

/// Every word is non-empty, and when `cs` ends in a char that is not white
/// space, there is a word, ending in that char.
pub proof fn lemma_words(cs: Seq<char>)
    ensures
        forall|k: int| 0 <= k < spec_words(cs).len() ==> #[trigger] spec_words(cs)[k].len() > 0,
        cs.len() > 0 && !spec_is_whitespace(cs.last()) ==> spec_words(cs).len() > 0,
    decreases cs.len(),
{
    if cs.len() > 0 {
        lemma_words(cs.drop_last());
        let w = spec_words(cs.drop_last());
        if cs.len() >= 2 && !spec_is_whitespace(cs[cs.len() - 2]) {
            assert(cs.drop_last().last() == cs[cs.len() - 2]);
        }
    }
}

/// Splits `cs` into its words (see `spec_words`).
pub fn split_words(cs: &Vec<char>) -> (r: Vec<Vec<char>>)
    ensures
        r@.len() == spec_words(cs@).len(),
        forall|k: int| 0 <= k < r@.len() ==> #[trigger] r@[k]@ == spec_words(cs@)[k],
{
    let mut words: Vec<Vec<char>> = Vec::new();
    let mut cur: Vec<char> = Vec::new();
    let mut in_word = false;
    let mut i: usize = 0;
    while i < cs.len()
        invariant
            i <= cs@.len(),
            in_word == (i > 0 && !spec_is_whitespace(cs@[i - 1])),
            !in_word ==> cur@ == Seq::<char>::empty(),
            ({
                let sw = spec_words(cs@.take(i as int));
                &&& sw.len() == words@.len() + if in_word { 1int } else { 0int }
                &&& forall|k: int| 0 <= k < words@.len() ==> #[trigger] words@[k]@ == sw[k]
                &&& in_word ==> cur@ == sw.last()
            }),
        decreases cs@.len() - i,
    {
        let c = cs[i];
        let ghost sw0 = spec_words(cs@.take(i as int));
        let ghost old_words = words@;
        let ghost old_cur = cur@;
        proof {
            assert(cs@.take(i + 1).drop_last() =~= cs@.take(i as int));
            assert(cs@.take(i + 1).last() == c);
            if i > 0 {
                assert(cs@.take(i + 1)[i - 1] == cs@[i - 1]);
            }
            let sw1 = spec_words(cs@.take(i + 1));
            if spec_is_whitespace(c) {
                assert(sw1 == sw0);
            } else if in_word {
                assert(sw1 == sw0.update(sw0.len() - 1, sw0.last().push(c)));
            } else {
                assert(sw1 == sw0.push(seq![c]));
            }
        }
        if is_whitespace(c) {
            if in_word {
                let w = cur;
                words.push(w);
                cur = Vec::new();
            }
            in_word = false;
        } else {
            cur.push(c);
            in_word = true;
        }
        i = i + 1;
        proof {
            let sw = spec_words(cs@.take(i as int));
            if !spec_is_whitespace(c) && old_cur.len() == 0 {
                assert(cur@ =~= seq![c]);
            }
            assert forall|k: int| 0 <= k < words@.len() implies #[trigger] words@[k]@ == sw[k] by {
                if k < old_words.len() {
                    assert(words@[k] == old_words[k]);
                }
            }
        }
    }
    if in_word {
        words.push(cur);
    }
    proof {
        assert(cs@.take(cs@.len() as int) =~= cs@);
    }
    words
}

/// A `String` holding the chars `cs`.
fn string_of(cs: &Vec<char>) -> (r: String)
    ensures
        r@ == cs@,
{
    let mut s = String::new();
    let mut i: usize = 0;
    while i < cs.len()
        invariant
            i <= cs@.len(),
            s@ == cs@.take(i as int),
        decreases cs@.len() - i,
    {
        push_char(&mut s, cs[i]);
        i = i + 1;
        proof {
            assert(s@ =~= cs@.take(i as int));
        }
    }
    proof {
        assert(cs@.take(cs@.len() as int) =~= cs@);
    }
    s
}

/// What `Schedule::from_str` makes of the text `cs`: the table a macro
/// (`@` and a letter, of one word) stands for, or the error returned.
///
/// No words give `Empty`. One word that does not start with `@` gives
/// `WrongNumberOfFields`; `@` alone, or followed by a letter other than
/// y/a (yearly), m (monthly), w (weekly), d (daily) or h (hourly), in
/// either case, gives `InvalidMacro`. Six words give the tokenizing error
/// of the first (see `FieldTable::try_from`). Any other number gives
/// `WrongNumberOfFields`.
pub open spec fn spec_from_str(cs: Seq<char>) -> Result<Every, ParseError> {
    let ws = spec_words(cs);
    if ws.len() == 0 {
        Err(ParseError::Empty)
    } else if ws.len() == 1 {
        let w = ws[0];
        if w[0] != '@' {
            Err(ParseError::WrongNumberOfFields)
        } else if w.len() < 2 {
            Err(ParseError::InvalidMacro)
        } else {
            match w[1] {
                'y' | 'a' | 'Y' | 'A' => Ok(Every::Year),
                'm' | 'M' => Ok(Every::Month),
                'w' | 'W' => Ok(Every::Week),
                'd' | 'D' => Ok(Every::Day),
                'h' | 'H' => Ok(Every::Hour),
                _ => Err(ParseError::InvalidMacro),
            }
        }
    } else if ws.len() == 6 {
        Err(spec_tokenize_result(ws[0])->Err_0)
    } else {
        Err(ParseError::WrongNumberOfFields)
    }
}

/// Whether `Schedule::from_str` runs without a panic on `cs`: not five words
/// (not handled), six words only when the first fails to tokenize (reading
/// the values of a field is not done), and no `@yearly` or `@monthly`
/// (their tables do not build).
pub open spec fn spec_from_str_ok(cs: Seq<char>) -> bool {
    let ws = spec_words(cs);
    &&& ws.len() != 5
    &&& ws.len() == 6 ==> spec_tokenize_result(ws[0]) is Err
    &&& spec_from_str(cs) != Ok::<Every, ParseError>(Every::Year)
    &&& spec_from_str(cs) != Ok::<Every, ParseError>(Every::Month)
}

/// Whether `Schedule::from_str` can read `s` (see `spec_from_str_ok`).
pub fn from_str_supported(s: &str) -> (r: bool)
    ensures
        r == spec_from_str_ok(s@),
{
    let cs = crate::schedule::parser::tokens::chars_of(s);
    let words = split_words(&cs);
    proof {
        lemma_words(s@);
    }
    let n = words.len();
    if n == 5 {
        false
    } else if n == 6 {
        let first = string_of(&words[0]);
        assert(first@ == spec_words(s@)[0]);
        crate::schedule::parser::tokens::TokenStream::tokenize(first.as_str()).is_err()
    } else if n == 1 {
        assert(words@[0]@ == spec_words(s@)[0]);
        let word = &words[0];
        if word[0] == '@' && word.len() >= 2 {
            let c = word[1];
            !(c == 'y' || c == 'a' || c == 'Y' || c == 'A' || c == 'm' || c == 'M')
        } else {
            true
        }
    } else {
        true
    }
}

impl Schedule {
    /// The schedule of `fields`.
    fn new(fields: FieldTable) -> (r: Self)
        ensures
            *r.fields == fields,
    {
        Self { fields: Box::new(fields) }
    }

    /// The first allowed date and time at or after `when` (read in its own
    /// time zone); see `FieldTable::after`.
    pub fn after(&mut self, when: &DateTimeParts) -> (r: Option<LocalDateTime>)
        requires
            old(self).fields.spec_after_ok(*when),
        ensures
            (r, *final(self).fields) == old(self).fields.spec_after(*when),
    {
        self.fields.after(when)
    }

    /// Whether `after` can be asked for `when` (see
    /// `FieldTable::after_supported`); when it can, `after` runs without a
    /// panic (see `crate::table::law_after_runs`).
    pub fn after_supported(&self, when: &DateTimeParts) -> (r: bool)
        ensures
            r == (self.fields.spec_searchable(*when) && crate::table::spec_when_valid(*when)),
    {
        self.fields.after_supported(when)
    }

    /// Every hour, at minute 0 and second 0.
    pub fn hourly() -> (r: Self)
        ensures
            spec_is_table_of(*r.fields, Every::Hour),
    {
        Self::new(hourly())
    }

    /// Every day at midnight.
    pub fn daily() -> (r: Self)
        ensures
            spec_is_table_of(*r.fields, Every::Day),
    {
        Self::new(daily())
    }

    /// Every Sunday at midnight.
    pub fn weekly() -> (r: Self)
        ensures
            spec_is_table_of(*r.fields, Every::Week),
    {
        Self::new(weekly())
    }

    /// Midnight of day 0 of every month: its table does not build (day 0 is
    /// out of range), and the build error is returned.
    pub fn monthly() -> (r: Result<Self, BuildError>)
        ensures
            r matches Err(e) && e == spec_day_zero_error(),
    {
        match monthly() {
            Ok(t) => Ok(Self::new(t)),
            Err(e) => Err(e),
        }
    }

    /// Midnight of day 0 of month 0: its table does not build (day 0 and
    /// month 0 are out of range), and the build error is returned.
    pub fn yearly() -> (r: Result<Self, BuildError>)
        ensures
            r matches Err(e) && e == spec_day_zero_error(),
    {
        match annually() {
            Ok(t) => Ok(Self::new(t)),
            Err(e) => Err(e),
        }
    }

    /// Reads a schedule from a cron expression (see `spec_from_str`).
    pub fn from_str(s: &str) -> (r: Result<Schedule, ParseError>)
        requires
            spec_from_str_ok(s@),
        ensures
            match spec_from_str(s@) {
                Ok(every) => r matches Ok(schedule) && spec_is_table_of(*schedule.fields, every),
                Err(e) => r == Err::<Schedule, ParseError>(e),
            },
    {
        let cs = crate::schedule::parser::tokens::chars_of(s);
        let fields = split_words(&cs);
        proof {
            lemma_words(s@);
        }
        let n = fields.len();
        if n == 0 {
            Err(ParseError::Empty)
        } else if n == 1 {
            assert(fields@[0]@ == spec_words(s@)[0]);
            let word = &fields[0];
            if word[0] != '@' {
                Err(ParseError::WrongNumberOfFields)
            } else if word.len() < 2 {
                Err(ParseError::InvalidMacro)
            } else {
                let c = word[1];
                if c == 'y' || c == 'a' || c == 'Y' || c == 'A' {
                    match Schedule::yearly() {
                        Ok(schedule) => Ok(schedule),
                        Err(_) => vstd::pervasive::unreached(),
                    }
                } else if c == 'm' || c == 'M' {
                    match Schedule::monthly() {
                        Ok(schedule) => Ok(schedule),
                        Err(_) => vstd::pervasive::unreached(),
                    }
                } else if c == 'w' || c == 'W' {
                    Ok(Schedule::weekly())
                } else if c == 'd' || c == 'D' {
                    Ok(Schedule::daily())
                } else if c == 'h' || c == 'H' {
                    Ok(Schedule::hourly())
                } else {
                    Err(ParseError::InvalidMacro)
                }
            }
        } else if n == 6 {
            let s0 = string_of(&fields[0]);
            let s1 = string_of(&fields[1]);
            let s2 = string_of(&fields[2]);
            let s3 = string_of(&fields[3]);
            let s4 = string_of(&fields[4]);
            let s5 = string_of(&fields[5]);
            let strs: Vec<&str> = vec![s0.as_str(), s1.as_str(), s2.as_str(), s3.as_str(), s4.as_str(), s5.as_str()];
            assert(strs@[0]@ == spec_words(s@)[0]);
            match FieldTable::try_from(strs) {
                Ok(table) => Ok(Schedule::new(table)),
                Err(e) => Err(e),
            }
        } else {
            Err(ParseError::WrongNumberOfFields)
        }
    }
}

} // verus!
