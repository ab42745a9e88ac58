//! The tokenizer of one field of a cron expression.
//!
//! A field is read one char at a time. Each char becomes a token (a digit a
//! `Number`, a letter a `Letter`, and `,` `-` `*` `/` their own kinds); the
//! stream starts with a `Start` token and ends with an `End` token, and each
//! token must be one that may follow the token before it.
use vstd::prelude::*;

use self::asterisk::Asterisk;
use self::comma::Comma;
use self::hyphen::Hyphen;
use self::letter::Letter;
use self::num::Number;
use self::slash::Slash;
use self::start::Start;
use self::table::Entry;
use crate::ParseError;
use std::collections::HashMap;

pub mod asterisk;
pub mod comma;
pub mod hyphen;
pub mod letter;
pub mod num;
pub mod slash;
pub mod start;
pub mod table;

verus! {

broadcast use vstd::string::axiom_spec_iter;

/// One token of a field.
pub enum Token {
    Start(Start),
    Number(Number),
    Letter(Letter),
    Comma(Comma),
    Hyphen(Hyphen),
    Asterisk(Asterisk),
    Slash(Slash),
    End,
}

/// Whether a token of `next`'s kind may follow a token of `prev`'s kind.
pub open spec fn spec_follows(prev: Token, next: Token) -> bool {
    match prev {
        Token::Start(_) => next is Number || next is Letter || next is Asterisk || next is End,
        Token::Number(_) => next is Number || next is Comma || next is Hyphen || next is End,
        Token::Letter(_) => next is Letter || next is Hyphen || next is End,
        Token::Comma(_) => next is Number || next is Letter,
        Token::Hyphen(_) => next is Number || next is Letter,
        Token::Asterisk(_) => next is Slash || next is End,
        Token::Slash(_) => next is Number,
        Token::End => false,
    }
}

/// Whether `c` is a char that some token stands for.
pub open spec fn spec_is_token_char(c: char) -> bool {
    ('0' <= c <= '9') || ('a' <= c <= 'z') || ('A' <= c <= 'Z') || c == ',' || c == '/' || c == '*'
        || c == '-'
}

/// The token that `c` stands for, with the given id.
pub open spec fn spec_token_of(c: char, id: usize) -> Token {
    if '0' <= c <= '9' {
        Token::Number(Number::spec_new(id))
    } else if ('a' <= c <= 'z') || ('A' <= c <= 'Z') {
        Token::Letter(Letter::spec_new(id))
    } else if c == ',' {
        Token::Comma(Comma::spec_new(id))
    } else if c == '/' {
        Token::Slash(Slash::spec_new(id))
    } else if c == '*' {
        Token::Asterisk(Asterisk::spec_new(id))
    } else {
        Token::Hyphen(Hyphen::spec_new(id))
    }
}

/// The id of a token.
pub open spec fn spec_token_id(t: Token) -> usize {
    match t {
        Token::Start(s) => s.spec_id(),
        Token::Number(n) => n.spec_id(),
        Token::Letter(l) => l.spec_id(),
        Token::Comma(c) => c.spec_id(),
        Token::Hyphen(h) => h.spec_id(),
        Token::Asterisk(a) => a.spec_id(),
        Token::Slash(s) => s.spec_id(),
        Token::End => usize::MAX,
    }
}

impl Token {
    /// Whether `next` may follow this token.
    pub fn is_next_valid(&self, next: &Self) -> (r: bool)
        ensures
            r == spec_follows(*self, *next),
    {
        match self {
            Token::Start(_) => Start::is_next_valid(next),
            Token::Number(_) => Number::is_next_valid(next),
            Token::Letter(_) => Letter::is_next_valid(next),
            Token::Comma(_) => Comma::is_next_valid(next),
            Token::Hyphen(_) => Hyphen::is_next_valid(next),
            Token::Asterisk(_) => Asterisk::is_next_valid(next),
            Token::Slash(_) => Slash::is_next_valid(next),
            Token::End => false,
        }
    }

    /// The id of this token (`usize::MAX` for the end token).
    pub fn id(&self) -> (r: usize)
        ensures
            r == spec_token_id(*self),
    {
        match self {
            Token::Start(s) => s.id(),
            Token::Number(n) => n.id(),
            Token::Letter(l) => l.id(),
            Token::Comma(c) => c.id(),
            Token::Hyphen(h) => h.id(),
            Token::Asterisk(a) => a.id(),
            Token::Slash(s) => s.id(),
            Token::End => usize::MAX,
        }
    }

    /// The token that `c` stands for, with id `id`; an `InvalidToken`
    /// error when `c` stands for no token.
    pub fn try_from(c: char, id: usize) -> (r: Result<Self, ParseError>)
        ensures
            spec_is_token_char(c) ==> r == Ok::<Token, ParseError>(spec_token_of(c, id)),
            !spec_is_token_char(c) ==> r == Err::<Token, ParseError>(ParseError::InvalidToken),
    {
        if '0' <= c && c <= '9' {
            Ok(Token::Number(Number::new(id)))
        } else if ('a' <= c && c <= 'z') || ('A' <= c && c <= 'Z') {
            Ok(Token::Letter(Letter::new(id)))
        } else if c == ',' {
            Ok(Token::Comma(Comma::new(id)))
        } else if c == '/' {
            Ok(Token::Slash(Slash::new(id)))
        } else if c == '*' {
            Ok(Token::Asterisk(Asterisk::new(id)))
        } else if c == '-' {
            Ok(Token::Hyphen(Hyphen::new(id)))
        } else {
            Err(ParseError::InvalidToken)
        }
    }
}

/// The token before position `i` of `cs` while tokenizing it: the start
/// token for the first char, else the token of the char before.
pub open spec fn spec_prev_token(cs: Seq<char>, i: int) -> Token {
    if i == 0 {
        Token::Start(Start::spec_new(0))
    } else {
        spec_token_of(cs[i - 1], i as usize)
    }
}

/// Whether the char at position `i` of `cs` is accepted where it stands.
pub open spec fn spec_char_accepted(cs: Seq<char>, i: int) -> bool {
    spec_is_token_char(cs[i]) && spec_follows(spec_prev_token(cs, i), spec_token_of(cs[i], (i + 1) as usize))
}

/// Whether every char of `cs` is accepted where it stands.
pub open spec fn spec_all_accepted(cs: Seq<char>) -> bool {
    forall|i: int| 0 <= i < cs.len() ==> spec_char_accepted(cs, i)
}

/// The result of tokenizing `cs`: `Ok` when every char is accepted and the
/// last token may be followed by the end; `InvalidToken` when some char is
/// not accepted; `BadEnd` when all are but the stream may not end there.
pub open spec fn spec_tokenize_result(cs: Seq<char>) -> Result<(), ParseError> {
    if !spec_all_accepted(cs) {
        Err(ParseError::InvalidToken)
    } else if !spec_follows(spec_prev_token(cs, cs.len() as int), Token::End) {
        Err(ParseError::BadEnd)
    } else {
        Ok(())
    }
}

/// Whether `cs` is a non-empty run of decimal digits.
pub open spec fn spec_digits(cs: Seq<char>) -> bool {
    cs.len() > 0 && forall|i: int| 0 <= i < cs.len() ==> '0' <= #[trigger] cs[i] <= '9'
}

/// Whether `cs` is a non-empty run of ASCII letters.
pub open spec fn spec_letters(cs: Seq<char>) -> bool {
    cs.len() > 0 && forall|i: int| 0 <= i < cs.len() ==> ('a' <= #[trigger] cs[i] <= 'z') || ('A' <= cs[i] <= 'Z')
}

/// The chars of `cs` from `a` up to `b` are all digits, or all letters,
/// and each is accepted where it stands when the token before `a` may be
/// followed by such a token.
proof fn lemma_run_accepted(cs: Seq<char>, a: int, b: int, digits: bool)
    requires
        0 <= a <= b <= cs.len(),
        forall|k: int|
            a <= k < b ==> if digits {
                '0' <= #[trigger] cs[k] <= '9'
            } else {
                ('a' <= cs[k] <= 'z') || ('A' <= cs[k] <= 'Z')
            },
        a < b ==> spec_follows(spec_prev_token(cs, a), spec_token_of(cs[a], (a + 1) as usize)),
    ensures
        forall|k: int| a <= k < b ==> spec_char_accepted(cs, k),
        b > a ==> spec_prev_token(cs, b) is Number || spec_prev_token(cs, b) is Letter,
        b > a && digits ==> spec_prev_token(cs, b) is Number,
        b > a && !digits ==> spec_prev_token(cs, b) is Letter,
{
    assert forall|k: int| a <= k < b implies spec_char_accepted(cs, k) by {
        if k > a {
            assert(cs[k - 1] == cs[k - 1]);
        }
    }
    if b > a {
        assert(cs[b - 1] == cs[b - 1]);
    }
}

/// The shapes of a cron field that tokenize: a number (`5`), a name
/// (`MON`), every value (`*`), a step (`*/15`: an asterisk, a slash and a
/// number), a range of numbers or names (`1-5`, `MON-FRI`) and a list
/// (`1,5`). A slash must be followed by a number and by nothing else: `*/`
/// ends badly, and `*/` followed by any other char is refused.
pub proof fn law_field_shapes_tokenize(d: Seq<char>, e: Seq<char>, l: Seq<char>, m: Seq<char>, c: char)
    requires
        spec_digits(d),
        spec_digits(e),
        spec_letters(l),
        spec_letters(m),
    ensures
        spec_tokenize_result(d) is Ok,
        spec_tokenize_result(l) is Ok,
        spec_tokenize_result(seq!['*']) is Ok,
        spec_tokenize_result(seq!['*', '/'] + d) is Ok,
        spec_tokenize_result(d + seq!['-'] + e) is Ok,
        spec_tokenize_result(l + seq!['-'] + m) is Ok,
        spec_tokenize_result(d + seq![','] + e) is Ok,
        spec_tokenize_result(seq!['*', '/']) == Err::<(), ParseError>(ParseError::BadEnd),
        !('0' <= c <= '9') ==> spec_tokenize_result(seq!['*', '/', c]) == Err::<(), ParseError>(
            ParseError::InvalidToken,
        ),
{
    lemma_run_accepted(d, 0, d.len() as int, true);
    lemma_run_accepted(l, 0, l.len() as int, false);
    let star = seq!['*'];
    assert(spec_char_accepted(star, 0));
    assert(spec_all_accepted(star));

    let step = seq!['*', '/'] + d;
    assert(step[0] == '*' && step[1] == '/');
    assert(spec_char_accepted(step, 0));
    assert(spec_char_accepted(step, 1));
    lemma_run_accepted(step, 2, step.len() as int, true);
    assert(spec_all_accepted(step));

    let range = d + seq!['-'] + e;
    lemma_run_accepted(range, 0, d.len() as int, true);
    assert(range[d.len() as int] == '-');
    assert(spec_char_accepted(range, d.len() as int));
    lemma_run_accepted(range, d.len() + 1int, range.len() as int, true);
    assert(spec_all_accepted(range));

    let names = l + seq!['-'] + m;
    lemma_run_accepted(names, 0, l.len() as int, false);
    assert(names[l.len() as int] == '-');
    assert(spec_char_accepted(names, l.len() as int));
    lemma_run_accepted(names, l.len() + 1int, names.len() as int, false);
    assert(spec_all_accepted(names));

    let list = d + seq![','] + e;
    lemma_run_accepted(list, 0, d.len() as int, true);
    assert(list[d.len() as int] == ',');
    assert(spec_char_accepted(list, d.len() as int));
    lemma_run_accepted(list, d.len() + 1int, list.len() as int, true);
    assert(spec_all_accepted(list));

    let slash_end = seq!['*', '/'];
    assert(spec_char_accepted(slash_end, 0));
    assert(spec_char_accepted(slash_end, 1));
    assert(spec_all_accepted(slash_end));

    let bad = seq!['*', '/', c];
    if !('0' <= c <= '9') {
        assert(!spec_char_accepted(bad, 2));
    }
}

/// The tokens of the field `cs`: the start token, one token per char (the
/// char at position `i` gets id `i + 1`), and the end token.
pub open spec fn spec_tokens(cs: Seq<char>) -> Seq<Token> {
    seq![Token::Start(Start::spec_new(0))] + Seq::new(cs.len(), |i: int| spec_token_of(cs[i], (i + 1) as usize))
        + seq![Token::End]
}

/// The tokens of a field and the char and position that each id stands for.
pub struct TokenStream {
    tokens: Vec<Token>,
    table: HashMap<usize, Entry>,
}

impl TokenStream {
    /// The tokens, in order.
    pub closed spec fn spec_tokens(&self) -> Seq<Token> {
        self.tokens@
    }

    /// The table from a token id to the char it was read from.
    pub closed spec fn spec_table(&self) -> Map<usize, Entry> {
        self.table@
    }

    /// The text that the stream spells: the chars of its tokens, in order,
    /// skipping tokens that have no entry in the table.
    pub open spec fn spec_text(&self) -> Seq<char> {
        spell(self.spec_tokens(), self.spec_table())
    }

    /// A stream that holds the start token alone.
    fn new() -> (r: Self)
        ensures
            r.spec_tokens() == seq![Token::Start(Start::spec_new(0))],
            r.spec_table() == Map::<usize, Entry>::empty(),
    {
        let mut tokens: Vec<Token> = Vec::new();
        tokens.push(Token::Start(Start::new(0)));
        TokenStream { tokens, table: HashMap::new() }
    }

    /// Whether `token` may follow the last token of the stream.
    fn is_valid(&self, token: &Token) -> (r: bool)
        requires
            self.spec_tokens().len() > 0,
        ensures
            r == spec_follows(self.spec_tokens().last(), *token),
    {
        let last = &self.tokens[self.tokens.len() - 1];
        last.is_next_valid(token)
    }

    /// Tokenizes the field `s`.
    ///
    /// Fails with `InvalidToken` at the first char that stands for no token
    /// or may not follow the token before it, and with `BadEnd` when the last
    /// token may not end a field.
    pub fn tokenize(s: &str) -> (r: Result<Self, ParseError>)
        ensures
            r.is_ok() <==> spec_tokenize_result(s@) is Ok,
            r.is_err() ==> r == Err::<Self, ParseError>(spec_tokenize_result(s@)->Err_0),
            r matches Ok(stream) ==> {
                &&& stream.spec_tokens() == spec_tokens(s@)
                &&& stream.spec_table() == spec_table_of(s@, s@.len() as int)
                &&& s@.len() < usize::MAX ==> stream.spec_text() == s@
            },
    {
        let cs = chars_of(s);
        let mut stream = Self::new();
        let mut pos: usize = 0;
        while pos < cs.len()
            invariant
                cs@ == s@,
                pos <= cs@.len(),
                forall|i: int| 0 <= i < pos ==> spec_char_accepted(cs@, i),
                stream.spec_tokens() == spec_prefix_tokens(cs@, pos as int),
                stream.spec_table() == spec_table_of(cs@, pos as int),
            decreases cs@.len() - pos,
        {
            let c = cs[pos];
            let id = pos + 1;
            let token = match Token::try_from(c, id) {
                Ok(t) => t,
                Err(e) => {
                    assert(!spec_char_accepted(cs@, pos as int));
                    return Err(e);
                },
            };
            assert(stream.spec_tokens().last() == spec_prev_token(cs@, pos as int));
            if stream.is_valid(&token) {
                let tid = token.id();
                let already_exists = stream.table.insert(tid, Entry::new(c, pos)).is_some();
                if already_exists {
                    assert(false);
                }
                stream.tokens.push(token);
                proof {
                    assert(stream.spec_table() =~= spec_table_of(cs@, pos + 1));
                    assert(stream.spec_tokens() =~= spec_prefix_tokens(cs@, pos + 1));
                }
            } else {
                assert(!spec_char_accepted(cs@, pos as int));
                return Err(ParseError::InvalidToken);
            }
            pos = pos + 1;
        }
        assert(stream.spec_tokens().last() == spec_prev_token(cs@, pos as int));
        let final_token = Token::End;
        if stream.is_valid(&final_token) {
            stream.tokens.push(final_token);
            proof {
                assert(stream.spec_tokens() =~= spec_tokens(s@));
                if s@.len() < usize::MAX {
                    lemma_spell_tokens(s@);
                }
            }
            Ok(stream)
        } else {
            Err(ParseError::BadEnd)
        }
    }

    /// The text of the stream: the char of each token that has an entry in
    /// the table, in token order.
    pub fn to_string(&self) -> (r: String)
        ensures
            r@ == self.spec_text(),
    {
        let mut ret = String::new();
        let mut i: usize = 0;
        while i < self.tokens.len()
            invariant
                i <= self.tokens@.len(),
                ret@ == spell(self.tokens@.take(i as int), self.table@),
            decreases self.tokens@.len() - i,
        {
            let token = &self.tokens[i];
            let entry = self.table.get(&token.id());
            proof {
                assert(self.tokens@.take(i + 1).drop_last() =~= self.tokens@.take(i as int));
            }
            if let Some(entry) = entry {
                push_char(&mut ret, entry._value());
            }
            i = i + 1;
        }
        assert(self.tokens@.take(self.tokens@.len() as int) =~= self.tokens@);
        ret
    }
}

/// The chars that `tokens` spell under `table`: for each token with an
/// entry, that entry's char.
pub open spec fn spell(tokens: Seq<Token>, table: Map<usize, Entry>) -> Seq<char>
    decreases tokens.len(),
{
    if tokens.len() == 0 {
        Seq::empty()
    } else {
        let rest = spell(tokens.drop_last(), table);
        let id = spec_token_id(tokens.last());
        if table.contains_key(id) {
            rest.push(table[id].spec_value())
        } else {
            rest
        }
    }
}

/// The table of the first `n` chars of `cs`: id `i + 1` maps to the char
/// at position `i`.
pub open spec fn spec_table_of(cs: Seq<char>, n: int) -> Map<usize, Entry> {
    Map::new(|id: usize| 1 <= id <= n, |id: usize| Entry::spec_new(cs[id - 1], (id - 1) as usize))
}

/// The start token followed by the tokens of the first `k` chars of `cs`.
pub open spec fn spec_prefix_tokens(cs: Seq<char>, k: int) -> Seq<Token> {
    seq![Token::Start(Start::spec_new(0))] + Seq::new(k as nat, |i: int| spec_token_of(cs[i], (i + 1) as usize))
}

proof fn lemma_spell_prefix(cs: Seq<char>, k: int)
    requires
        0 <= k <= cs.len(),
        cs.len() < usize::MAX,
    ensures
        spell(spec_prefix_tokens(cs, k), spec_table_of(cs, cs.len() as int)) == cs.take(k),
    decreases k,
{
    let t = spec_table_of(cs, cs.len() as int);
    let p = spec_prefix_tokens(cs, k);
    if k == 0 {
        assert(p.drop_last() =~= Seq::<Token>::empty());
        assert(spell(p.drop_last(), t) =~= Seq::<char>::empty());
        assert(!t.contains_key(0usize));
        assert(cs.take(0) =~= Seq::<char>::empty());
    } else {
        lemma_spell_prefix(cs, k - 1);
        assert(p.drop_last() =~= spec_prefix_tokens(cs, k - 1));
        assert(p.last() == spec_token_of(cs[k - 1], k as usize));
        assert(spec_token_id(spec_token_of(cs[k - 1], k as usize)) == k as usize);
        assert(t.contains_key(k as usize));
        assert(cs.take(k) =~= cs.take(k - 1).push(cs[k - 1]));
    }
}

/// The stream made from `cs` spells `cs` back.
pub proof fn lemma_spell_tokens(cs: Seq<char>)
    requires
        cs.len() < usize::MAX,
    ensures
        spell(spec_tokens(cs), spec_table_of(cs, cs.len() as int)) == cs,
{
    let t = spec_table_of(cs, cs.len() as int);
    lemma_spell_prefix(cs, cs.len() as int);
    assert(spec_tokens(cs).drop_last() =~= spec_prefix_tokens(cs, cs.len() as int));
    assert(!t.contains_key(usize::MAX));
    assert(cs.take(cs.len() as int) =~= cs);
}

/// Appends `c` to `s`.
#[verifier::external_body]
pub(crate) fn push_char(s: &mut String, c: char)
    ensures
        final(s)@ == old(s)@.push(c),
{
    s.push(c)
}

/// Returns the chars of `s`, in order.
pub fn chars_of(s: &str) -> (r: Vec<char>)
    ensures
        r@ == s@,
{
    let mut out: Vec<char> = Vec::new();
    for c in it: s.chars()
        invariant
            out@ == it.seq().take(it.index() as int),
    {
        out.push(c);
    }
    out
}

} // verus!
