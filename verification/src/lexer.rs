//! The lexer: turns source text into the flat token sequence, tracking
//! the position of every token.

use vstd::prelude::*;
use vstd::string::StringExecFns;

pub mod error;
pub mod tracking;

pub use tracking::Position;

use tracking::{spec_advance, spec_advance_seq, spec_start_of, Cursor};

verus! {

/// Whether a character counts as whitespace between tokens.
pub uninterp spec fn spec_is_whitespace(c: char) -> bool;

/// Relies on char::is_whitespace: whether the character has the Unicode
/// whitespace property; the result depends on the character alone, and
/// the documentation names space, tab, newline and carriage return as
/// whitespace.
pub assume_specification[ char::is_whitespace ](c: char) -> (r: bool)
    ensures
        r == spec_is_whitespace(c),
        c == ' ' || c == '\t' || c == '\n' || c == '\r' ==> r,
        ('!' <= c && c <= '~') ==> !r,
;

/// Relies on String::push: appends the given character to the end of the
/// string.
pub assume_specification[ std::string::String::push ](s: &mut std::string::String, c: char)
    ensures
        final(s)@ == old(s)@.push(c),
;

/// One lexed token, carrying the position of its first character.
#[derive(Debug, PartialEq, Eq)]
pub enum Symbol {
    /// The quote shorthand `'`.
    Quote(Position),
    /// The left parenthesis `(`.
    LParen(Position),
    /// The right parenthesis `)`.
    RParen(Position),
    /// A bound name.
    Name(Position, String),
    /// A literal.
    Primitive(Position, Literal),
}

/// A literal token.
#[derive(Debug, PartialEq, Eq)]
pub enum Literal {
    /// An optionally signed decimal integer.
    Number(i64),
    /// `#t` or `#f`.
    Boolean(bool),
    /// A double-quoted string with backslash escaping.
    String(String),
    /// Reserved for literals the language does not carry yet.
    Nil,
}

/// Ghost mirror of `Literal`.
pub enum LiteralModel {
    Number(int),
    Boolean(bool),
    String(Seq<char>),
    Nil,
}

/// Ghost mirror of `Symbol`.
pub enum SymbolModel {
    Quote(Position),
    LParen(Position),
    RParen(Position),
    Name(Position, Seq<char>),
    Primitive(Position, LiteralModel),
}

impl View for Literal {
    type V = LiteralModel;

    open spec fn view(&self) -> LiteralModel {
        match self {
            Literal::Number(n) => LiteralModel::Number(*n as int),
            Literal::Boolean(b) => LiteralModel::Boolean(*b),
            Literal::String(s) => LiteralModel::String(s@),
            Literal::Nil => LiteralModel::Nil,
        }
    }
}

impl View for Symbol {
    type V = SymbolModel;

    open spec fn view(&self) -> SymbolModel {
        match self {
            Symbol::Quote(p) => SymbolModel::Quote(*p),
            Symbol::LParen(p) => SymbolModel::LParen(*p),
            Symbol::RParen(p) => SymbolModel::RParen(*p),
            Symbol::Name(p, n) => SymbolModel::Name(*p, n@),
            Symbol::Primitive(p, l) => SymbolModel::Primitive(*p, l@),
        }
    }
}

/// The sequence of models of a sequence of tokens.
pub open spec fn symbols_view(s: Seq<Symbol>) -> Seq<SymbolModel> {
    Seq::new(s.len(), |i: int| s[i]@)
}

/// The position a token model carries.
pub open spec fn spec_symbol_position(s: SymbolModel) -> Position {
    match s {
        SymbolModel::Quote(p) => p,
        SymbolModel::LParen(p) => p,
        SymbolModel::RParen(p) => p,
        SymbolModel::Name(p, _) => p,
        SymbolModel::Primitive(p, _) => p,
    }
}

impl Symbol {
    /// The position of the token's first character.
    pub fn position(&self) -> (r: Position)
        ensures
            r == spec_symbol_position(self@),
    {
        match self {
            Symbol::Quote(p) => *p,
            Symbol::LParen(p) => *p,
            Symbol::RParen(p) => *p,
            Symbol::Name(p, _) => *p,
            Symbol::Primitive(p, _) => *p,
        }
    }
}

/// Whether a character is a decimal digit.
pub open spec fn spec_is_digit(c: char) -> bool {
    48 <= c as u32 <= 57
}

/// The value of a decimal digit.
pub open spec fn spec_digit_val(c: char) -> int {
    c as u32 - 48
}

/// The value of a run of decimal digits.
pub open spec fn spec_digits_val(s: Seq<char>) -> int
    decreases s.len(),
{
    if s.len() == 0 {
        0
    } else {
        spec_digits_val(s.drop_last()) * 10 + spec_digit_val(s.last())
    }
}

/// The first position at or after `i` that does not hold a digit.
pub open spec fn spec_digits_end(chars: Seq<char>, i: int) -> int
    decreases chars.len() - i,
{
    if 0 <= i < chars.len() && spec_is_digit(chars[i]) {
        spec_digits_end(chars, i + 1)
    } else {
        i
    }
}

/// The digit run starting at `i` ends inside the text, after at least
/// the digit that starts it, and every character of it is a digit.
pub proof fn lemma_digits_end_bounds(chars: Seq<char>, i: int)
    requires
        0 <= i <= chars.len(),
    ensures
        i <= spec_digits_end(chars, i) <= chars.len(),
        i < chars.len() && spec_is_digit(chars[i]) ==> spec_digits_end(chars, i) >= i + 1,
        forall|j: int| i <= j < spec_digits_end(chars, i) ==> spec_is_digit(#[trigger] chars[j]),
        spec_digits_end(chars, i) == chars.len() || !spec_is_digit(
            chars[spec_digits_end(chars, i)],
        ),
    decreases chars.len() - i,
{
    if i < chars.len() && spec_is_digit(chars[i]) {
        lemma_digits_end_bounds(chars, i + 1);
    }
}

/// A run of digits is worth no less than any of its prefixes.
pub proof fn lemma_digits_val_monotone(s: Seq<char>, k: int)
    requires
        0 <= k <= s.len(),
        forall|j: int| 0 <= j < s.len() ==> spec_is_digit(#[trigger] s[j]),
    ensures
        0 <= spec_digits_val(s.subrange(0, k)) <= spec_digits_val(s),
    decreases s.len(),
{
    if s.len() == 0 {
        assert(s.subrange(0, k) =~= s);
    } else if k == s.len() {
        assert(s.subrange(0, k) =~= s);
        lemma_digits_val_monotone(s.drop_last(), s.len() - 1);
        assert(s.drop_last().subrange(0, s.len() - 1) =~= s.drop_last());
    } else {
        lemma_digits_val_monotone(s.drop_last(), k);
        assert(s.drop_last().subrange(0, k) =~= s.subrange(0, k));
        assert(spec_digits_val(s.drop_last()) * 10 + spec_digit_val(s.last()) >= spec_digits_val(
            s.drop_last(),
        ));
    }
}

/// Consuming an empty run leaves the position alone.
pub proof fn lemma_advance_seq_zero(p: Position, chars: Seq<char>, i: int)
    requires
        0 <= i <= chars.len(),
    ensures
        spec_advance_seq(p, chars.subrange(i, i)) == p,
{
    assert(chars.subrange(i, i).len() == 0);
}

/// Consuming one more character advances the position once more.
pub proof fn lemma_advance_seq_snoc(p: Position, chars: Seq<char>, i: int, k: int)
    requires
        0 <= i <= k < chars.len(),
    ensures
        spec_advance_seq(p, chars.subrange(i, k + 1)) == spec_advance(
            spec_advance_seq(p, chars.subrange(i, k)),
            chars[k],
        ),
{
    assert(chars.subrange(i, k + 1).drop_last() =~= chars.subrange(i, k));
    assert(chars.subrange(i, k + 1).last() == chars[k]);
}

/// The scan of a string literal's inside: from position `i`, with the
/// characters unescaped so far, to the unescaped content and the position
/// after the closing quote — or nothing when the text ends first.
pub open spec fn sp_string_scan(chars: Seq<char>, i: int, acc: Seq<char>) -> Option<
    (Seq<char>, int),
>
    decreases chars.len() - i,
{
    if i < 0 || i >= chars.len() {
        None
    } else if chars[i] == '\\' {
        if i + 1 >= chars.len() {
            None
        } else if i + 2 >= chars.len() {
            None
        } else if chars[i + 2] == '"' {
            Some((acc.push(chars[i + 1]), i + 3))
        } else {
            sp_string_scan(chars, i + 3, acc.push(chars[i + 1]).push(chars[i + 2]))
        }
    } else if chars[i] == '"' {
        Some((acc, i + 1))
    } else {
        sp_string_scan(chars, i + 1, acc.push(chars[i]))
    }
}

/// A successful string scan ends past its start and inside the text.
pub proof fn lemma_string_scan_bounds(chars: Seq<char>, i: int, acc: Seq<char>)
    requires
        0 <= i,
    ensures
        sp_string_scan(chars, i, acc) matches Some(p) ==> i < p.1 <= chars.len(),
    decreases chars.len() - i,
{
    if 0 <= i < chars.len() {
        if chars[i] == '\\' {
            if i + 2 < chars.len() && chars[i + 2] != '"' {
                lemma_string_scan_bounds(chars, i + 3, acc.push(chars[i + 1]).push(chars[i + 2]));
            }
        } else if chars[i] != '"' {
            lemma_string_scan_bounds(chars, i + 1, acc.push(chars[i]));
        }
    }
}

/// Collects a boolean literal `#t` or `#f`.
fn collect_bool(seq: &mut Cursor) -> (r: Result<Symbol, error::LexerError>)
    requires
        old(seq).wf(),
        old(seq).spec_index() < old(seq).spec_chars().len(),
        old(seq).spec_chars()[old(seq).spec_index()] == '#',
    ensures
        final(seq).wf(),
        final(seq).spec_chars() == old(seq).spec_chars(),
        ({
            let chars = old(seq).spec_chars();
            let i = old(seq).spec_index();
            if i + 1 < chars.len() && (chars[i + 1] == 't' || chars[i + 1] == 'f') {
                (r matches Ok(sym) && sym@ == SymbolModel::Primitive(
                    old(seq).spec_pos(),
                    LiteralModel::Boolean(chars[i + 1] == 't'),
                )) && final(seq).spec_index() == i + 2 && final(seq).spec_pos()
                    == spec_advance_seq(old(seq).spec_pos(), chars.subrange(i, i + 2))
            } else {
                r is Err
            }
        }),
{
    let ghost chars = old(seq).spec_chars();
    let ghost i = old(seq).spec_index();
    let startpos = seq.pos();
    let ghost pos0 = old(seq).spec_pos();
    seq.next();
    let second = seq.next();
    proof {
        if i + 1 < chars.len() {
            lemma_advance_seq_zero(pos0, chars, i);
            lemma_advance_seq_snoc(pos0, chars, i, i);
            lemma_advance_seq_snoc(pos0, chars, i, i + 1);
        }
    }
    match second {
        Some(c) => {
            if c == 't' {
                Ok(Symbol::Primitive(startpos, Literal::Boolean(true)))
            } else if c == 'f' {
                Ok(Symbol::Primitive(startpos, Literal::Boolean(false)))
            } else {
                let mut message = String::from_str("Expected #t or #f, found #");
                message.push(c);
                Err(error::LexerError::new(startpos, message.as_str()))
            }
        }
        None => Err(error::LexerError::new(startpos, "Expected #t or #f, found EOF")),
    }
}

/// Collects a string literal, unescaping backslash pairs, as
/// `sp_string_scan` describes.
#[verifier::loop_isolation(false)]
fn collect_string(seq: &mut Cursor) -> (r: Result<Symbol, error::LexerError>)
    requires
        old(seq).wf(),
        old(seq).spec_index() < old(seq).spec_chars().len(),
        old(seq).spec_chars()[old(seq).spec_index()] == '"',
    ensures
        final(seq).wf(),
        final(seq).spec_chars() == old(seq).spec_chars(),
        ({
            let chars = old(seq).spec_chars();
            let i = old(seq).spec_index();
            match sp_string_scan(chars, i + 1, Seq::empty()) {
                Some(p) => (r matches Ok(sym) && sym@ == SymbolModel::Primitive(
                    old(seq).spec_pos(),
                    LiteralModel::String(p.0),
                )) && final(seq).spec_index() == p.1 && final(seq).spec_pos() == spec_advance_seq(
                    old(seq).spec_pos(),
                    chars.subrange(i, p.1),
                ),
                None => r is Err,
            }
        }),
{
    let ghost chars = old(seq).spec_chars();
    let ghost i0 = old(seq).spec_index();
    let ghost scan0 = sp_string_scan(chars, i0 + 1, Seq::empty());
    let ghost pos0 = old(seq).spec_pos();
    let startpos = seq.pos();
    let mut buffer = String::new();
    seq.next();
    proof {
        lemma_advance_seq_zero(pos0, chars, i0);
        lemma_advance_seq_snoc(pos0, chars, i0, i0);
    }
    loop
        invariant
            seq.wf(),
            seq.spec_chars() == chars,
            i0 < seq.spec_index() <= chars.len(),
            scan0 == sp_string_scan(chars, seq.spec_index(), buffer@),
            seq.spec_pos() == spec_advance_seq(pos0, chars.subrange(i0, seq.spec_index())),
        decreases chars.len() - seq.spec_index(),
    {
        let ghost i = seq.spec_index();
        let is_escape = match seq.peek() {
            Some(x) => x == '\\',
            None => {
                return Err(error::LexerError::new(seq.pos(), "Expected \", found EOF"));
            }
        };
        if is_escape {
            seq.next();
            proof {
                lemma_advance_seq_snoc(pos0, chars, i0, i);
            }
            match seq.next() {
                Some(x) => {
                    buffer.push(x);
                    proof {
                        lemma_advance_seq_snoc(pos0, chars, i0, i + 1);
                    }
                }
                None => {
                    return Err(
                        error::LexerError::new(seq.pos(), "Expected character, found EOF"),
                    );
                }
            }
        }
        let ghost j = seq.spec_index();
        match seq.next() {
            Some(c) => {
                proof {
                    lemma_advance_seq_snoc(pos0, chars, i0, j);
                }
                if c == '"' {
                    proof {
                        assert(scan0 matches Some(p) && p.0 == buffer@ && p.1
                            == seq.spec_index());
                    }
                    return Ok(Symbol::Primitive(startpos, Literal::String(buffer)));
                }
                buffer.push(c);
            }
            None => {
                return Err(
                    error::LexerError::new(seq.pos(), "No ending double quote for string!"),
                );
            }
        }
    }
}

/// Whether the cursor stands on a decimal digit.
fn digit_peek(seq: &Cursor) -> (r: bool)
    requires
        seq.wf(),
    ensures
        r == (seq.spec_index() < seq.spec_chars().len() && spec_is_digit(
            seq.spec_chars()[seq.spec_index()],
        )),
{
    match seq.peek() {
        Some(c) => {
            let u = c as u32;
            48 <= u && u <= 57
        }
        None => false,
    }
}

/// Collects an optionally signed decimal number: the digits at the
/// cursor, negated when the pending buffer holds the minus sign. A
/// number outside the numeric range is a fault.
#[verifier::loop_isolation(false)]
fn collect_number(seq: &mut Cursor, prev: &mut String) -> (r: Result<Symbol, error::LexerError>)
    requires
        old(seq).wf(),
        old(seq).spec_index() < old(seq).spec_chars().len(),
        spec_is_digit(old(seq).spec_chars()[old(seq).spec_index()]),
        old(prev)@ == Seq::<char>::empty() || old(prev)@ == seq!['-'],
    ensures
        final(seq).wf(),
        final(seq).spec_chars() == old(seq).spec_chars(),
        final(prev)@ == Seq::<char>::empty(),
        ({
            let chars = old(seq).spec_chars();
            let i = old(seq).spec_index();
            let end = spec_digits_end(chars, i);
            let digits = chars.subrange(i, end);
            let value = if old(prev)@.len() == 1 {
                -spec_digits_val(digits)
            } else {
                spec_digits_val(digits)
            };
            if i64::MIN <= value <= i64::MAX {
                (r matches Ok(sym) && sym@ == SymbolModel::Primitive(
                    spec_start_of(old(seq).spec_pos(), old(prev)@.len() as int),
                    LiteralModel::Number(value),
                )) && final(seq).spec_index() == end && final(seq).spec_pos()
                    == spec_advance_seq(old(seq).spec_pos(), digits)
            } else {
                r is Err
            }
        }),
{
    let ghost chars = old(seq).spec_chars();
    let ghost i0 = old(seq).spec_index();
    let ghost pos0 = old(seq).spec_pos();
    let ghost end = spec_digits_end(chars, i0);
    let ghost digits = chars.subrange(i0, end);
    proof {
        lemma_digits_end_bounds(chars, i0);
        lemma_advance_seq_zero(pos0, chars, i0);
        reveal_strlit("-");
        assert(digits.subrange(0, 0).len() == 0);
        assert forall|j: int| 0 <= j < digits.len() implies spec_is_digit(
            #[trigger] digits[j],
        ) by {
            assert(digits[j] == chars[i0 + j]);
        }
    }
    let negative = *prev == String::from_str("-");
    proof {
        reveal_strlit("-");
        assert(negative == (old(prev)@ == "-"@));
        assert("-"@ == seq!['-']);
        assert(!negative ==> old(prev)@.len() == 0);
    }
    let startpos = seq.pos().start_of(prev.as_str());
    let mut cleared = String::new();
    core::mem::swap(prev, &mut cleared);
    let mut acc: i64 = 0;
    while digit_peek(seq)
        invariant
            seq.wf(),
            seq.spec_chars() == chars,
            i0 <= seq.spec_index() <= end,
            acc as int == (if negative {
                -spec_digits_val(chars.subrange(i0, seq.spec_index()))
            } else {
                spec_digits_val(chars.subrange(i0, seq.spec_index()))
            }),
            seq.spec_pos() == spec_advance_seq(pos0, chars.subrange(i0, seq.spec_index())),
        decreases chars.len() - seq.spec_index(),
    {
        let ghost idx = seq.spec_index();
        proof {
            if idx >= end {
                assert(spec_is_digit(chars[idx]));
                assert(false);
            }
            lemma_advance_seq_snoc(pos0, chars, i0, idx);
            assert(chars.subrange(i0, idx + 1).drop_last() =~= chars.subrange(i0, idx));
            assert(chars.subrange(i0, idx + 1).last() == chars[idx]);
        }
        let c = match seq.next() {
            Some(c) => c,
            None => {
                return Err(error::LexerError::new(startpos, "Expected a digit"));
            }
        };
        let d = ((c as u32) - 48) as i64;
        let ghost prefix_next = chars.subrange(i0, idx + 1);
        proof {
            assert(prefix_next =~= digits.subrange(0, idx + 1 - i0));
            lemma_digits_val_monotone(digits, idx + 1 - i0);
            assert(chars.subrange(i0, idx) =~= digits.subrange(0, idx - i0));
            lemma_digits_val_monotone(digits, idx - i0);
            reveal_strlit("-");
            if negative {
                assert(old(prev)@ == seq!['-']);
            } else {
                assert(old(prev)@.len() == 0);
            }
        }
        let stepped = match acc.checked_mul(10) {
            Some(a) => if negative {
                a.checked_sub(d)
            } else {
                a.checked_add(d)
            },
            None => None,
        };
        acc = match stepped {
            Some(a) => a,
            None => {
                proof {
                    assert(spec_digits_val(prefix_next) == spec_digits_val(
                        chars.subrange(i0, idx),
                    ) * 10 + spec_digit_val(chars[idx]));
                }
                return Err(
                    error::LexerError::new(startpos, "The number leaves the numeric range"),
                );
            }
        };
        proof {
            assert(spec_digits_val(prefix_next) == spec_digits_val(chars.subrange(i0, idx)) * 10
                + spec_digit_val(chars[idx]));
        }
    }
    proof {
        assert(seq.spec_index() == end);
        assert(chars.subrange(i0, seq.spec_index()) =~= digits);
        reveal_strlit("-");
        if negative {
            assert(old(prev)@ == seq!['-']);
            assert(old(prev)@.len() == 1);
        } else {
            assert(old(prev)@.len() == 0);
        }
    }
    Ok(Symbol::Primitive(startpos, Literal::Number(acc)))
}

/// Flushing the pending name buffer: a nonempty buffer becomes a `Name`
/// token that began where the buffered characters did.
pub open spec fn sp_flush(acc: Seq<SymbolModel>, buffer: Seq<char>, pos: Position) -> Seq<
    SymbolModel,
> {
    if buffer.len() == 0 {
        acc
    } else {
        acc.push(SymbolModel::Name(spec_start_of(pos, buffer.len() as int), buffer))
    }
}

/// The whole lexing relation: from a position in the text, the current
/// position tracking, the pending name buffer and the tokens already
/// produced, to the final token sequence — or nothing where the text is
/// malformed (an unfinished string or boolean, or a number outside the
/// numeric range).
pub open spec fn sp_lex(
    chars: Seq<char>,
    i: int,
    pos: Position,
    buffer: Seq<char>,
    acc: Seq<SymbolModel>,
) -> Option<Seq<SymbolModel>>
    decreases chars.len() - i,
    via sp_lex_dec
{
    if i < 0 || i >= chars.len() {
        Some(sp_flush(acc, buffer, pos))
    } else {
        let c = chars[i];
        if spec_is_whitespace(c) {
            sp_lex(chars, i + 1, spec_advance(pos, c), Seq::empty(), sp_flush(acc, buffer, pos))
        } else if c == '"' {
            match sp_string_scan(chars, i + 1, Seq::empty()) {
                Some(p) => {
                    let npos = spec_advance_seq(pos, chars.subrange(i, p.1));
                    sp_lex(
                        chars,
                        p.1,
                        npos,
                        Seq::empty(),
                        sp_flush(acc, buffer, npos).push(
                            SymbolModel::Primitive(pos, LiteralModel::String(p.0)),
                        ),
                    )
                }
                None => None,
            }
        } else if c == '#' && buffer.len() == 0 {
            if i + 1 < chars.len() && (chars[i + 1] == 't' || chars[i + 1] == 'f') {
                sp_lex(
                    chars,
                    i + 2,
                    spec_advance_seq(pos, chars.subrange(i, i + 2)),
                    Seq::empty(),
                    acc.push(SymbolModel::Primitive(pos, LiteralModel::Boolean(chars[i + 1] == 't'))),
                )
            } else {
                None
            }
        } else if spec_is_digit(c) && (buffer.len() == 0 || buffer == seq!['-']) {
            let end = spec_digits_end(chars, i);
            let digits = chars.subrange(i, end);
            let value = if buffer.len() == 1 {
                -spec_digits_val(digits)
            } else {
                spec_digits_val(digits)
            };
            if i64::MIN <= value <= i64::MAX {
                sp_lex(
                    chars,
                    end,
                    spec_advance_seq(pos, digits),
                    Seq::empty(),
                    acc.push(
                        SymbolModel::Primitive(
                            spec_start_of(pos, buffer.len() as int),
                            LiteralModel::Number(value),
                        ),
                    ),
                )
            } else {
                None
            }
        } else if c == '\'' {
            sp_lex(
                chars,
                i + 1,
                spec_advance(pos, c),
                Seq::empty(),
                sp_flush(acc, buffer, pos).push(SymbolModel::Quote(pos)),
            )
        } else if c == '(' {
            sp_lex(
                chars,
                i + 1,
                spec_advance(pos, c),
                Seq::empty(),
                sp_flush(acc, buffer, pos).push(SymbolModel::LParen(pos)),
            )
        } else if c == ')' {
            sp_lex(
                chars,
                i + 1,
                spec_advance(pos, c),
                Seq::empty(),
                sp_flush(acc, buffer, pos).push(SymbolModel::RParen(pos)),
            )
        } else {
            sp_lex(chars, i + 1, spec_advance(pos, c), buffer.push(c), acc)
        }
    }
}

#[via_fn]
proof fn sp_lex_dec(
    chars: Seq<char>,
    i: int,
    pos: Position,
    buffer: Seq<char>,
    acc: Seq<SymbolModel>,
) {
    if 0 <= i < chars.len() {
        lemma_string_scan_bounds(chars, i + 1, Seq::empty());
        lemma_digits_end_bounds(chars, i);
    }
}

/// Turns source text into its token sequence, as `sp_lex` describes.
#[verifier::loop_isolation(false)]
pub fn lex(input: &str) -> (r: Result<Vec<Symbol>, error::LexerError>)
    ensures
        match sp_lex(
            input@,
            0,
            Position { line: 1, character: 0 },
            Seq::empty(),
            Seq::empty(),
        ) {
            Some(syms) => r matches Ok(v) && symbols_view(v@) == syms,
            None => r is Err,
        },
{
    let ghost chars = input@;
    let n = input.unicode_len();
    let mut cs: Vec<char> = Vec::new();
    let mut k: usize = 0;
    while k < n
        invariant
            k <= n,
            n == chars.len(),
            cs@.len() == k,
            forall|j: int| 0 <= j < k ==> cs@[j] == chars[j],
        decreases n - k,
    {
        cs.push(input.get_char(k));
        k = k + 1;
    }
    proof {
        assert(cs@ =~= chars);
    }
    let mut cursor = Cursor::new(cs);
    let mut symbols: Vec<Symbol> = Vec::new();
    let mut buffer = String::new();
    let ghost target = sp_lex(
        chars,
        0,
        Position { line: 1, character: 0 },
        Seq::empty(),
        Seq::empty(),
    );
    proof {
        assert(symbols_view(symbols@) =~= Seq::<SymbolModel>::empty());
    }
    while cursor.peek().is_some()
        invariant
            cursor.wf(),
            cursor.spec_chars() == chars,
            target == sp_lex(
                chars,
                cursor.spec_index(),
                cursor.spec_pos(),
                buffer@,
                symbols_view(symbols@),
            ),
        decreases chars.len() - cursor.spec_index(),
    {
        let ghost i = cursor.spec_index();
        let ghost pos = cursor.spec_pos();
        let ghost acc0 = symbols_view(symbols@);
        let ghost buf0 = buffer@;
        let c = match cursor.peek() {
            Some(c) => c,
            None => {
                return Err(error::LexerError::new(cursor.pos(), "The text ended early"));
            }
        };
        proof {
            reveal_strlit("-");
            assert("-"@ == seq!['-']);
        }
        if c.is_whitespace() {
            if buffer.as_str().unicode_len() != 0 {
                let mut flushed = String::new();
                core::mem::swap(&mut buffer, &mut flushed);
                let name_pos = cursor.pos().start_of(flushed.as_str());
                symbols.push(Symbol::Name(name_pos, flushed));
                proof {
                    assert(symbols_view(symbols@) =~= sp_flush(acc0, buf0, pos));
                }
            } else {
                proof {
                    assert(buf0 =~= Seq::<char>::empty());
                }
            }
            cursor.next();
        } else if c == '"' {
            proof {
                lemma_string_scan_bounds(chars, i + 1, Seq::empty());
            }
            let sym = match collect_string(&mut cursor) {
                Ok(s) => s,
                Err(e) => {
                    return Err(e);
                }
            };
            if buffer.as_str().unicode_len() != 0 {
                let mut flushed = String::new();
                core::mem::swap(&mut buffer, &mut flushed);
                let name_pos = cursor.pos().start_of(flushed.as_str());
                symbols.push(Symbol::Name(name_pos, flushed));
            } else {
                proof {
                    assert(buf0 =~= Seq::<char>::empty());
                }
            }
            symbols.push(sym);
            proof {
                let p = sp_string_scan(chars, i + 1, Seq::empty())->0;
                let npos = spec_advance_seq(pos, chars.subrange(i, p.1));
                assert(symbols_view(symbols@) =~= sp_flush(acc0, buf0, npos).push(
                    SymbolModel::Primitive(pos, LiteralModel::String(p.0)),
                ));
            }
        } else if c == '#' && buffer.as_str().unicode_len() == 0 {
            proof {
                assert(buf0 =~= Seq::<char>::empty());
            }
            let sym = match collect_bool(&mut cursor) {
                Ok(s) => s,
                Err(e) => {
                    return Err(e);
                }
            };
            symbols.push(sym);
            proof {
                assert(symbols_view(symbols@) =~= acc0.push(sym@));
            }
        } else if digit_peek_char(c) && (buffer.as_str().unicode_len() == 0 || buffer
            == String::from_str("-")) {
            proof {
                reveal_strlit("-");
                if buf0.len() == 0 {
                    assert(buf0 =~= Seq::<char>::empty());
                }
                lemma_digits_end_bounds(chars, i);
            }
            let sym = match collect_number(&mut cursor, &mut buffer) {
                Ok(s) => s,
                Err(e) => {
                    return Err(e);
                }
            };
            symbols.push(sym);
            proof {
                assert(symbols_view(symbols@) =~= acc0.push(sym@));
            }
        } else if c == '\'' {
            if buffer.as_str().unicode_len() != 0 {
                let mut flushed = String::new();
                core::mem::swap(&mut buffer, &mut flushed);
                let name_pos = cursor.pos().start_of(flushed.as_str());
                symbols.push(Symbol::Name(name_pos, flushed));
            } else {
                proof {
                    assert(buf0 =~= Seq::<char>::empty());
                }
            }
            symbols.push(Symbol::Quote(cursor.pos()));
            proof {
                assert(symbols_view(symbols@) =~= sp_flush(acc0, buf0, pos).push(
                    SymbolModel::Quote(pos),
                ));
            }
            cursor.next();
        } else if c == '(' {
            if buffer.as_str().unicode_len() != 0 {
                let mut flushed = String::new();
                core::mem::swap(&mut buffer, &mut flushed);
                let name_pos = cursor.pos().start_of(flushed.as_str());
                symbols.push(Symbol::Name(name_pos, flushed));
            } else {
                proof {
                    assert(buf0 =~= Seq::<char>::empty());
                }
            }
            symbols.push(Symbol::LParen(cursor.pos()));
            proof {
                assert(symbols_view(symbols@) =~= sp_flush(acc0, buf0, pos).push(
                    SymbolModel::LParen(pos),
                ));
            }
            cursor.next();
        } else if c == ')' {
            if buffer.as_str().unicode_len() != 0 {
                let mut flushed = String::new();
                core::mem::swap(&mut buffer, &mut flushed);
                let name_pos = cursor.pos().start_of(flushed.as_str());
                symbols.push(Symbol::Name(name_pos, flushed));
            } else {
                proof {
                    assert(buf0 =~= Seq::<char>::empty());
                }
            }
            symbols.push(Symbol::RParen(cursor.pos()));
            proof {
                assert(symbols_view(symbols@) =~= sp_flush(acc0, buf0, pos).push(
                    SymbolModel::RParen(pos),
                ));
            }
            cursor.next();
        } else {
            buffer.push(c);
            cursor.next();
        }
    }
    let ghost acc_end = symbols_view(symbols@);
    let ghost buf_end = buffer@;
    let ghost pos_end = cursor.spec_pos();
    if buffer.as_str().unicode_len() != 0 {
        let mut flushed = String::new();
        core::mem::swap(&mut buffer, &mut flushed);
        let name_pos = cursor.pos().start_of(flushed.as_str());
        symbols.push(Symbol::Name(name_pos, flushed));
    }
    proof {
        assert(symbols_view(symbols@) =~= sp_flush(acc_end, buf_end, pos_end));
    }
    Ok(symbols)
}

/// Whether a character is a decimal digit, checked on a plain value.
fn digit_peek_char(c: char) -> (r: bool)
    ensures
        r == spec_is_digit(c),
{
    let u = c as u32;
    48 <= u && u <= 57
}

} // verus!
