//! From text to tokens.
//!
//! [`Cursor`] is the mathematical model: a text and an index into it.
//! What the next token is, and where the text goes on behind it, are
//! functions of a cursor.  [`Lexer`] is the executable cursor, and each of
//! its methods is proved to compute one of those functions.

use vstd::prelude::*;
use vstd::string::*;

use crate::text::decimal;
use crate::text::digit;
use crate::text::digit_value;
use crate::text::is_digit;
use crate::text::is_whitespace;
use crate::text::lemma_decimal_digits;
use crate::text::lemma_number_of_decimal;
use crate::text::number;
use crate::text::to_digit;
use crate::text::whitespace;
use crate::token::Symbol;
use crate::token::Token;
use crate::Operator;
use crate::Position;

verus! {

/// The line, counted from 1, of the character at `index`: one more than
/// the number of line feeds in front of it.
pub open spec fn line_at(text: Seq<char>, index: nat) -> nat
    decreases index,
{
    if index == 0 {
        1
    } else if text[index - 1] == '\n' {
        line_at(text, (index - 1) as nat) + 1
    } else {
        line_at(text, (index - 1) as nat)
    }
}

/// The column, counted from 1, of the character at `index`: one more than
/// the number of characters between it and the line feed in front of it,
/// or the start of the text.
pub open spec fn column_at(text: Seq<char>, index: nat) -> nat
    decreases index,
{
    if index == 0 || text[index - 1] == '\n' {
        1
    } else {
        column_at(text, (index - 1) as nat) + 1
    }
}

/// A count as a position holds it: as it is, up to the largest number that
/// the machine's word can hold, and that number beyond.
pub open spec fn saturated(n: nat) -> usize {
    if n <= usize::MAX {
        n as usize
    } else {
        usize::MAX
    }
}

/// The number that a literal denotes, where a token can hold it.
pub open spec fn literal_value(digits: Seq<char>) -> Option<u64> {
    if number(digits) <= u64::MAX {
        Some(number(digits) as u64)
    } else {
        None
    }
}

/// What the lexer has to say of an offending character at `position`.
pub open spec fn lexical_message(position: Position, c: char) -> Seq<char> {
    if digit(c) {
        "SyntaxError: "@ + position.label() + ", integer literal out of range."@
    } else {
        "SyntaxError: "@ + position.label() + ", unsupported character '"@ + seq![c] + "'."@
    }
}

/// The diagnostic that belongs to `token` if it is an `Error` token of
/// `text`: it names the offending character and its position.
pub open spec fn diagnostic(text: Seq<char>, token: Token) -> Option<Seq<char>> {
    match token {
        Token::Error(position) if position.index < text.len() => Some(
            lexical_message(position, text[position.index as int]),
        ),
        _ => None,
    }
}

/// A text and a place in it.
pub struct Cursor {
    pub text: Seq<char>,
    pub index: nat,
}

impl Cursor {
    /// The cursor at the start of a text.
    pub open spec fn start(text: Seq<char>) -> Cursor {
        Cursor { text, index: 0 }
    }

    /// Whether nothing is left to read.
    pub open spec fn at_end(self) -> bool {
        self.index >= self.text.len()
    }

    /// The number of characters that are left to read.
    pub open spec fn remaining(self) -> nat {
        if self.at_end() {
            0
        } else {
            (self.text.len() - self.index) as nat
        }
    }

    /// The character under the cursor.
    pub open spec fn current(self) -> char
        recommends
            !self.at_end(),
    {
        self.text[self.index as int]
    }

    /// The character under the cursor, if the text has not ended.
    pub open spec fn peek(self) -> Option<char> {
        if self.at_end() {
            None
        } else {
            Some(self.current())
        }
    }

    /// The position of the character under the cursor.
    pub open spec fn position(self) -> Position {
        Position {
            column: saturated(column_at(self.text, self.index)),
            index: saturated(self.index),
            line: saturated(line_at(self.text, self.index)),
        }
    }

    /// The cursor one character on; at the end of the text it stays.
    pub open spec fn step(self) -> Cursor {
        if self.at_end() {
            self
        } else {
            Cursor { text: self.text, index: self.index + 1 }
        }
    }

    /// The cursor at the first character from here on that is no whitespace,
    /// or at the end of the text.
    pub open spec fn skip_whitespace(self) -> Cursor
        decreases self.remaining(),
    {
        if !self.at_end() && whitespace(self.current()) {
            self.step().skip_whitespace()
        } else {
            self
        }
    }

    /// The cursor at the first character from here on that is no digit, or
    /// at the end of the text.
    pub open spec fn skip_digits(self) -> Cursor
        decreases self.remaining(),
    {
        if !self.at_end() && digit(self.current()) {
            self.step().skip_digits()
        } else {
            self
        }
    }

    /// The longest run of digits that starts here.
    pub open spec fn literal(self) -> Seq<char> {
        self.text.subrange(self.index as int, self.skip_digits().index as int)
    }

    /// The token that starts here, with no whitespace in front of it.
    pub open spec fn bare_token(self) -> Token {
        let position = self.position();
        match self.peek() {
            None => Token::EOF(position),
            Some('+') => Token::Operator(position, Operator::Add),
            Some('/') => Token::Operator(position, Operator::Divide),
            Some('*') => Token::Operator(position, Operator::Multiply),
            Some('-') => Token::Operator(position, Operator::Subtract),
            Some('(') => Token::ParenthesisL(position),
            Some(')') => Token::ParenthesisR(position),
            Some(';') => Token::Terminator(position),
            Some(c) => if digit(c) {
                match literal_value(self.literal()) {
                    Some(value) => Token::Integer(position, value),
                    None => Token::Error(position),
                }
            } else {
                Token::Error(position)
            },
        }
    }

    /// The cursor behind the token that starts here: behind all its digits
    /// for a literal, one character on for any other token, and unmoved at
    /// the end of the text.
    pub open spec fn after_bare_token(self) -> Cursor {
        match self.peek() {
            Some(c) if digit(c) => self.skip_digits(),
            _ => self.step(),
        }
    }

    /// The next token: whitespace is skipped, and the token carries the
    /// position of its first character.  At the end of the text the token
    /// is `EOF`, with the position of the end.
    pub open spec fn token(self) -> Token {
        self.skip_whitespace().bare_token()
    }

    /// The cursor behind the next token.
    pub open spec fn after_token(self) -> Cursor {
        self.skip_whitespace().after_bare_token()
    }

    /// What the next `n` tokens say.
    pub open spec fn symbols(self, n: nat) -> Seq<Symbol>
        decreases n,
    {
        if n == 0 {
            Seq::empty()
        } else {
            seq![self.token().symbol()] + self.after_token().symbols((n - 1) as nat)
        }
    }

    /// The cursor behind the next `n` tokens.
    pub open spec fn after_tokens(self, n: nat) -> Cursor
        decreases n,
    {
        if n == 0 {
            self
        } else {
            self.after_token().after_tokens((n - 1) as nat)
        }
    }

    /// That the tokens from here to `rest` say `symbols`, one for one.
    pub open spec fn spells(self, rest: Cursor, symbols: Seq<Symbol>) -> bool {
        &&& self.after_tokens(symbols.len()) == rest
        &&& self.symbols(symbols.len()) == symbols
    }

    /// A cursor that stands inside its text or at its end.
    pub open spec fn wf(self) -> bool {
        self.index <= self.text.len()
    }

    /// Skipping whitespace stays in the text, moves forward only, passes
    /// whitespace only, and stops at the end or at a character that is no
    /// whitespace.
    pub proof fn lemma_skip_whitespace(self)
        ensures
            self.skip_whitespace().text == self.text,
            self.index <= self.skip_whitespace().index,
            self.wf() ==> self.skip_whitespace().wf(),
            self.skip_whitespace().at_end() || !whitespace(self.skip_whitespace().current()),
            forall|i: int|
                self.index <= i < self.skip_whitespace().index ==> whitespace(
                    #[trigger] self.text[i],
                ),
        decreases self.remaining(),
    {
        if !self.at_end() && whitespace(self.current()) {
            self.step().lemma_skip_whitespace();
        }
    }

    /// Skipping digits stays in the text, moves forward only, passes digits
    /// only, and stops at the end or at a character that is no digit.
    pub proof fn lemma_skip_digits(self)
        ensures
            self.skip_digits().text == self.text,
            self.index <= self.skip_digits().index,
            self.wf() ==> self.skip_digits().wf(),
            self.skip_digits().at_end() || !digit(self.skip_digits().current()),
            !self.at_end() && digit(self.current()) ==> self.index < self.skip_digits().index,
            forall|i: int|
                self.index <= i < self.skip_digits().index ==> digit(#[trigger] self.text[i]),
        decreases self.remaining(),
    {
        if !self.at_end() && digit(self.current()) {
            self.step().lemma_skip_digits();
        }
    }

    /// Reading a token stays in the text and moves forward only; every token
    /// but `EOF` takes at least one character, and `EOF` is read at the end
    /// of the text only.
    pub proof fn lemma_token_advances(self)
        ensures
            self.after_token().text == self.text,
            self.wf() ==> self.after_token().wf(),
            self.index <= self.after_token().index,
            self.after_token().remaining() <= self.remaining(),
            !(self.token() is EOF) ==> self.after_token().remaining() < self.remaining(),
            self.token() is EOF ==> self.after_token().at_end(),
    {
        self.lemma_skip_whitespace();
        self.skip_whitespace().lemma_skip_digits();
    }

    /// One token says its symbol.
    pub proof fn lemma_spells_token(self)
        ensures
            self.spells(self.after_token(), seq![self.token().symbol()]),
    {
        reveal_with_fuel(Cursor::symbols, 2);
        reveal_with_fuel(Cursor::after_tokens, 2);
    }

    /// What is read up to `middle` and what is read from there add up.
    pub proof fn lemma_spells_both(
        self,
        middle: Cursor,
        rest: Cursor,
        first: Seq<Symbol>,
        second: Seq<Symbol>,
    )
        requires
            self.spells(middle, first),
            middle.spells(rest, second),
        ensures
            self.spells(rest, first + second),
        decreases first.len(),
    {
        if first.len() > 0 {
            let tail = first.drop_first();
            assert(self.after_token().symbols(tail.len()) =~= (seq![self.token().symbol()]
                + self.after_token().symbols(tail.len())).drop_first());
            self.after_token().lemma_spells_both(middle, rest, tail, second);
            assert(first + second =~= seq![first[0]] + (tail + second));
        }
    }

    /// The first of the symbols that are spelled is the symbol of the next
    /// token, and the others are spelled behind it.
    pub proof fn lemma_spells_first(self, rest: Cursor, symbols: Seq<Symbol>)
        requires
            self.spells(rest, symbols),
            symbols.len() > 0,
        ensures
            self.token().symbol() == symbols[0],
            self.after_token().spells(rest, symbols.drop_first()),
    {
        let others = self.after_token().symbols((symbols.len() - 1) as nat);
        assert(others =~= (seq![self.token().symbol()] + others).drop_first());
    }

    /// What is read in all is read in two parts, one behind the other.
    pub proof fn lemma_spells_parts(self, rest: Cursor, first: Seq<Symbol>, second: Seq<Symbol>)
        requires
            self.spells(rest, first + second),
        ensures
            self.spells(self.after_tokens(first.len()), first),
            self.after_tokens(first.len()).spells(rest, second),
        decreases first.len(),
    {
        if first.len() == 0 {
            assert(first =~= Seq::<Symbol>::empty());
        } else {
            self.lemma_spells_first(rest, first + second);
            assert((first + second).drop_first() =~= first.drop_first() + second);
            self.after_token().lemma_spells_parts(rest, first.drop_first(), second);
            assert(self.symbols(first.len()) =~= first);
        }
    }
}

/// The literal round trip: the numeral of every number that a token can
/// hold is read as one `Integer` token with that number, which takes the
/// whole text.
pub proof fn lemma_literal_round_trip(n: u64)
    ensures
        Cursor::start(decimal(n as nat)).token() == Token::Integer(
            Position { column: 1, index: 0, line: 1 },
            n,
        ),
        Cursor::start(decimal(n as nat)).after_token() == (Cursor {
            text: decimal(n as nat),
            index: decimal(n as nat).len(),
        }),
{
    let text = decimal(n as nat);
    let c = Cursor::start(text);
    lemma_decimal_digits(n as nat);
    lemma_number_of_decimal(n as nat);
    c.lemma_skip_digits();
    assert(c.literal() =~= text);
}

/// The count after `n`, as a position holds it.
fn one_more(n: usize) -> (m: usize)
    ensures
        m == saturated(n as nat + 1),
{
    if n < usize::MAX {
        n + 1
    } else {
        n
    }
}

/// The executable cursor over a text.
#[derive(Copy, Clone)]
pub struct Lexer<'text> {
    length: usize,
    position: Position,
    text: &'text str,
}

impl<'text> View for Lexer<'text> {
    type V = Cursor;

    closed spec fn view(&self) -> Cursor {
        Cursor { text: self.text@, index: self.position.index as nat }
    }
}

impl<'text> Lexer<'text> {
    #[verifier::type_invariant]
    spec fn inv(self) -> bool {
        &&& self.length == self.text@.len()
        &&& self.position.index <= self.length
        &&& self.position == self@.position()
    }

    /// A lexer at the start of `text`.
    pub fn new(text: &'text str) -> (lexer: Self)
        ensures
            lexer@ == Cursor::start(text@),
    {
        Self {
            length: text.unicode_len(),
            position: Position { column: 1, index: 0, line: 1 },
            text,
        }
    }

    /// Takes one character: returns it with the position it stood at, and
    /// moves on.  At the end of the text it returns `None` and stays.
    pub fn get_char(&mut self) -> (read: (Option<char>, Position))
        ensures
            read.0 == old(self)@.peek(),
            read.1 == old(self)@.position(),
            final(self)@ == old(self)@.step(),
    {
        proof {
            use_type_invariant(&*self);
        }
        let position = self.position;
        if position.index < self.length {
            let c = self.text.get_char(position.index);
            self.position =
            if c == '\n' {
                Position { column: 1, index: position.index + 1, line: one_more(position.line) }
            } else {
                Position {
                    column: one_more(position.column),
                    index: position.index + 1,
                    line: position.line,
                }
            };
            (Some(c), position)
        } else {
            (None, position)
        }
    }

    /// Takes the digits that follow the first digit of a literal, and
    /// returns the number that the literal denotes, if a token can hold it.
    /// `start` is where the literal began, and `first` its first digit.
    fn get_literal(&mut self, Ghost(start): Ghost<Cursor>, first: u64) -> (value: Option<u64>)
        requires
            !start.at_end(),
            digit(start.current()),
            first == digit_value(start.current()),
            old(self)@ == start.step(),
        ensures
            value == literal_value(start.literal()),
            final(self)@ == start.skip_digits(),
    {
        proof {
            use_type_invariant(&*self);
            let digits = start.text.subrange(start.index as int, start.index as int + 1);
            assert(number(digits.drop_last()) == 0);
        }
        let length = self.length;
        let mut value: Option<u64> = Some(first);
        while self.position.index < length && is_digit(self.text.get_char(self.position.index))
            invariant
                length == self.text@.len(),
                self@.wf(),
                self@.text == start.text,
                start.index < self@.index,
                self@.skip_digits() == start.skip_digits(),
                value == literal_value(
                    start.text.subrange(start.index as int, self@.index as int),
                ),
            decreases self@.remaining(),
        {
            let ghost before = self@;
            let (c, _) = self.get_char();
            let d = to_digit(c.unwrap()).unwrap();
            proof {
                let shorter = start.text.subrange(start.index as int, before.index as int);
                let longer = start.text.subrange(start.index as int, before.index as int + 1);
                assert(longer.drop_last() =~= shorter);
            }
            value =
            match value {
                Some(v) => match v.checked_mul(10) {
                    Some(tens) => tens.checked_add(d),
                    None => None,
                },
                None => None,
            };
        }
        value
    }

    /// Takes the next token.  Of an `Error` token, [`Lexer::diagnostic`]
    /// says what is wrong.
    pub fn get_token(&mut self) -> (token: Token)
        ensures
            token == old(self)@.token(),
            final(self)@ == old(self)@.after_token(),
    {
        proof {
            use_type_invariant(&*self);
        }
        let length = self.length;
        while self.position.index < length && is_whitespace(
            self.text.get_char(self.position.index),
        )
            invariant
                length == self.text@.len(),
                self@.wf(),
                self@.text == old(self)@.text,
                self@.skip_whitespace() == old(self)@.skip_whitespace(),
            decreases self@.remaining(),
        {
            self.get_char();
        }
        let ghost start = self@;
        let (current, position) = self.get_char();
        match current {
            None => Token::EOF(position),
            Some('+') => Token::Operator(position, Operator::Add),
            Some('/') => Token::Operator(position, Operator::Divide),
            Some('*') => Token::Operator(position, Operator::Multiply),
            Some('-') => Token::Operator(position, Operator::Subtract),
            Some('(') => Token::ParenthesisL(position),
            Some(')') => Token::ParenthesisR(position),
            Some(';') => Token::Terminator(position),
            Some(c) => match to_digit(c) {
                Some(first) => match self.get_literal(Ghost(start), first) {
                    Some(value) => Token::Integer(position, value),
                    None => Token::Error(position),
                },
                None => Token::Error(position),
            },
        }
    }

    /// Takes the next token and discards it.
    pub fn drop_token(&mut self)
        ensures
            final(self)@ == old(self)@.after_token(),
    {
        self.get_token();
    }

    /// The next token; the lexer stays where it is, so that the same token
    /// is seen however often one looks, and is the one that `get_token`
    /// takes next.
    pub fn view_token(&self) -> (token: Token)
        ensures
            token == self@.token(),
    {
        let mut lexer = *self;
        lexer.get_token()
    }

    /// The diagnostic that belongs to `token` if it is an `Error` token that
    /// this lexer produced.
    pub fn diagnostic(&self, token: &Token) -> (message: Option<String>)
        ensures
            match message {
                Some(m) => diagnostic(self@.text, *token) == Some(m@),
                None => diagnostic(self@.text, *token).is_none(),
            },
    {
        match token {
            Token::Error(position) => {
                proof {
                    use_type_invariant(self);
                }
                if position.index < self.length {
                    let c = self.text.get_char(position.index);
                    let mut message = String::from_str("SyntaxError: ");
                    message.append(position.to_string().as_str());
                    if is_digit(c) {
                        message.append(", integer literal out of range.");
                    } else {
                        message.append(", unsupported character '");
                        let offender = self.text.substring_char(
                            position.index,
                            position.index + 1,
                        );
                        message.append(offender);
                        message.append("'.");
                    }
                    Some(message)
                } else {
                    None
                }
            },
            _ => None,
        }
    }
}

} // verus!
