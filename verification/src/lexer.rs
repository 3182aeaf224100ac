//! The lexer: from source text to tokens, in one pass from left to right.

use vstd::prelude::*;
use crate::error::{IntyError, SpecError};
use crate::lexer_laws::lemma_lex_errors_are_lexical;
use crate::text::{
    digits_value, is_digit, is_digit_char, is_letter, is_letter_char, is_space, is_space_char,
    is_word_char, is_word_character,
};
use crate::token::{keyword, view_tokens, SpecToken, Token};

verus! {

/// The number of decimal digits that follow one another in `source` from
/// position `from` on.
pub open spec fn digit_run(source: Seq<char>, from: int) -> nat
    decreases source.len() - from,
{
    if 0 <= from < source.len() && is_digit(source[from]) {
        1 + digit_run(source, from + 1)
    } else {
        0
    }
}

/// The number of word characters that follow one another in `source` from
/// position `from` on.
pub open spec fn word_run(source: Seq<char>, from: int) -> nat
    decreases source.len() - from,
{
    if 0 <= from < source.len() && is_word_char(source[from]) {
        1 + word_run(source, from + 1)
    } else {
        0
    }
}

/// Whether the character after position `at` of `source` is `wanted`.
pub open spec fn followed_by(source: Seq<char>, at: int, wanted: char) -> bool {
    at + 1 < source.len() && source[at + 1] == wanted
}

/// The token that a punctuation character spells by itself.
pub open spec fn symbol(c: char) -> Option<SpecToken> {
    if c == '+' {
        Some(SpecToken::Plus)
    } else if c == '-' {
        Some(SpecToken::Hyphen)
    } else if c == '*' {
        Some(SpecToken::Star)
    } else if c == '/' {
        Some(SpecToken::Divide)
    } else if c == '^' {
        Some(SpecToken::Caret)
    } else if c == '(' {
        Some(SpecToken::LeftParen)
    } else if c == ')' {
        Some(SpecToken::RightParen)
    } else if c == '[' {
        Some(SpecToken::LeftBracket)
    } else if c == ']' {
        Some(SpecToken::RightBracket)
    } else if c == '{' {
        Some(SpecToken::LeftBrace)
    } else if c == '}' {
        Some(SpecToken::RightBrace)
    } else if c == ';' {
        Some(SpecToken::Semicolon)
    } else if c == ',' {
        Some(SpecToken::Comma)
    } else {
        None
    }
}

/// The token that starts at position `at` of `source`, where a character
/// other than whitespace stands, and the number of characters it spans.
///
/// A digit starts an integer literal, which takes all the digits that follow
/// and must denote a 32-bit signed integer. A letter starts a word, which
/// takes all the word characters that follow and is a keyword or an
/// identifier. `=`, `!`, `<` and `>` take a following `=` with them. `&` and
/// `|` only come in pairs. Any other character is a token by itself or an
/// error.
pub open spec fn next_token(source: Seq<char>, at: int) -> Result<(SpecToken, nat), SpecError>
    recommends
        0 <= at < source.len(),
{
    let c = source[at];
    if is_digit(c) {
        let length = 1 + digit_run(source, at + 1);
        let literal = source.subrange(at, at + length);
        if digits_value(literal) <= 0x7fff_ffff {
            Ok((SpecToken::Integer(digits_value(literal) as i32), length))
        } else {
            Err(SpecError::ParseIntError { literal })
        }
    } else if is_letter(c) {
        let length = 1 + word_run(source, at + 1);
        let word = source.subrange(at, at + length);
        match keyword(word) {
            Some(reserved) => Ok((reserved, length)),
            None => Ok((SpecToken::Ident(word), length)),
        }
    } else if c == '=' {
        if followed_by(source, at, '=') {
            Ok((SpecToken::RelEq, 2))
        } else {
            Ok((SpecToken::Equal, 1))
        }
    } else if c == '!' {
        if followed_by(source, at, '=') {
            Ok((SpecToken::RelNe, 2))
        } else {
            Ok((SpecToken::Bang, 1))
        }
    } else if c == '<' {
        if followed_by(source, at, '=') {
            Ok((SpecToken::RelLte, 2))
        } else {
            Ok((SpecToken::RelLt, 1))
        }
    } else if c == '>' {
        if followed_by(source, at, '=') {
            Ok((SpecToken::RelGte, 2))
        } else {
            Ok((SpecToken::RelGt, 1))
        }
    } else if c == '&' {
        if followed_by(source, at, '&') {
            Ok((SpecToken::And, 2))
        } else {
            Err(SpecError::UnexpectedChar { character: c })
        }
    } else if c == '|' {
        if followed_by(source, at, '|') {
            Ok((SpecToken::Or, 2))
        } else {
            Err(SpecError::UnexpectedChar { character: c })
        }
    } else {
        match symbol(c) {
            Some(token) => Ok((token, 1)),
            None => Err(SpecError::UnexpectedChar { character: c }),
        }
    }
}

/// The number of characters of `source` from position `at` on.
pub open spec fn remaining(source: Seq<char>, at: int) -> nat {
    if 0 <= at <= source.len() {
        (source.len() - at) as nat
    } else {
        0
    }
}

/// The tokens of `source` from position `at` on, or the first error.
/// Whitespace between tokens is skipped.
pub open spec fn lex_from(source: Seq<char>, at: int) -> Result<Seq<SpecToken>, SpecError>
    decreases remaining(source, at),
{
    if at < 0 || at >= source.len() {
        Ok(Seq::empty())
    } else if is_space(source[at]) {
        lex_from(source, at + 1)
    } else {
        match next_token(source, at) {
            Err(error) => Err(error),
            Ok((token, length)) => match lex_from(source, at + length) {
                Err(error) => Err(error),
                Ok(rest) => Ok(seq![token] + rest),
            },
        }
    }
}

/// The tokens of `source`, or the first error.
pub open spec fn lex(source: Seq<char>) -> Result<Seq<SpecToken>, SpecError> {
    lex_from(source, 0)
}

/// The model of the result of the lexer.
pub open spec fn view_lex_result(outcome: Result<Vec<Token>, IntyError>) -> Result<
    Seq<SpecToken>,
    SpecError,
> {
    match outcome {
        Ok(tokens) => Ok(view_tokens(tokens@)),
        Err(error) => Err(error@),
    }
}

/// The tokens read so far, followed by what the rest of the source gives.
pub open spec fn followed(done: Seq<SpecToken>, rest: Result<Seq<SpecToken>, SpecError>) -> Result<
    Seq<SpecToken>,
    SpecError,
> {
    match rest {
        Ok(tokens) => Ok(done + tokens),
        Err(error) => Err(error),
    }
}

/// The characters of `text`, in order.
fn characters(text: &str) -> (chars: Vec<char>)
    ensures
        chars@ == text@,
{
    let mut chars: Vec<char> = Vec::new();
    for c in it: text.chars()
        invariant
            chars@ == it.seq().take(it.index() as int),
            it.seq() == text@,
    {
        chars.push(c);
    }
    chars
}

/// A lexer for one source text.
pub struct Lexer {
    pub input: String,
}

impl Lexer {
    /// A lexer for `input`.
    pub fn new(input: String) -> (lexer: Self)
        ensures
            lexer.input@ == input@,
    {
        Lexer { input }
    }

    /// Reads the integer literal that starts at `start`.
    fn number(source: &Vec<char>, start: usize) -> (outcome: (Result<Token, IntyError>, usize))
        requires
            start < source.len(),
            is_digit(source@[start as int]),
        ensures
            outcome.1 == start + 1 + digit_run(source@, start + 1),
            outcome.1 <= source.len(),
            match next_token(source@, start as int) {
                Ok((token, length)) => outcome.0 is Ok && outcome.0->Ok_0@ == token,
                Err(error) => outcome.0 is Err && outcome.0->Err_0@ == error,
            },
    {
        let mut literal = String::new();
        let mut value: u64 = 0;
        let mut at: usize = start;
        assert(source@.subrange(start as int, at as int) =~= Seq::empty());
        loop
            invariant
                start <= at <= source.len(),
                start < source.len(),
                is_digit(source@[start as int]),
                literal@ == source@.subrange(start as int, at as int),
                value <= 0x8000_0000,
                value == 0x8000_0000 ==> digits_value(literal@) >= 0x8000_0000,
                value < 0x8000_0000 ==> digits_value(literal@) == value,
                at > start ==> 1 + digit_run(source@, start + 1) == (at - start) + digit_run(
                    source@,
                    at as int,
                ),
            ensures
                at > start,
                at < source.len() ==> !is_digit(source@[at as int]),
            decreases source.len() - at,
        {
            if at >= source.len() || !is_digit_char(source[at]) {
                break ;
            }
            let c = source[at];
            let digit: u64 = (c as u32 - 48) as u64;
            proof {
                let longer = source@.subrange(start as int, at + 1);
                assert(longer.drop_last() =~= literal@);
                assert(longer.last() == c);
                assert(digits_value(longer) == digits_value(literal@) * 10 + digit);
            }
            literal.push(c);
            assert(literal@ =~= source@.subrange(start as int, at + 1));
            let next: u64 = value * 10 + digit;
            value = if next > 0x8000_0000 { 0x8000_0000 } else { next };
            at = at + 1;
        }
        if value < 0x8000_0000 {
            (Ok(Token::Integer(value as i32)), at)
        } else {
            (Err(IntyError::ParseIntError { literal }), at)
        }
    }

    /// Reads the word that starts at `start`.
    fn word(source: &Vec<char>, start: usize) -> (outcome: (Token, usize))
        requires
            start < source.len(),
            is_letter(source@[start as int]),
        ensures
            outcome.1 == start + 1 + word_run(source@, start + 1),
            outcome.1 <= source.len(),
            next_token(source@, start as int) matches Ok((token, length)) && outcome.0@ == token,
    {
        let mut text = String::new();
        let mut at: usize = start;
        assert(source@.subrange(start as int, at as int) =~= Seq::empty());
        loop
            invariant
                start <= at <= source.len(),
                start < source.len(),
                is_letter(source@[start as int]),
                text@ == source@.subrange(start as int, at as int),
                at > start ==> 1 + word_run(source@, start + 1) == (at - start) + word_run(
                    source@,
                    at as int,
                ),
            ensures
                at > start,
                at < source.len() ==> !is_word_char(source@[at as int]),
            decreases source.len() - at,
        {
            if at >= source.len() || !is_word_character(source[at]) {
                break ;
            }
            let c = source[at];
            proof {
                assert(source@.subrange(start as int, at + 1) =~= text@.push(c));
            }
            text.push(c);
            at = at + 1;
        }
        match Token::map_keyword(text.as_str()) {
            Some(reserved) => (reserved, at),
            None => (Token::Ident(text), at),
        }
    }

    /// The tokens of the input, in order, or the first error: a character
    /// that starts no token, or an integer literal that is out of range.
    pub fn tokenize(&self) -> (outcome: Result<Vec<Token>, IntyError>)
        ensures
            view_lex_result(outcome) == lex(self.input@),
            outcome matches Err(error) ==> error@.is_lexical(),
    {
        proof {
            lemma_lex_errors_are_lexical(self.input@, 0);
        }
        let source = characters(self.input.as_str());
        let mut tokens: Vec<Token> = Vec::new();
        let mut at: usize = 0;
        assert(view_tokens(tokens@) =~= Seq::empty());
        assert(followed(Seq::empty(), lex_from(source@, 0)) =~= lex_from(source@, 0)) by {
            if let Ok(rest) = lex_from(source@, 0) {
                assert(Seq::<SpecToken>::empty() + rest =~= rest);
            }
        }
        while at < source.len()
            invariant
                at <= source.len(),
                source@ == self.input@,
                lex(source@) == followed(view_tokens(tokens@), lex_from(source@, at as int)),
            decreases source.len() - at,
        {
            let c = source[at];
            let ghost done = view_tokens(tokens@);
            let ghost here = at as int;
            if is_space_char(c) {
                at = at + 1;
                continue ;
            }
            let token = if is_digit_char(c) {
                let (read, end) = Self::number(&source, at);
                at = end;
                match read {
                    Ok(token) => token,
                    Err(error) => {
                        return Err(error);
                    },
                }
            } else if is_letter_char(c) {
                let (token, end) = Self::word(&source, at);
                at = end;
                token
            } else if c == '=' || c == '!' || c == '<' || c == '>' {
                if at + 1 < source.len() && source[at + 1] == '=' {
                    at = at + 2;
                    if c == '=' {
                        Token::RelEq
                    } else if c == '!' {
                        Token::RelNe
                    } else if c == '<' {
                        Token::RelLte
                    } else {
                        Token::RelGte
                    }
                } else {
                    at = at + 1;
                    if c == '=' {
                        Token::Equal
                    } else if c == '!' {
                        Token::Bang
                    } else if c == '<' {
                        Token::RelLt
                    } else {
                        Token::RelGt
                    }
                }
            } else if c == '&' || c == '|' {
                if at + 1 < source.len() && source[at + 1] == c {
                    at = at + 2;
                    if c == '&' {
                        Token::And
                    } else {
                        Token::Or
                    }
                } else {
                    return Err(IntyError::UnexpectedChar { character: c });
                }
            } else {
                at = at + 1;
                if c == '+' {
                    Token::Plus
                } else if c == '-' {
                    Token::Hyphen
                } else if c == '*' {
                    Token::Star
                } else if c == '/' {
                    Token::Divide
                } else if c == '^' {
                    Token::Caret
                } else if c == '(' {
                    Token::LeftParen
                } else if c == ')' {
                    Token::RightParen
                } else if c == '[' {
                    Token::LeftBracket
                } else if c == ']' {
                    Token::RightBracket
                } else if c == '{' {
                    Token::LeftBrace
                } else if c == '}' {
                    Token::RightBrace
                } else if c == ';' {
                    Token::Semicolon
                } else if c == ',' {
                    Token::Comma
                } else {
                    return Err(IntyError::UnexpectedChar { character: c });
                }
            };
            proof {
                assert(next_token(source@, here) == Ok::<(SpecToken, nat), SpecError>(
                    (token@, (at - here) as nat),
                ));
                if let Ok(rest) = lex_from(source@, at as int) {
                    assert(done + (seq![token@] + rest) =~= done.push(token@) + rest);
                }
            }
            tokens.push(token);
            assert(view_tokens(tokens@) =~= done.push(token@));
        }
        proof {
            assert(view_tokens(tokens@) + Seq::<SpecToken>::empty() =~= view_tokens(tokens@));
        }
        Ok(tokens)
    }
}

} // verus!
