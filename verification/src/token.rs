//! The closed set of lexical units and their spelling.

use vstd::prelude::*;
use crate::text::{decimal, push_decimal};

verus! {

/// A lexical unit. Literal tokens carry their payload, the others are bare
/// markers.
#[derive(Debug, PartialEq)]
pub enum Token {
    // Values
    Integer(i32),
    Ident(String),
    // Keywords
    If,
    Else,
    Let,
    True,
    False,
    // Logic
    Or,
    And,
    // Relational
    RelEq,
    RelNe,
    RelGt,
    RelLt,
    RelGte,
    RelLte,
    // Math
    Plus,
    Hyphen,
    Star,
    Divide,
    Caret,
    // Brackets
    LeftParen,
    RightParen,
    LeftBracket,
    RightBracket,
    LeftBrace,
    RightBrace,
    // Misc
    Bang,
    Equal,
    Semicolon,
    Comma,
}

/// The mathematical model of a [`Token`]: an identifier is its sequence of
/// characters.
pub enum SpecToken {
    Integer(i32),
    Ident(Seq<char>),
    If,
    Else,
    Let,
    True,
    False,
    Or,
    And,
    RelEq,
    RelNe,
    RelGt,
    RelLt,
    RelGte,
    RelLte,
    Plus,
    Hyphen,
    Star,
    Divide,
    Caret,
    LeftParen,
    RightParen,
    LeftBracket,
    RightBracket,
    LeftBrace,
    RightBrace,
    Bang,
    Equal,
    Semicolon,
    Comma,
}

impl Token {
    /// The model of the token.
    pub open spec fn view(&self) -> SpecToken {
        match self {
            Token::Integer(value) => SpecToken::Integer(*value),
            Token::Ident(name) => SpecToken::Ident(name@),
            Token::If => SpecToken::If,
            Token::Else => SpecToken::Else,
            Token::Let => SpecToken::Let,
            Token::True => SpecToken::True,
            Token::False => SpecToken::False,
            Token::Or => SpecToken::Or,
            Token::And => SpecToken::And,
            Token::RelEq => SpecToken::RelEq,
            Token::RelNe => SpecToken::RelNe,
            Token::RelGt => SpecToken::RelGt,
            Token::RelLt => SpecToken::RelLt,
            Token::RelGte => SpecToken::RelGte,
            Token::RelLte => SpecToken::RelLte,
            Token::Plus => SpecToken::Plus,
            Token::Hyphen => SpecToken::Hyphen,
            Token::Star => SpecToken::Star,
            Token::Divide => SpecToken::Divide,
            Token::Caret => SpecToken::Caret,
            Token::LeftParen => SpecToken::LeftParen,
            Token::RightParen => SpecToken::RightParen,
            Token::LeftBracket => SpecToken::LeftBracket,
            Token::RightBracket => SpecToken::RightBracket,
            Token::LeftBrace => SpecToken::LeftBrace,
            Token::RightBrace => SpecToken::RightBrace,
            Token::Bang => SpecToken::Bang,
            Token::Equal => SpecToken::Equal,
            Token::Semicolon => SpecToken::Semicolon,
            Token::Comma => SpecToken::Comma,
        }
    }
}

impl SpecToken {
    /// A token without payload: a keyword, an operator or a punctuation mark.
    pub open spec fn is_marker(self) -> bool {
        !(self is Integer) && !(self is Ident)
    }

    /// The source text of the token.
    pub open spec fn spelling(self) -> Seq<char> {
        match self {
            SpecToken::Integer(value) => decimal(value as int),
            SpecToken::Ident(name) => name,
            SpecToken::If => seq!['i', 'f'],
            SpecToken::Else => seq!['e', 'l', 's', 'e'],
            SpecToken::Let => seq!['l', 'e', 't'],
            SpecToken::True => seq!['t', 'r', 'u', 'e'],
            SpecToken::False => seq!['f', 'a', 'l', 's', 'e'],
            SpecToken::Or => seq!['|', '|'],
            SpecToken::And => seq!['&', '&'],
            SpecToken::RelEq => seq!['=', '='],
            SpecToken::RelNe => seq!['!', '='],
            SpecToken::RelGt => seq!['>'],
            SpecToken::RelLt => seq!['<'],
            SpecToken::RelGte => seq!['>', '='],
            SpecToken::RelLte => seq!['<', '='],
            SpecToken::Plus => seq!['+'],
            SpecToken::Hyphen => seq!['-'],
            SpecToken::Star => seq!['*'],
            SpecToken::Divide => seq!['/'],
            SpecToken::Caret => seq!['^'],
            SpecToken::LeftParen => seq!['('],
            SpecToken::RightParen => seq![')'],
            SpecToken::LeftBracket => seq!['['],
            SpecToken::RightBracket => seq![']'],
            SpecToken::LeftBrace => seq!['{'],
            SpecToken::RightBrace => seq!['}'],
            SpecToken::Bang => seq!['!'],
            SpecToken::Equal => seq!['='],
            SpecToken::Semicolon => seq![';'],
            SpecToken::Comma => seq![','],
        }
    }
}

/// The keyword that `text` spells, if it is a reserved word.
pub open spec fn keyword(text: Seq<char>) -> Option<SpecToken> {
    if text == SpecToken::If.spelling() {
        Some(SpecToken::If)
    } else if text == SpecToken::Else.spelling() {
        Some(SpecToken::Else)
    } else if text == SpecToken::Let.spelling() {
        Some(SpecToken::Let)
    } else if text == SpecToken::True.spelling() {
        Some(SpecToken::True)
    } else if text == SpecToken::False.spelling() {
        Some(SpecToken::False)
    } else {
        None
    }
}

/// The model of an optional token.
pub open spec fn view_opt(token: Option<Token>) -> Option<SpecToken> {
    match token {
        Some(t) => Some(t@),
        None => None,
    }
}

/// The models of a sequence of tokens, in order.
pub open spec fn view_tokens(tokens: Seq<Token>) -> Seq<SpecToken> {
    Seq::new(tokens.len(), |i: int| tokens[i]@)
}

impl Clone for Token {
    fn clone(&self) -> (copy: Self)
        ensures
            copy@ == self@,
    {
        match self {
            Token::Integer(value) => Token::Integer(*value),
            Token::Ident(name) => Token::Ident(name.clone()),
            Token::If => Token::If,
            Token::Else => Token::Else,
            Token::Let => Token::Let,
            Token::True => Token::True,
            Token::False => Token::False,
            Token::Or => Token::Or,
            Token::And => Token::And,
            Token::RelEq => Token::RelEq,
            Token::RelNe => Token::RelNe,
            Token::RelGt => Token::RelGt,
            Token::RelLt => Token::RelLt,
            Token::RelGte => Token::RelGte,
            Token::RelLte => Token::RelLte,
            Token::Plus => Token::Plus,
            Token::Hyphen => Token::Hyphen,
            Token::Star => Token::Star,
            Token::Divide => Token::Divide,
            Token::Caret => Token::Caret,
            Token::LeftParen => Token::LeftParen,
            Token::RightParen => Token::RightParen,
            Token::LeftBracket => Token::LeftBracket,
            Token::RightBracket => Token::RightBracket,
            Token::LeftBrace => Token::LeftBrace,
            Token::RightBrace => Token::RightBrace,
            Token::Bang => Token::Bang,
            Token::Equal => Token::Equal,
            Token::Semicolon => Token::Semicolon,
            Token::Comma => Token::Comma,
        }
    }
}

impl Token {
    /// Maps a reserved word to its token; any other text gives `None`.
    pub fn map_keyword(text: &str) -> (found: Option<Token>)
        ensures
            view_opt(found) == keyword(text@),
    {
        proof {
            reveal_strlit("if");
            reveal_strlit("else");
            reveal_strlit("let");
            reveal_strlit("true");
            reveal_strlit("false");
            assert("if"@ =~= SpecToken::If.spelling());
            assert("else"@ =~= SpecToken::Else.spelling());
            assert("let"@ =~= SpecToken::Let.spelling());
            assert("true"@ =~= SpecToken::True.spelling());
            assert("false"@ =~= SpecToken::False.spelling());
        }
        let word = text.to_owned();
        if word == "if".to_owned() {
            Some(Token::If)
        } else if word == "else".to_owned() {
            Some(Token::Else)
        } else if word == "let".to_owned() {
            Some(Token::Let)
        } else if word == "true".to_owned() {
            Some(Token::True)
        } else if word == "false".to_owned() {
            Some(Token::False)
        } else {
            None
        }
    }

    /// Tells whether two tokens are the same lexical unit, payload included.
    pub fn same(&self, other: &Token) -> (equal: bool)
        ensures
            equal == (self@ == other@),
    {
        match (self, other) {
            (Token::Integer(a), Token::Integer(b)) => *a == *b,
            (Token::Ident(a), Token::Ident(b)) => {
                let equal = *a == *b;
                equal
            },
            (Token::If, Token::If) => true,
            (Token::Else, Token::Else) => true,
            (Token::Let, Token::Let) => true,
            (Token::True, Token::True) => true,
            (Token::False, Token::False) => true,
            (Token::Or, Token::Or) => true,
            (Token::And, Token::And) => true,
            (Token::RelEq, Token::RelEq) => true,
            (Token::RelNe, Token::RelNe) => true,
            (Token::RelGt, Token::RelGt) => true,
            (Token::RelLt, Token::RelLt) => true,
            (Token::RelGte, Token::RelGte) => true,
            (Token::RelLte, Token::RelLte) => true,
            (Token::Plus, Token::Plus) => true,
            (Token::Hyphen, Token::Hyphen) => true,
            (Token::Star, Token::Star) => true,
            (Token::Divide, Token::Divide) => true,
            (Token::Caret, Token::Caret) => true,
            (Token::LeftParen, Token::LeftParen) => true,
            (Token::RightParen, Token::RightParen) => true,
            (Token::LeftBracket, Token::LeftBracket) => true,
            (Token::RightBracket, Token::RightBracket) => true,
            (Token::LeftBrace, Token::LeftBrace) => true,
            (Token::RightBrace, Token::RightBrace) => true,
            (Token::Bang, Token::Bang) => true,
            (Token::Equal, Token::Equal) => true,
            (Token::Semicolon, Token::Semicolon) => true,
            (Token::Comma, Token::Comma) => true,
            _ => false,
        }
    }

    /// Appends the token's source text to `out`.
    pub fn write_to(&self, out: &mut String)
        ensures
            final(out)@ == old(out)@ + self@.spelling(),
    {
        match self {
            Token::Integer(value) => push_decimal(out, *value),
            Token::Ident(name) => out.append(name.as_str()),
            Token::If => {
                out.push('i');
                out.push('f');
            },
            Token::Else => {
                out.push('e');
                out.push('l');
                out.push('s');
                out.push('e');
            },
            Token::Let => {
                out.push('l');
                out.push('e');
                out.push('t');
            },
            Token::True => {
                out.push('t');
                out.push('r');
                out.push('u');
                out.push('e');
            },
            Token::False => {
                out.push('f');
                out.push('a');
                out.push('l');
                out.push('s');
                out.push('e');
            },
            Token::Or => {
                out.push('|');
                out.push('|');
            },
            Token::And => {
                out.push('&');
                out.push('&');
            },
            Token::RelEq => {
                out.push('=');
                out.push('=');
            },
            Token::RelNe => {
                out.push('!');
                out.push('=');
            },
            Token::RelGt => out.push('>'),
            Token::RelLt => out.push('<'),
            Token::RelGte => {
                out.push('>');
                out.push('=');
            },
            Token::RelLte => {
                out.push('<');
                out.push('=');
            },
            Token::Plus => out.push('+'),
            Token::Hyphen => out.push('-'),
            Token::Star => out.push('*'),
            Token::Divide => out.push('/'),
            Token::Caret => out.push('^'),
            Token::LeftParen => out.push('('),
            Token::RightParen => out.push(')'),
            Token::LeftBracket => out.push('['),
            Token::RightBracket => out.push(']'),
            Token::LeftBrace => out.push('{'),
            Token::RightBrace => out.push('}'),
            Token::Bang => out.push('!'),
            Token::Equal => out.push('='),
            Token::Semicolon => out.push(';'),
            Token::Comma => out.push(','),
        }
        assert(final(out)@ =~= old(out)@ + self@.spelling());
    }

    /// The token's source text.
    pub fn to_string(&self) -> (text: String)
        ensures
            text@ == self@.spelling(),
    {
        let mut text = String::new();
        self.write_to(&mut text);
        assert(text@ =~= self@.spelling());
        text
    }
}

} // verus!
