//! What holds of the lexer on every source text.

use vstd::prelude::*;
use crate::error::SpecError;
use crate::lexer::{
    digit_run, followed_by, lex, lex_from, next_token, remaining, word_run,
};
use crate::pieces::{lemma_stands_split, stands};
use crate::spelling::written;
use crate::text::{
    decimal_digits, digit_char, digit_value, digits_value, is_digit, is_letter, is_space,
    is_word_char,
};
use crate::token::{keyword, SpecToken};

verus! {

/// A run of digits ends within the source.
pub proof fn lemma_digit_run_bounded(source: Seq<char>, from: int)
    requires
        0 <= from <= source.len(),
    ensures
        from + digit_run(source, from) <= source.len(),
    decreases source.len() - from,
{
    if from < source.len() && is_digit(source[from]) {
        lemma_digit_run_bounded(source, from + 1);
    }
}

/// A run of word characters ends within the source.
pub proof fn lemma_word_run_bounded(source: Seq<char>, from: int)
    requires
        0 <= from <= source.len(),
    ensures
        from + word_run(source, from) <= source.len(),
    decreases source.len() - from,
{
    if from < source.len() && is_word_char(source[from]) {
        lemma_word_run_bounded(source, from + 1);
    }
}

/// Every token that the lexer reads lies within the source and spans at
/// least one character. A token other than an integer literal is spelled
/// exactly as the characters it was read from; an integer literal has the
/// value that its digits denote.
pub proof fn lemma_token_is_its_text(source: Seq<char>, at: int)
    requires
        0 <= at < source.len(),
    ensures
        next_token(source, at) matches Ok((token, length)) ==> {
            &&& 1 <= length
            &&& at + length <= source.len()
            &&& !(token is Integer) ==> token.spelling() == source.subrange(at, at + length)
            &&& token matches SpecToken::Integer(value) ==> value == digits_value(
                source.subrange(at, at + length),
            )
        },
{
    lemma_digit_run_bounded(source, at + 1);
    lemma_word_run_bounded(source, at + 1);
    if let Ok((token, length)) = next_token(source, at) {
        let text = source.subrange(at, at + length);
        let c = source[at];
        if is_digit(c) {
        } else if is_letter(c) {
        } else {
            assert(text.len() == length);
            assert(text[0] == c);
            if length == 2 {
                assert(text[1] == source[at + 1]);
            }
            assert(token.spelling() =~= text);
        }
    }
}

/// Whatever the source, the lexer gives tokens or a lexical error.
pub proof fn lemma_lex_errors_are_lexical(source: Seq<char>, at: int)
    ensures
        lex_from(source, at) matches Err(error) ==> error.is_lexical(),
        at == 0 ==> (lex(source) matches Err(error) ==> error.is_lexical()),
    decreases remaining(source, at),
{
    if 0 <= at < source.len() {
        if is_space(source[at]) {
            lemma_lex_errors_are_lexical(source, at + 1);
        } else if let Ok((token, length)) = next_token(source, at) {
            lemma_lex_errors_are_lexical(source, at + length);
        }
    }
}

/// A word of characters that are all word characters runs to the end of the
/// source.
proof fn lemma_word_run_all(source: Seq<char>, from: int)
    requires
        0 <= from <= source.len(),
        forall|i: int| from <= i < source.len() ==> is_word_char(#[trigger] source[i]),
    ensures
        word_run(source, from) == source.len() - from,
    decreases source.len() - from,
{
    if from < source.len() {
        lemma_word_run_all(source, from + 1);
    }
}

/// The text of a marker is one token: the marker.
proof fn lemma_single_token(text: Seq<char>, token: SpecToken)
    requires
        text.len() > 0,
        !is_space(text[0]),
        next_token(text, 0) == Ok::<(SpecToken, nat), SpecError>((token, text.len())),
    ensures
        lex(text) == Ok::<Seq<SpecToken>, SpecError>(seq![token]),
{
    assert(lex_from(text, text.len() as int) == Ok::<Seq<SpecToken>, SpecError>(Seq::empty()));
    assert(seq![token] + Seq::<SpecToken>::empty() =~= seq![token]);
}

/// A keyword's text is read as that keyword.
proof fn lemma_keyword_round_trip(token: SpecToken)
    requires
        token is If || token is Else || token is Let || token is True || token is False,
    ensures
        lex(token.spelling()) == Ok::<Seq<SpecToken>, SpecError>(seq![token]),
{
    let text = token.spelling();
    assert(text.len() >= 2);
    assert(is_letter(text[0]));
    assert forall|i: int| 1 <= i < text.len() implies is_word_char(#[trigger] text[i]) by {}
    lemma_word_run_all(text, 1);
    assert(text.subrange(0, text.len() as int) =~= text);
    assert(SpecToken::If.spelling().len() == 2);
    assert(SpecToken::Else.spelling().len() == 4);
    assert(SpecToken::Let.spelling().len() == 3);
    assert(SpecToken::True.spelling().len() == 4);
    assert(SpecToken::False.spelling().len() == 5);
    assert(SpecToken::Else.spelling()[0] == 'e');
    assert(SpecToken::True.spelling()[0] == 't');
    assert(keyword(text) == Some(token));
    lemma_single_token(text, token);
}

/// Tokenizing the spelling of a token without payload gives back that one
/// token; and, by [`lemma_token_is_its_text`], such a token is spelled as
/// the text it was read from. So tokenizing and then spelling reproduces the
/// text of every keyword, operator and punctuation mark.
pub proof fn lemma_marker_round_trip(token: SpecToken)
    requires
        token.is_marker(),
    ensures
        lex(token.spelling()) == Ok::<Seq<SpecToken>, SpecError>(seq![token]),
{
    let text = token.spelling();
    if token is If || token is Else || token is Let || token is True || token is False {
        lemma_keyword_round_trip(token);
    } else {
        assert(text.len() == 1 || text.len() == 2);
        assert(!is_space(text[0]));
        if text.len() == 2 {
            assert(followed_by(text, 0, text[1]));
        } else {
            assert(!followed_by(text, 0, '='));
        }
        assert(next_token(text, 0) == Ok::<(SpecToken, nat), SpecError>((token, text.len())));
        lemma_single_token(text, token);
    }
}

/// The decimal numeral of a number consists of digits, at least one, and
/// denotes that number.
pub proof fn lemma_decimal_digits(n: nat)
    ensures
        decimal_digits(n).len() >= 1,
        forall|i: int|
            0 <= i < decimal_digits(n).len() ==> is_digit(#[trigger] decimal_digits(n)[i]),
        digits_value(decimal_digits(n)) == n,
    decreases n,
{
    let numeral = decimal_digits(n);
    if n < 10 {
        assert(is_digit(digit_char(n as int)));
        assert(digit_value(digit_char(n as int)) == n);
        assert(numeral.drop_last() =~= Seq::empty());
        assert(digits_value(numeral.drop_last()) == 0);
    } else {
        lemma_decimal_digits(n / 10);
        let digit = digit_char((n % 10) as int);
        assert(is_digit(digit));
        assert(digit_value(digit) == n % 10);
        assert(numeral.drop_last() =~= decimal_digits(n / 10));
        assert(numeral.last() == digit);
    }
}

/// Digits that stand in the source up to a character that is no digit, or
/// up to the end, are one run.
proof fn lemma_digit_run_exact(source: Seq<char>, from: int, count: nat)
    requires
        0 <= from,
        from + count <= source.len(),
        forall|i: int| from <= i < from + count ==> is_digit(#[trigger] source[i]),
        from + count < source.len() ==> !is_digit(source[from + count]),
    ensures
        digit_run(source, from) == count,
    decreases count,
{
    if count > 0 {
        lemma_digit_run_exact(source, from + 1, (count - 1) as nat);
    }
}

/// Word characters that stand in the source up to a character that is none,
/// or up to the end, are one run.
proof fn lemma_word_run_exact(source: Seq<char>, from: int, count: nat)
    requires
        0 <= from,
        from + count <= source.len(),
        forall|i: int| from <= i < from + count ==> is_word_char(#[trigger] source[i]),
        from + count < source.len() ==> !is_word_char(source[from + count]),
    ensures
        word_run(source, from) == count,
    decreases count,
{
    if count > 0 {
        lemma_word_run_exact(source, from + 1, (count - 1) as nat);
    }
}

/// Where the spelling of a token that the lexer can give stands in the
/// source, followed by a space, the lexer reads that token.
pub proof fn lemma_reads_token(source: Seq<char>, at: int, token: SpecToken)
    requires
        token.is_readable(),
        stands(source, at, token.spelling() + seq![' ']),
    ensures
        token.spelling().len() >= 1,
        !is_space(source[at]),
        source[at + token.spelling().len()] == ' ',
        next_token(source, at) == Ok::<(SpecToken, nat), SpecError>(
            (token, token.spelling().len()),
        ),
{
    let text = token.spelling();
    let length = text.len();
    lemma_stands_split(source, at, text, seq![' ']);
    assert(source[at + length] == seq![' '][0]);
    match token {
        SpecToken::Integer(value) => {
            lemma_decimal_digits(value as nat);
            assert(source[at] == text[0]);
            assert forall|i: int| at + 1 <= i < at + length implies is_digit(
                #[trigger] source[i],
            ) by {
                assert(source[i] == text[i - at]);
            }
            lemma_digit_run_exact(source, at + 1, (length - 1) as nat);
            assert(source.subrange(at, at + length) =~= text);
        },
        SpecToken::Ident(name) => {
            assert(source[at] == text[0]);
            assert forall|i: int| at + 1 <= i < at + length implies is_word_char(
                #[trigger] source[i],
            ) by {
                assert(source[i] == text[i - at]);
            }
            lemma_word_run_exact(source, at + 1, (length - 1) as nat);
            assert(source.subrange(at, at + length) =~= text);
        },
        _ => {
            assert(source[at] == text[0]);
            if token is If || token is Else || token is Let || token is True || token is False {
                assert forall|i: int| at + 1 <= i < at + length implies is_word_char(
                    #[trigger] source[i],
                ) by {
                    assert(source[i] == text[i - at]);
                }
                lemma_word_run_exact(source, at + 1, (length - 1) as nat);
                assert(source.subrange(at, at + length) =~= text);
                assert(SpecToken::If.spelling().len() == 2);
                assert(SpecToken::Else.spelling().len() == 4);
                assert(SpecToken::Let.spelling().len() == 3);
                assert(SpecToken::True.spelling().len() == 4);
                assert(SpecToken::False.spelling().len() == 5);
                assert(SpecToken::Else.spelling()[0] == 'e');
                assert(SpecToken::True.spelling()[0] == 't');
                assert(keyword(text) == Some(token));
            } else {
                if length == 2 {
                    assert(source[at + 1] == text[1]);
                }
            }
        },
    }
}

/// Where the text of tokens that the lexer can give stands at the end of
/// the source, the lexer reads those tokens.
pub proof fn lemma_reads_written(source: Seq<char>, at: int, tokens: Seq<SpecToken>)
    requires
        forall|i: int| 0 <= i < tokens.len() ==> (#[trigger] tokens[i]).is_readable(),
        stands(source, at, written(tokens)),
        at + written(tokens).len() == source.len(),
    ensures
        lex_from(source, at) == Ok::<Seq<SpecToken>, SpecError>(tokens),
    decreases tokens.len(),
{
    if tokens.len() == 0 {
        assert(tokens =~= Seq::empty());
    } else {
        let token = tokens[0];
        let rest = tokens.drop_first();
        let text = token.spelling();
        assert(written(tokens) == text + seq![' '] + written(rest));
        lemma_stands_split(source, at, text + seq![' '], written(rest));
        lemma_reads_token(source, at, token);
        assert forall|i: int| 0 <= i < rest.len() implies (#[trigger] rest[i]).is_readable() by {
            assert(rest[i] == tokens[i + 1]);
        }
        lemma_reads_written(source, at + text.len() + 1, rest);
        assert(is_space(source[at + text.len()]));
        assert(lex_from(source, at + text.len()) == lex_from(source, at + text.len() + 1));
        assert(seq![token] + rest =~= tokens);
    }
}

/// Written as text and tokenized again, tokens are themselves, if they are
/// such as the lexer can give: integer literals that are not negative,
/// identifiers that are words, and all the markers.
pub proof fn lemma_text_round_trip(tokens: Seq<SpecToken>)
    requires
        forall|i: int| 0 <= i < tokens.len() ==> (#[trigger] tokens[i]).is_readable(),
    ensures
        lex(written(tokens)) == Ok::<Seq<SpecToken>, SpecError>(tokens),
{
    lemma_reads_written(written(tokens), 0, tokens);
}

} // verus!
