//! The lexer: splits a source text into tokens that cover it from the first
//! byte to the last, followed by an end-of-file token.
use vstd::prelude::*;
use vstd::utf8::*;
use crate::source::SourceText;
use crate::span::Span;
use crate::syntax::kind::SyntaxKind;
use crate::syntax::token::SyntaxToken;
use crate::text::{
    byte_len, char_at, char_offset, lemma_char_offset_end, lemma_char_offset_is_boundary,
    lemma_char_offset_monotone, lemma_char_offset_step, lemma_encode_injective,
    lemma_encode_subrange, str_equal, substr, utf8_width,
};

verus! {

/// Characters with the Unicode `White_Space` property.
pub open spec fn is_white_space_char(c: char) -> bool {
    let v = c as u32;
    ||| 0x09 <= v <= 0x0d
    ||| v == 0x20
    ||| v == 0x85
    ||| v == 0xa0
    ||| v == 0x1680
    ||| 0x2000 <= v <= 0x200a
    ||| v == 0x2028
    ||| v == 0x2029
    ||| v == 0x202f
    ||| v == 0x205f
    ||| v == 0x3000
}

pub open spec fn is_ascii_digit_char(c: char) -> bool {
    '0' <= c <= '9'
}

pub open spec fn is_ascii_letter_char(c: char) -> bool {
    ('a' <= c <= 'z') || ('A' <= c <= 'Z')
}

/// Characters that may start an identifier.
pub open spec fn is_identifier_start_char(c: char) -> bool {
    is_ascii_letter_char(c) || c == '_'
}

/// Characters that may continue an identifier.
pub open spec fn is_identifier_continue_char(c: char) -> bool {
    is_ascii_letter_char(c) || is_ascii_digit_char(c) || c == '_'
}

/// The classes of characters that the lexer consumes in runs.
pub enum CharClass {
    WhiteSpace,
    Digit,
    IdentifierContinue,
}

pub open spec fn in_class(class: CharClass, c: char) -> bool {
    match class {
        CharClass::WhiteSpace => is_white_space_char(c),
        CharClass::Digit => is_ascii_digit_char(c),
        CharClass::IdentifierContinue => is_identifier_continue_char(c),
    }
}

/// Length of the run of characters of `class` that starts at index `k`.
pub open spec fn run_len(t: Seq<char>, k: int, class: CharClass) -> nat
    decreases t.len() - k,
{
    if 0 <= k < t.len() && in_class(class, t[k]) {
        1 + run_len(t, k + 1, class)
    } else {
        0
    }
}

/// Number of characters from index `k` up to and including the next `"`,
/// or to the end of the text when there is none.
pub open spec fn quoted_len(t: Seq<char>, k: int) -> nat
    decreases t.len() - k,
{
    if 0 <= k < t.len() {
        if t[k] == '"' {
            1
        } else {
            1 + quoted_len(t, k + 1)
        }
    } else {
        0
    }
}

/// The kind of the one-character tokens.
pub open spec fn single_char_kind(c: char) -> Option<SyntaxKind> {
    if c == '(' {
        Some(SyntaxKind::LeftParen)
    } else if c == ')' {
        Some(SyntaxKind::RightParen)
    } else if c == '{' {
        Some(SyntaxKind::LeftBrace)
    } else if c == '}' {
        Some(SyntaxKind::RightBrace)
    } else if c == '[' {
        Some(SyntaxKind::LeftBracket)
    } else if c == ']' {
        Some(SyntaxKind::RightBracket)
    } else if c == ',' {
        Some(SyntaxKind::Comma)
    } else if c == ':' {
        Some(SyntaxKind::Colon)
    } else if c == ';' {
        Some(SyntaxKind::Semicolon)
    } else if c == '.' {
        Some(SyntaxKind::Dot)
    } else if c == '+' {
        Some(SyntaxKind::Plus)
    } else if c == '-' {
        Some(SyntaxKind::Minus)
    } else if c == '*' {
        Some(SyntaxKind::Star)
    } else if c == '/' {
        Some(SyntaxKind::Slash)
    } else {
        None
    }
}

/// The kind of an identifier-shaped word: a keyword or a plain identifier.
pub open spec fn keyword_kind(word: Seq<char>) -> SyntaxKind {
    if word == "indicator"@ {
        SyntaxKind::KeywordIndicator
    } else if word == "if"@ {
        SyntaxKind::KeywordIf
    } else if word == "else"@ {
        SyntaxKind::KeywordElse
    } else if word == "while"@ {
        SyntaxKind::KeywordWhile
    } else if word == "return"@ {
        SyntaxKind::KeywordReturn
    } else {
        SyntaxKind::Identifier
    }
}

/// Kind and length (in characters) of the token that starts at index `k`.
pub open spec fn token_at(t: Seq<char>, k: int) -> (SyntaxKind, nat) {
    let c = t[k];
    if c == ' ' || c == '\t' || c == '\r' || c == '\n' {
        (SyntaxKind::Whitespace, 1 + run_len(t, k + 1, CharClass::WhiteSpace))
    } else if single_char_kind(c) is Some {
        (single_char_kind(c)->0, 1)
    } else if c == '=' {
        if k + 1 < t.len() && t[k + 1] == '=' {
            (SyntaxKind::EqualEqual, 2)
        } else {
            (SyntaxKind::Equal, 1)
        }
    } else if c == '!' {
        if k + 1 < t.len() && t[k + 1] == '=' {
            (SyntaxKind::BangEqual, 2)
        } else {
            (SyntaxKind::Bang, 1)
        }
    } else if is_ascii_digit_char(c) {
        (SyntaxKind::IntegerLiteral, 1 + run_len(t, k + 1, CharClass::Digit))
    } else if is_identifier_start_char(c) {
        let n = 1 + run_len(t, k + 1, CharClass::IdentifierContinue);
        (keyword_kind(t.subrange(k, k + n)), n)
    } else if c == '"' {
        (SyntaxKind::StringLiteral, 1 + quoted_len(t, k + 1))
    } else {
        (SyntaxKind::Unknown, 1)
    }
}

/// The tokens of `t` from character index `k` on, each as
/// (kind, start offset, end offset), ending with the end-of-file token.
/// (Every token is at least one character long and ends within the text,
/// see `lemma_token_at_len`; the test on `n` only lets the definition
/// terminate.)
pub open spec fn lex_from(t: Seq<char>, k: int) -> Seq<(SyntaxKind, int, int)>
    decreases t.len() - k,
{
    if 0 <= k < t.len() {
        let n = token_at(t, k).1;
        if n > 0 && k + n <= t.len() {
            seq![(token_at(t, k).0, char_offset(t, k) as int, char_offset(t, k + n) as int)]
                + lex_from(t, k + n)
        } else {
            Seq::empty()
        }
    } else {
        let end = char_offset(t, t.len() as int) as int;
        seq![(SyntaxKind::EndOfFile, end, end)]
    }
}

/// The tokens of a whole text.
pub open spec fn lex_tokens(t: Seq<char>) -> Seq<(SyntaxKind, int, int)> {
    lex_from(t, 0)
}

proof fn lemma_run_len_bound(t: Seq<char>, k: int, class: CharClass)
    requires
        0 <= k <= t.len(),
    ensures
        k + run_len(t, k, class) <= t.len(),
    decreases t.len() - k,
{
    if k < t.len() {
        lemma_run_len_bound(t, k + 1, class);
    }
}

proof fn lemma_quoted_len_bound(t: Seq<char>, k: int)
    requires
        0 <= k <= t.len(),
    ensures
        k + quoted_len(t, k) <= t.len(),
    decreases t.len() - k,
{
    if k < t.len() {
        lemma_quoted_len_bound(t, k + 1);
    }
}

/// Every token is at least one character long and stays within the text.
pub proof fn lemma_token_at_len(t: Seq<char>, k: int)
    requires
        0 <= k < t.len(),
    ensures
        1 <= token_at(t, k).1,
        k + token_at(t, k).1 <= t.len(),
{
    lemma_run_len_bound(t, k + 1, CharClass::WhiteSpace);
    lemma_run_len_bound(t, k + 1, CharClass::Digit);
    lemma_run_len_bound(t, k + 1, CharClass::IdentifierContinue);
    lemma_quoted_len_bound(t, k + 1);
}

/// Tokens from character `k` on start at the offset of `k`, follow one another
/// without gaps, and end with the end-of-file token at the end of the text.
pub proof fn lemma_lex_from_covers(t: Seq<char>, k: int)
    requires
        0 <= k <= t.len(),
    ensures
        lex_from(t, k).len() >= 1,
        lex_from(t, k)[0].1 == char_offset(t, k),
        lex_from(t, k).last() == (SyntaxKind::EndOfFile, byte_len(t) as int, byte_len(t) as int),
        forall|i: int|
            0 <= i < lex_from(t, k).len() - 1 ==> {
                &&& (#[trigger] lex_from(t, k)[i]).2 == lex_from(t, k)[i + 1].1
                &&& lex_from(t, k)[i].1 < lex_from(t, k)[i].2
                &&& lex_from(t, k)[i].0 != SyntaxKind::EndOfFile
            },
    decreases t.len() - k,
{
    lemma_char_offset_end(t);
    if k < t.len() {
        lemma_token_at_len(t, k);
        let n = token_at(t, k).1;
        lemma_char_offset_monotone(t, k, k + n);
        lemma_lex_from_covers(t, k + n);
        let rest = lex_from(t, k + n);
        let head = (token_at(t, k).0, char_offset(t, k) as int, char_offset(t, k + n) as int);
        assert(lex_from(t, k) == seq![head] + rest);
        assert forall|i: int| 0 <= i < lex_from(t, k).len() - 1 implies {
            &&& (#[trigger] lex_from(t, k)[i]).2 == lex_from(t, k)[i + 1].1
            &&& lex_from(t, k)[i].1 < lex_from(t, k)[i].2
            &&& lex_from(t, k)[i].0 != SyntaxKind::EndOfFile
        } by {
            if i > 0 {
                assert(lex_from(t, k)[i] == rest[i - 1]);
                assert(lex_from(t, k)[i + 1] == rest[i]);
            }
        }
    }
}

/// The tokens of a text cover it: the first token starts at offset 0, every
/// token ends where the next one starts and covers at least one byte, and
/// the only end-of-file token is the last one, empty, at the end of the text.
pub proof fn law_tokens_cover_text(t: Seq<char>)
    ensures
        lex_tokens(t).len() >= 1,
        lex_tokens(t)[0].1 == 0,
        lex_tokens(t).last() == (SyntaxKind::EndOfFile, byte_len(t) as int, byte_len(t) as int),
        forall|i: int|
            0 <= i < lex_tokens(t).len() - 1 ==> {
                &&& (#[trigger] lex_tokens(t)[i]).2 == lex_tokens(t)[i + 1].1
                &&& lex_tokens(t)[i].1 < lex_tokens(t)[i].2
                &&& lex_tokens(t)[i].0 != SyntaxKind::EndOfFile
            },
{
    lemma_lex_from_covers(t, 0);
    assert(t.take(0) =~= Seq::<char>::empty());
    assert(encode_utf8(Seq::<char>::empty()) =~= Seq::<u8>::empty());
}

/// A run of characters of `class` is maximal: every character in it is of the
/// class, and the character right after it, if any, is not.
proof fn lemma_run_len_maximal(t: Seq<char>, k: int, class: CharClass)
    requires
        0 <= k <= t.len(),
    ensures
        k + run_len(t, k, class) <= t.len(),
        forall|x: int| k <= x < k + run_len(t, k, class) ==> in_class(class, #[trigger] t[x]),
        k + run_len(t, k, class) == t.len() || !in_class(class, t[k + run_len(t, k, class)]),
    decreases t.len() - k,
{
    if k < t.len() && in_class(class, t[k]) {
        lemma_run_len_maximal(t, k + 1, class);
    }
}

/// Character offsets are injective on the character positions of a text.
proof fn lemma_char_offset_injective(t: Seq<char>, j: int, a: int)
    requires
        0 <= j <= t.len(),
        0 <= a <= t.len(),
        char_offset(t, j) == char_offset(t, a),
    ensures
        j == a,
{
    if j < a {
        lemma_char_offset_monotone(t, j, a);
    } else if a < j {
        lemma_char_offset_monotone(t, a, j);
    }
}

/// The token at index `i` of `lex_from(t, k)`, other than the end-of-file
/// token, is the token that starts at some character index `a` from `k` on.
proof fn lemma_lex_from_entry(t: Seq<char>, k: int, i: int) -> (a: int)
    requires
        0 <= k <= t.len(),
        0 <= i < lex_from(t, k).len() - 1,
    ensures
        k <= a < t.len(),
        a + token_at(t, a).1 <= t.len(),
        lex_from(t, k)[i] == (
            token_at(t, a).0,
            char_offset(t, a) as int,
            char_offset(t, a + token_at(t, a).1) as int,
        ),
    decreases i,
{
    if k == t.len() {
        assert(lex_from(t, k).len() == 1);
    }
    lemma_token_at_len(t, k);
    let n = token_at(t, k).1;
    let rest = lex_from(t, k + n);
    let head = (token_at(t, k).0, char_offset(t, k) as int, char_offset(t, k + n) as int);
    assert(lex_from(t, k) == seq![head] + rest);
    if i == 0 {
        k
    } else {
        assert(lex_from(t, k)[i] == rest[i - 1]);
        lemma_lex_from_entry(t, k + n, i - 1)
    }
}

/// The token at index `i` of the tokens of `t`, other than the end-of-file
/// token, is the token that starts at its first character `j`: `j` is the
/// character whose offset the token starts at, and it ends at the offset of
/// character `m` exactly when `m` is `j` plus the token's length.
proof fn lemma_token_entry(t: Seq<char>, i: int, j: int, m: int)
    requires
        0 <= i < lex_tokens(t).len(),
        lex_tokens(t)[i].0 != SyntaxKind::EndOfFile,
        0 <= j <= t.len(),
        0 <= m <= t.len(),
        char_offset(t, j) == lex_tokens(t)[i].1,
        char_offset(t, m) == lex_tokens(t)[i].2,
    ensures
        j < t.len(),
        m == j + token_at(t, j).1,
        lex_tokens(t)[i].0 == token_at(t, j).0,
{
    law_tokens_cover_text(t);
    let a = lemma_lex_from_entry(t, 0, i);
    lemma_char_offset_injective(t, j, a);
    lemma_char_offset_injective(t, m, a + token_at(t, a).1);
}

/// Every token lies on character boundaries: its start and end offsets are
/// the offsets of character positions `j <= m` of the text.
pub proof fn law_token_bounds_are_char_offsets(t: Seq<char>, i: int) -> (r: (int, int))
    requires
        0 <= i < lex_tokens(t).len(),
    ensures
        0 <= r.0 <= r.1 <= t.len(),
        char_offset(t, r.0) == lex_tokens(t)[i].1,
        char_offset(t, r.1) == lex_tokens(t)[i].2,
{
    law_tokens_cover_text(t);
    lemma_char_offset_end(t);
    if i == lex_tokens(t).len() - 1 {
        (t.len() as int, t.len() as int)
    } else {
        let a = lemma_lex_from_entry(t, 0, i);
        (a, a + token_at(t, a).1)
    }
}

/// An integer literal is a whole run of ASCII digits: when the token at
/// index `i` spans the characters `j..m`, each of them is a digit and the
/// character at `m`, if there is one, is not, so no integer literal is
/// followed by a digit.
pub proof fn law_integer_literal_is_maximal_digit_run(t: Seq<char>, i: int, j: int, m: int)
    requires
        0 <= i < lex_tokens(t).len(),
        lex_tokens(t)[i].0 == SyntaxKind::IntegerLiteral,
        0 <= j <= t.len(),
        0 <= m <= t.len(),
        char_offset(t, j) == lex_tokens(t)[i].1,
        char_offset(t, m) == lex_tokens(t)[i].2,
    ensures
        j < m,
        forall|x: int| j <= x < m ==> is_ascii_digit_char(#[trigger] t[x]),
        m == t.len() || !is_ascii_digit_char(t[m]),
{
    lemma_token_entry(t, i, j, m);
    lemma_run_len_maximal(t, j + 1, CharClass::Digit);
    assert(is_ascii_digit_char(t[j]));
}

/// The token at index `i` of the tokens of `t` spans the characters `j..m`:
/// it starts at the offset of character `j` and ends at that of character `m`.
pub open spec fn token_spans(t: Seq<char>, i: int, j: int, m: int) -> bool {
    &&& 0 <= i < lex_tokens(t).len()
    &&& 0 <= j <= t.len()
    &&& 0 <= m <= t.len()
    &&& char_offset(t, j) == lex_tokens(t)[i].1
    &&& char_offset(t, m) == lex_tokens(t)[i].2
}

/// A whitespace token starts with a space, tab, carriage return or line feed
/// and takes the whole run of `White_Space` characters that follows: the
/// character after it, if any, is not white space.
pub proof fn law_whitespace_token_is_maximal_run(t: Seq<char>, i: int, j: int, m: int)
    requires
        token_spans(t, i, j, m),
        lex_tokens(t)[i].0 == SyntaxKind::Whitespace,
    ensures
        j < m,
        t[j] == ' ' || t[j] == '\t' || t[j] == '\r' || t[j] == '\n',
        forall|x: int| j <= x < m ==> is_white_space_char(#[trigger] t[x]),
        m == t.len() || !is_white_space_char(t[m]),
{
    lemma_token_entry(t, i, j, m);
    lemma_run_len_maximal(t, j + 1, CharClass::WhiteSpace);
}

/// Identifiers and keywords are whole words: the token starts with a letter or
/// `_`, every character of it is a letter, digit or `_`, and the character
/// after it, if any, is not. A word is a keyword exactly when it is spelled as
/// one, and an identifier otherwise.
pub proof fn law_word_token_is_maximal_word(t: Seq<char>, i: int, j: int, m: int)
    requires
        token_spans(t, i, j, m),
        lex_tokens(t)[i].0 == SyntaxKind::Identifier || lex_tokens(t)[i].0 == SyntaxKind::KeywordIndicator || lex_tokens(t)[i].0 == SyntaxKind::KeywordIf || lex_tokens(t)[i].0 == SyntaxKind::KeywordElse || lex_tokens(t)[i].0 == SyntaxKind::KeywordWhile || lex_tokens(t)[i].0 == SyntaxKind::KeywordReturn,
    ensures
        j < m,
        is_identifier_start_char(t[j]),
        forall|x: int| j <= x < m ==> is_identifier_continue_char(#[trigger] t[x]),
        m == t.len() || !is_identifier_continue_char(t[m]),
        lex_tokens(t)[i].0 == SyntaxKind::KeywordIndicator <==> t.subrange(j, m) == "indicator"@,
        lex_tokens(t)[i].0 == SyntaxKind::KeywordIf <==> t.subrange(j, m) == "if"@,
        lex_tokens(t)[i].0 == SyntaxKind::KeywordElse <==> t.subrange(j, m) == "else"@,
        lex_tokens(t)[i].0 == SyntaxKind::KeywordWhile <==> t.subrange(j, m) == "while"@,
        lex_tokens(t)[i].0 == SyntaxKind::KeywordReturn <==> t.subrange(j, m) == "return"@,
{
    lemma_token_entry(t, i, j, m);
    lemma_run_len_maximal(t, j + 1, CharClass::IdentifierContinue);
    reveal_strlit("indicator");
    reveal_strlit("if");
    reveal_strlit("else");
    reveal_strlit("while");
    reveal_strlit("return");
    assert("indicator"@.len() == 9);
    assert("if"@.len() == 2);
    assert("else"@.len() == 4);
    assert("while"@.len() == 5);
    assert("return"@.len() == 6);
    assert(t.subrange(j, m) == t.subrange(j, j + token_at(t, j).1));
}

/// Length of the run from `k` up to and including the next `"`: no character
/// before its last one is a `"`, and it stops before the end of the text only
/// on a `"`.
proof fn lemma_quoted_len_scan(t: Seq<char>, k: int)
    requires
        0 <= k <= t.len(),
    ensures
        k + quoted_len(t, k) <= t.len(),
        forall|x: int| k <= x < k + quoted_len(t, k) - 1 ==> #[trigger] t[x] != '"',
        k + quoted_len(t, k) < t.len() ==> quoted_len(t, k) > 0 && t[k + quoted_len(t, k) - 1]
            == '"',
    decreases t.len() - k,
{
    if k < t.len() && t[k] != '"' {
        lemma_quoted_len_scan(t, k + 1);
    }
}

/// A string literal starts with `"` and runs to the next `"`, which it
/// includes; a literal that is not closed runs to the end of the text.
pub proof fn law_string_literal_token_runs_to_closing_quote(t: Seq<char>, i: int, j: int, m: int)
    requires
        token_spans(t, i, j, m),
        lex_tokens(t)[i].0 == SyntaxKind::StringLiteral,
    ensures
        j < m,
        t[j] == '"',
        forall|x: int| j < x < m - 1 ==> #[trigger] t[x] != '"',
        m == t.len() || (j + 1 < m && t[m - 1] == '"'),
{
    lemma_token_entry(t, i, j, m);
    lemma_quoted_len_scan(t, j + 1);
}

/// `=` and `!` make a two-character token with an `=` right after them, and
/// a one-character token otherwise.
pub proof fn law_operator_tokens_take_following_equal(t: Seq<char>, i: int, j: int, m: int)
    requires
        token_spans(t, i, j, m),
    ensures
        lex_tokens(t)[i].0 == SyntaxKind::EqualEqual ==> m == j + 2 && t[j] == '=' && t[j + 1] == '=',
        lex_tokens(t)[i].0 == SyntaxKind::Equal ==> m == j + 1 && t[j] == '=' && (m == t.len()
            || t[m] != '='),
        lex_tokens(t)[i].0 == SyntaxKind::BangEqual ==> m == j + 2 && t[j] == '!' && t[j + 1] == '=',
        lex_tokens(t)[i].0 == SyntaxKind::Bang ==> m == j + 1 && t[j] == '!' && (m == t.len()
            || t[m] != '='),
{
    law_tokens_cover_text(t);
    if lex_tokens(t)[i].0 != SyntaxKind::EndOfFile {
        lemma_token_entry(t, i, j, m);
    }
}

/// Each punctuation token is its one character; a token of unknown kind is one
/// character that starts no other token.
pub proof fn law_single_character_tokens(t: Seq<char>, i: int, j: int, m: int)
    requires
        token_spans(t, i, j, m),
    ensures
        lex_tokens(t)[i].0 == SyntaxKind::LeftParen ==> m == j + 1 && t[j] == '(',
        lex_tokens(t)[i].0 == SyntaxKind::RightParen ==> m == j + 1 && t[j] == ')',
        lex_tokens(t)[i].0 == SyntaxKind::LeftBrace ==> m == j + 1 && t[j] == '{',
        lex_tokens(t)[i].0 == SyntaxKind::RightBrace ==> m == j + 1 && t[j] == '}',
        lex_tokens(t)[i].0 == SyntaxKind::LeftBracket ==> m == j + 1 && t[j] == '[',
        lex_tokens(t)[i].0 == SyntaxKind::RightBracket ==> m == j + 1 && t[j] == ']',
        lex_tokens(t)[i].0 == SyntaxKind::Comma ==> m == j + 1 && t[j] == ',',
        lex_tokens(t)[i].0 == SyntaxKind::Colon ==> m == j + 1 && t[j] == ':',
        lex_tokens(t)[i].0 == SyntaxKind::Semicolon ==> m == j + 1 && t[j] == ';',
        lex_tokens(t)[i].0 == SyntaxKind::Dot ==> m == j + 1 && t[j] == '.',
        lex_tokens(t)[i].0 == SyntaxKind::Plus ==> m == j + 1 && t[j] == '+',
        lex_tokens(t)[i].0 == SyntaxKind::Minus ==> m == j + 1 && t[j] == '-',
        lex_tokens(t)[i].0 == SyntaxKind::Star ==> m == j + 1 && t[j] == '*',
        lex_tokens(t)[i].0 == SyntaxKind::Slash ==> m == j + 1 && t[j] == '/',
        lex_tokens(t)[i].0 == SyntaxKind::Unknown ==> {
            &&& m == j + 1
            &&& t[j] != ' ' && t[j] != '\t' && t[j] != '\r' && t[j] != '\n'
            &&& t[j] != '=' && t[j] != '!' && t[j] != '"'
            &&& !is_ascii_digit_char(t[j]) && !is_identifier_start_char(t[j])
            &&& t[j] != '(' && t[j] != ')' && t[j] != '{' && t[j] != '}' && t[j] != '[' && t[j] != ']' && t[j] != ','
            &&& t[j] != ':' && t[j] != ';' && t[j] != '.' && t[j] != '+' && t[j] != '-' && t[j] != '*' && t[j] != '/'
        },
{
    law_tokens_cover_text(t);
    if lex_tokens(t)[i].0 != SyntaxKind::EndOfFile {
        lemma_token_entry(t, i, j, m);
    }
}

fn char_is_white_space(c: char) -> (r: bool)
    ensures
        r == is_white_space_char(c),
{
    let v = c as u32;
    (0x09 <= v && v <= 0x0d) || v == 0x20 || v == 0x85 || v == 0xa0 || v == 0x1680 || (0x2000
        <= v && v <= 0x200a) || v == 0x2028 || v == 0x2029 || v == 0x202f || v == 0x205f || v
        == 0x3000
}

fn char_is_ascii_digit(c: char) -> (r: bool)
    ensures
        r == is_ascii_digit_char(c),
{
    '0' <= c && c <= '9'
}

fn is_identifier_start(ch: char) -> (r: bool)
    ensures
        r == is_identifier_start_char(ch),
{
    ('a' <= ch && ch <= 'z') || ('A' <= ch && ch <= 'Z') || ch == '_'
}

fn is_identifier_continue(ch: char) -> (r: bool)
    ensures
        r == is_identifier_continue_char(ch),
{
    ('a' <= ch && ch <= 'z') || ('A' <= ch && ch <= 'Z') || ('0' <= ch && ch <= '9') || ch == '_'
}

/// Splits a source text into tokens.
pub struct Lexer<'a> {
    source: &'a SourceText,
    offset: usize,
    chars_read: Ghost<int>,
}

impl<'a> Lexer<'a> {
    /// The source being lexed.
    pub closed spec fn source_view(self) -> SourceText {
        *self.source
    }

    /// Number of characters consumed so far.
    pub closed spec fn position_view(self) -> int {
        self.chars_read@
    }

    spec fn text(self) -> Seq<char> {
        self.source.text_view()
    }

    #[verifier::type_invariant]
    spec fn inv(self) -> bool {
        &&& 0 <= self.chars_read@ <= self.text().len()
        &&& self.offset == char_offset(self.text(), self.chars_read@)
        &&& encode_utf8(self.text()).len() <= usize::MAX
    }

    /// A lexer positioned at the start of `source`.
    pub fn new(source: &'a SourceText) -> (r: Lexer<'a>)
        ensures
            r.source_view() == *source,
            r.position_view() == 0,
    {
        proof {
            assert(source.text_view().take(0) =~= Seq::<char>::empty());
            assert(encode_utf8(Seq::<char>::empty()) =~= Seq::<u8>::empty());
        }
        let _len = source.len_bytes();
        Lexer { source, offset: 0, chars_read: Ghost(0) }
    }

    /// The tokens of the source from the lexer's position on, then the
    /// end-of-file token. A lexer made by `new` stands at the start, so it
    /// yields `lex_tokens` of the whole text.
    pub fn lex(self) -> (r: Vec<SyntaxToken>)
        ensures
            r@.map_values(|tok: SyntaxToken| tok.token_view()) == lex_from(
                self.source_view().text_view(),
                self.position_view(),
            ),
    {
        let ghost t = self.text();
        let ghost k0 = self.chars_read@;
        let mut lexer = self;
        proof {
            use_type_invariant(&lexer);
        }
        let mut tokens: Vec<SyntaxToken> = Vec::new();
        loop
            invariant
                lexer.text() == t,
                tokens@.map_values(|tok: SyntaxToken| tok.token_view()) + lex_from(
                    t,
                    lexer.chars_read@,
                ) == lex_from(t, k0),
            ensures
                lexer.text() == t,
                lexer.chars_read@ >= t.len(),
                tokens@.map_values(|tok: SyntaxToken| tok.token_view()) + lex_from(
                    t,
                    lexer.chars_read@,
                ) == lex_from(t, k0),
            decreases t.len() - lexer.chars_read@,
        {
            proof { use_type_invariant(&lexer); }
            let ghost k = lexer.chars_read@;
            let ghost before = tokens@.map_values(|tok: SyntaxToken| tok.token_view());
            let ch = match lexer.peek() {
                Some(c) => c,
                None => break,
            };
            let start = lexer.offset;
            proof {
                lemma_token_at_len(t, k);
            }
            let token = match ch {
                ' ' | '\t' | '\r' | '\n' => {
                    lexer.consume_whitespace();
                    lexer.token(start, SyntaxKind::Whitespace, Ghost(k))
                },
                '(' => {
                    lexer.bump();
                    lexer.token(start, SyntaxKind::LeftParen, Ghost(k))
                },
                ')' => {
                    lexer.bump();
                    lexer.token(start, SyntaxKind::RightParen, Ghost(k))
                },
                '{' => {
                    lexer.bump();
                    lexer.token(start, SyntaxKind::LeftBrace, Ghost(k))
                },
                '}' => {
                    lexer.bump();
                    lexer.token(start, SyntaxKind::RightBrace, Ghost(k))
                },
                '[' => {
                    lexer.bump();
                    lexer.token(start, SyntaxKind::LeftBracket, Ghost(k))
                },
                ']' => {
                    lexer.bump();
                    lexer.token(start, SyntaxKind::RightBracket, Ghost(k))
                },
                ',' => {
                    lexer.bump();
                    lexer.token(start, SyntaxKind::Comma, Ghost(k))
                },
                ':' => {
                    lexer.bump();
                    lexer.token(start, SyntaxKind::Colon, Ghost(k))
                },
                ';' => {
                    lexer.bump();
                    lexer.token(start, SyntaxKind::Semicolon, Ghost(k))
                },
                '.' => {
                    lexer.bump();
                    lexer.token(start, SyntaxKind::Dot, Ghost(k))
                },
                '+' => {
                    lexer.bump();
                    lexer.token(start, SyntaxKind::Plus, Ghost(k))
                },
                '-' => {
                    lexer.bump();
                    lexer.token(start, SyntaxKind::Minus, Ghost(k))
                },
                '*' => {
                    lexer.bump();
                    lexer.token(start, SyntaxKind::Star, Ghost(k))
                },
                '/' => {
                    lexer.bump();
                    lexer.token(start, SyntaxKind::Slash, Ghost(k))
                },
                '=' => {
                    lexer.bump();
                    match lexer.peek() {
                        Some('=') => {
                            lexer.bump();
                            lexer.token(start, SyntaxKind::EqualEqual, Ghost(k))
                        },
                        _ => lexer.token(start, SyntaxKind::Equal, Ghost(k)),
                    }
                },
                '!' => {
                    lexer.bump();
                    match lexer.peek() {
                        Some('=') => {
                            lexer.bump();
                            lexer.token(start, SyntaxKind::BangEqual, Ghost(k))
                        },
                        _ => lexer.token(start, SyntaxKind::Bang, Ghost(k)),
                    }
                },
                c if char_is_ascii_digit(c) => {
                    lexer.consume_number();
                    lexer.token(start, SyntaxKind::IntegerLiteral, Ghost(k))
                },
                c if is_identifier_start(c) => {
                    lexer.consume_identifier();
                    let kind = lexer.word_kind(start, Ghost(k));
                    lexer.token(start, kind, Ghost(k))
                },
                '"' => {
                    lexer.bump();
                    lexer.consume_quoted();
                    lexer.token(start, SyntaxKind::StringLiteral, Ghost(k))
                },
                _ => {
                    lexer.bump();
                    lexer.token(start, SyntaxKind::Unknown, Ghost(k))
                },
            };
            proof {
                let n = token_at(t, k).1;
                assert(lexer.chars_read@ == k + n);
                assert(token.token_view() == (token_at(t, k).0, char_offset(t, k) as int, char_offset(t, k + n) as int));
                assert(lex_from(t, k) == seq![token.token_view()] + lex_from(t, k + n));
            }
            tokens.push(token);
            proof {
                assert(tokens@.map_values(|tok: SyntaxToken| tok.token_view()) =~= before.push(token.token_view()));
                assert(before.push(token.token_view()) + lex_from(t, k + token_at(t, k).1)
                    =~= before + lex_from(t, k));
            }
        }
        proof { use_type_invariant(&lexer); lemma_char_offset_end(t); }
        let end = lexer.offset;
        let eof = SyntaxToken::new(SyntaxKind::EndOfFile, Span::new(end, end).unwrap());
        let ghost before = tokens@.map_values(|tok: SyntaxToken| tok.token_view());
        tokens.push(eof);
        proof {
            assert(lexer.chars_read@ == t.len());
            assert(tokens@.map_values(|tok: SyntaxToken| tok.token_view()) =~= before.push(eof.token_view()));
            assert(before.push(eof.token_view()) =~= before + lex_from(t, t.len() as int));
        }
        tokens
    }

    /// The token of `kind` from byte `start` (the offset of character `k`)
    /// to the current offset.
    fn token(&self, start: usize, kind: SyntaxKind, Ghost(k): Ghost<int>) -> (r: SyntaxToken)
        requires
            0 <= k <= self.chars_read@,
            start == char_offset(self.text(), k),
        ensures
            r.token_view() == (kind, char_offset(self.text(), k) as int, char_offset(
                self.text(),
                self.chars_read@,
            ) as int),
    {
        proof {
            use_type_invariant(self);
            lemma_char_offset_monotone(self.text(), k, self.chars_read@);
        }
        SyntaxToken::new(kind, Span::new(start, self.offset).unwrap())
    }

    /// The next character, if any.
    fn peek(&self) -> (r: Option<char>)
        ensures
            r == (if self.chars_read@ < self.text().len() {
                Some(self.text()[self.chars_read@])
            } else {
                None::<char>
            }),
    {
        proof { use_type_invariant(self); }
        char_at(self.source.text(), self.offset, Ghost(self.chars_read@))
    }

    /// Moves past the next character, if any.
    fn bump(&mut self)
        ensures
            final(self).source == old(self).source,
            final(self).chars_read@ == if old(self).chars_read@ < old(self).text().len() {
                old(self).chars_read@ + 1
            } else {
                old(self).chars_read@
            },
    {
        proof { use_type_invariant(&*self); }
        if let Some(ch) = self.peek() {
            proof {
                lemma_char_offset_step(self.text(), self.chars_read@);
                lemma_char_offset_monotone(self.text(), self.chars_read@ + 1, self.text().len() as int);
                lemma_char_offset_end(self.text());
            }
            let offset = self.offset + utf8_width(ch);
            *self = Lexer { source: self.source, offset, chars_read: Ghost(self.chars_read@ + 1) };
        }
    }

    fn consume_whitespace(&mut self)
        ensures
            final(self).source == old(self).source,
            final(self).chars_read@ == old(self).chars_read@ + run_len(
                old(self).text(),
                old(self).chars_read@,
                CharClass::WhiteSpace,
            ),
    {
        let ghost k0 = self.chars_read@;
        let ghost t = self.text();
        loop
            invariant
                self.text() == t,
                self.source == old(self).source,
                k0 <= self.chars_read@,
                run_len(t, k0, CharClass::WhiteSpace) == (self.chars_read@ - k0) + run_len(
                    t,
                    self.chars_read@,
                    CharClass::WhiteSpace,
                ),
            ensures
                self.source == old(self).source,
                self.chars_read@ == k0 + run_len(t, k0, CharClass::WhiteSpace),
            decreases t.len() - self.chars_read@,
        {
            proof { use_type_invariant(&*self); }
            match self.peek() {
                Some(ch) => {
                    if !char_is_white_space(ch) {
                        break;
                    }
                    proof {
                        assert(run_len(t, self.chars_read@, CharClass::WhiteSpace) == 1 + run_len(
                            t,
                            self.chars_read@ + 1,
                            CharClass::WhiteSpace,
                        ));
                    }
                    self.bump();
                },
                None => break,
            }
        }
    }

    fn consume_identifier(&mut self)
        ensures
            final(self).source == old(self).source,
            final(self).chars_read@ == old(self).chars_read@ + run_len(
                old(self).text(),
                old(self).chars_read@,
                CharClass::IdentifierContinue,
            ),
    {
        let ghost k0 = self.chars_read@;
        let ghost t = self.text();
        loop
            invariant
                self.text() == t,
                self.source == old(self).source,
                k0 <= self.chars_read@,
                run_len(t, k0, CharClass::IdentifierContinue) == (self.chars_read@ - k0) + run_len(
                    t,
                    self.chars_read@,
                    CharClass::IdentifierContinue,
                ),
            ensures
                self.source == old(self).source,
                self.chars_read@ == k0 + run_len(t, k0, CharClass::IdentifierContinue),
            decreases t.len() - self.chars_read@,
        {
            proof { use_type_invariant(&*self); }
            match self.peek() {
                Some(ch) => {
                    if !is_identifier_continue(ch) {
                        break;
                    }
                    proof {
                        assert(run_len(t, self.chars_read@, CharClass::IdentifierContinue) == 1 + run_len(
                            t,
                            self.chars_read@ + 1,
                            CharClass::IdentifierContinue,
                        ));
                    }
                    self.bump();
                },
                None => break,
            }
        }
    }

    fn consume_number(&mut self)
        ensures
            final(self).source == old(self).source,
            final(self).chars_read@ == old(self).chars_read@ + run_len(
                old(self).text(),
                old(self).chars_read@,
                CharClass::Digit,
            ),
    {
        let ghost k0 = self.chars_read@;
        let ghost t = self.text();
        loop
            invariant
                self.text() == t,
                self.source == old(self).source,
                k0 <= self.chars_read@,
                run_len(t, k0, CharClass::Digit) == (self.chars_read@ - k0) + run_len(
                    t,
                    self.chars_read@,
                    CharClass::Digit,
                ),
            ensures
                self.source == old(self).source,
                self.chars_read@ == k0 + run_len(t, k0, CharClass::Digit),
            decreases t.len() - self.chars_read@,
        {
            proof { use_type_invariant(&*self); }
            match self.peek() {
                Some(ch) => {
                    if !char_is_ascii_digit(ch) {
                        break;
                    }
                    proof {
                        assert(run_len(t, self.chars_read@, CharClass::Digit) == 1 + run_len(
                            t,
                            self.chars_read@ + 1,
                            CharClass::Digit,
                        ));
                    }
                    self.bump();
                },
                None => break,
            }
        }
    }

    /// Consumes the characters of a string literal after its opening quote,
    /// up to and including the closing quote.
    fn consume_quoted(&mut self)
        ensures
            final(self).source == old(self).source,
            final(self).chars_read@ == old(self).chars_read@ + quoted_len(
                old(self).text(),
                old(self).chars_read@,
            ),
    {
        let ghost k0 = self.chars_read@;
        let ghost t = self.text();
        loop
            invariant_except_break
                quoted_len(t, k0) == (self.chars_read@ - k0) + quoted_len(t, self.chars_read@),
            invariant
                self.text() == t,
                self.source == old(self).source,
                k0 <= self.chars_read@,
            ensures
                self.source == old(self).source,
                self.chars_read@ == k0 + quoted_len(t, k0),
            decreases t.len() - self.chars_read@,
        {
            proof { use_type_invariant(&*self); }
            match self.peek() {
                Some(c) => {
                    self.bump();
                    if c == '"' {
                        break;
                    }
                },
                None => break,
            }
        }
    }

    /// The kind of the identifier-shaped word from byte `start` (the offset
    /// of character `k`) to the current offset.
    fn word_kind(&self, start: usize, Ghost(k): Ghost<int>) -> (r: SyntaxKind)
        requires
            0 <= k <= self.chars_read@,
            start == char_offset(self.text(), k),
        ensures
            r == keyword_kind(self.text().subrange(k, self.chars_read@)),
    {
        proof { use_type_invariant(self); }
        let text = self.source.text();
        proof {
            lemma_char_offset_is_boundary(text@, k);
            lemma_char_offset_is_boundary(text@, self.chars_read@);
            lemma_encode_subrange(text@, k, self.chars_read@);
            lemma_char_offset_end(text@);
            lemma_char_offset_monotone(text@, self.chars_read@, text@.len() as int);
        }
        let word = substr(text, start, self.offset);
        proof {
            lemma_encode_injective(word@, text@.subrange(k, self.chars_read@));
        }
        if str_equal(word, "indicator") {
            SyntaxKind::KeywordIndicator
        } else if str_equal(word, "if") {
            SyntaxKind::KeywordIf
        } else if str_equal(word, "else") {
            SyntaxKind::KeywordElse
        } else if str_equal(word, "while") {
            SyntaxKind::KeywordWhile
        } else if str_equal(word, "return") {
            SyntaxKind::KeywordReturn
        } else {
            SyntaxKind::Identifier
        }
    }
}

} // verus!
