//! The lexer: source text to a stream of positioned tokens.
//!
//! The `sp_*` specification functions state what each lexeme is; every
//! executable function returns exactly what its specification function says,
//! or the first violation as a `LexError`. Positions are character indices;
//! the line number of a token is incremented after a token when the character
//! right after it is a line break. As in the parser, a specification result
//! carries `ext`, the number of characters consumed beyond the first.

use vstd::prelude::*;
use crate::text::{digits_val, is_digit_char, rem_at, check_digit, digit_of_char, push_char};
use crate::types::{Token, TokenV, Operator, Keywords, keyword_of, keyword_token};

verus! {

/// A token together with the source position it starts at and a line number.
#[derive(Debug, Clone, PartialEq)]
pub struct LexerToken {
    pub token: Token,
    pub position: usize,
    pub line: usize,
}

/// The mathematical model of a positioned token.
pub ghost struct LexTokV {
    pub token: TokenV,
    pub position: int,
    pub line: int,
}

impl View for LexerToken {
    type V = LexTokV;

    open spec fn view(&self) -> LexTokV {
        LexTokV { token: self.token@, position: self.position as int, line: self.line as int }
    }
}

/// The models of a sequence of positioned tokens, in order.
pub open spec fn lex_views(s: Seq<LexerToken>) -> Seq<LexTokV> {
    s.map_values(|lt: LexerToken| lt@)
}

/// Errors of the lexer.
#[derive(Debug, Clone, Copy, PartialEq, Eq, Structural)]
pub enum LexError {
    /// A character that starts no lexeme.
    UnexpectedCharacter,
    /// A number literal whose value does not fit in an `i32`.
    NumberTooLarge,
}

// ---------------------------------------------------------------------------
// Character classes
// ---------------------------------------------------------------------------

/// The whitespace characters the lexer skips.
pub open spec fn is_whitespace_char(c: char) -> bool {
    c == ' ' || c == '\n' || c == '\t' || c == '\r'
}

/// Whether a character is whitespace to the lexer.
pub fn is_whitespace(c: char) -> (r: bool)
    ensures
        r == is_whitespace_char(c),
{
    c == ' ' || c == '\n' || c == '\t' || c == '\r'
}

/// The line-break characters.
pub open spec fn is_newline_char(c: char) -> bool {
    c == '\n' || c == '\r'
}

/// Whether a character is a line break.
pub fn is_newline(c: char) -> (r: bool)
    ensures
        r == is_newline_char(c),
{
    c == '\n' || c == '\r'
}

/// What `char::is_alphanumeric` returns: a function of the character alone.
pub uninterp spec fn is_alnum_char(c: char) -> bool;

/// The ASCII letters and digits.
pub open spec fn is_ascii_alnum(c: char) -> bool {
    (48 <= c as u32 <= 57) || (65 <= c as u32 <= 90) || (97 <= c as u32 <= 122)
}

/// Relies on `char::is_alphanumeric`: true for Unicode alphabetic and numeric
/// characters, which within ASCII are exactly the letters and digits.
#[verifier::external_body]
pub fn alnum_char(c: char) -> (r: bool)
    ensures
        r == is_alnum_char(c),
        is_ascii_alnum(c) ==> r,
        (c as u32) < 128 && !is_ascii_alnum(c) ==> !r,
{
    c.is_alphanumeric()
}

// ---------------------------------------------------------------------------
// Operators and punctuation
// ---------------------------------------------------------------------------

/// The token of a one-character operator or punctuation mark, if any.
pub open spec fn sp_match_single(c: char) -> Option<TokenV> {
    if c == '+' { Some(TokenV::Operator(Operator::Add)) }
    else if c == '-' { Some(TokenV::Operator(Operator::Subtract)) }
    else if c == '*' { Some(TokenV::Operator(Operator::Multiply)) }
    else if c == '/' { Some(TokenV::Operator(Operator::Divide)) }
    else if c == '%' { Some(TokenV::Operator(Operator::Mod)) }
    else if c == '<' { Some(TokenV::LessThan) }
    else if c == '>' { Some(TokenV::GreaterThan) }
    else if c == '!' { Some(TokenV::Not) }
    else if c == ';' { Some(TokenV::Semi) }
    else if c == '=' { Some(TokenV::Assign) }
    else if c == '(' { Some(TokenV::LParen) }
    else if c == ')' { Some(TokenV::RParen) }
    else if c == '{' { Some(TokenV::LCurly) }
    else if c == '}' { Some(TokenV::RCurly) }
    else if c == ',' { Some(TokenV::Comma) }
    else { None }
}

/// The token of a two-character operator, if any.
pub open spec fn sp_match_double(a: char, b: char) -> Option<TokenV> {
    if a == '=' && b == '=' { Some(TokenV::Eq) }
    else if a == '!' && b == '=' { Some(TokenV::NotEq) }
    else if a == '<' && b == '=' { Some(TokenV::Leq) }
    else if a == '>' && b == '=' { Some(TokenV::Geq) }
    else if a == '&' && b == '&' { Some(TokenV::And) }
    else if a == '|' && b == '|' { Some(TokenV::Or) }
    else if a == '+' && b == '=' { Some(TokenV::ShortAssign(Operator::Add)) }
    else if a == '-' && b == '=' { Some(TokenV::ShortAssign(Operator::Subtract)) }
    else if a == '*' && b == '=' { Some(TokenV::ShortAssign(Operator::Multiply)) }
    else if a == '/' && b == '=' { Some(TokenV::ShortAssign(Operator::Divide)) }
    else if a == '%' && b == '=' { Some(TokenV::ShortAssign(Operator::Mod)) }
    else if a == '+' && b == '+' { Some(TokenV::Increment) }
    else if a == '-' && b == '-' { Some(TokenV::Decrement) }
    else { None }
}

/// The operator token starting at `pos`: a two-character operator when its
/// both characters are there, else a one-character one; with the number of
/// characters it takes.
pub open spec fn sp_match_operator(s: Seq<char>, pos: int) -> Option<(TokenV, nat)> {
    if pos + 1 < s.len() && sp_match_double(s[pos], s[pos + 1]) is Some {
        Some((sp_match_double(s[pos], s[pos + 1])->0, 2))
    } else {
        match sp_match_single(s[pos]) {
            Some(t) => Some((t, 1)),
            None => None,
        }
    }
}

/// Match a two-character operator at the cursor, advancing over it, per
/// `sp_match_double`.
pub fn match_double_char_op(script: &str, position: &mut usize) -> (r: Option<Token>)
    requires
        *old(position) < script@.len(),
    ensures
        match r {
            Some(t) => *old(position) + 1 < script@.len()
                && sp_match_double(script@[*old(position) as int],
                    script@[*old(position) + 1]) == Some(t@)
                && *final(position) == *old(position) + 2,
            None => *final(position) == *old(position) && (*old(position) + 1 >= script@.len()
                || sp_match_double(script@[*old(position) as int],
                    script@[*old(position) + 1]) is None),
        },
{
    let n = script.unicode_len();
    if *position + 1 >= n {
        return None;
    }
    let c = script.get_char(*position);
    let next_c = script.get_char(*position + 1);
    let matched: Option<Token> = if c == '=' && next_c == '=' { Some(Token::Eq) }
    else if c == '!' && next_c == '=' { Some(Token::NotEq) }
    else if c == '<' && next_c == '=' { Some(Token::Leq) }
    else if c == '>' && next_c == '=' { Some(Token::Geq) }
    else if c == '&' && next_c == '&' { Some(Token::And) }
    else if c == '|' && next_c == '|' { Some(Token::Or) }
    else if c == '+' && next_c == '=' { Some(Token::ShortAssign(Operator::Add)) }
    else if c == '-' && next_c == '=' { Some(Token::ShortAssign(Operator::Subtract)) }
    else if c == '*' && next_c == '=' { Some(Token::ShortAssign(Operator::Multiply)) }
    else if c == '/' && next_c == '=' { Some(Token::ShortAssign(Operator::Divide)) }
    else if c == '%' && next_c == '=' { Some(Token::ShortAssign(Operator::Mod)) }
    else if c == '+' && next_c == '+' { Some(Token::Increment) }
    else if c == '-' && next_c == '-' { Some(Token::Decrement) }
    else { None };
    if matched.is_some() {
        *position = *position + 2;
    }
    matched
}

/// Match an operator or punctuation token at the cursor, advancing over it,
/// per `sp_match_operator`.
pub fn match_operator(script: &str, position: &mut usize) -> (r: Option<Token>)
    requires
        *old(position) < script@.len(),
    ensures
        match r {
            Some(t) => sp_match_operator(script@, *old(position) as int) matches Some((tv, used))
                && tv == t@ && *final(position) == *old(position) + used,
            None => sp_match_operator(script@, *old(position) as int) is None && *final(position)
                == *old(position),
        },
{
    let n = script.unicode_len();
    let c = script.get_char(*position);
    if let Some(token) = match_double_char_op(script, position) {
        return Some(token);
    }
    proof {
        assert(*position < n);
    }
    let ret: Option<Token> = if c == '+' { Some(Token::Operator(Operator::Add)) }
    else if c == '-' { Some(Token::Operator(Operator::Subtract)) }
    else if c == '*' { Some(Token::Operator(Operator::Multiply)) }
    else if c == '/' { Some(Token::Operator(Operator::Divide)) }
    else if c == '%' { Some(Token::Operator(Operator::Mod)) }
    else if c == '<' { Some(Token::LessThan) }
    else if c == '>' { Some(Token::GreaterThan) }
    else if c == '!' { Some(Token::Not) }
    else if c == ';' { Some(Token::Semi) }
    else if c == '=' { Some(Token::Assign) }
    else if c == '(' { Some(Token::LParen) }
    else if c == ')' { Some(Token::RParen) }
    else if c == '{' { Some(Token::LCurly) }
    else if c == '}' { Some(Token::RCurly) }
    else if c == ',' { Some(Token::Comma) }
    else { None };
    if ret.is_some() {
        *position = *position + 1;
    }
    ret
}

// ---------------------------------------------------------------------------
// Numbers and identifiers
// ---------------------------------------------------------------------------

/// The position right after the run of decimal digits starting at `pos`.
pub open spec fn sp_digit_run_end(s: Seq<char>, pos: int) -> int
    decreases rem_at(s.len() as int, pos),
{
    if 0 <= pos < s.len() && is_digit_char(s[pos]) {
        sp_digit_run_end(s, pos + 1)
    } else {
        pos
    }
}

/// The number token starting at `pos`: the value of the digit run, which
/// must fit in an `i32`.
pub open spec fn sp_lex_number(s: Seq<char>, pos: int) -> Result<(TokenV, nat), LexError> {
    let end = sp_digit_run_end(s, pos);
    let v = digits_val(s.subrange(pos, end));
    if v <= i32::MAX {
        Ok((TokenV::Number(v as i32), (end - pos - 1) as nat))
    } else {
        Err(LexError::NumberTooLarge)
    }
}

/// Lex a number at the cursor, advancing over its digits, per
/// `sp_lex_number`.
pub fn lex_number(script: &str, position: &mut usize) -> (r: Result<Token, LexError>)
    requires
        *old(position) < script@.len(),
        is_digit_char(script@[*old(position) as int]),
    ensures
        match r {
            Ok(t) => sp_lex_number(script@, *old(position) as int) matches Ok((tv, ext))
                && tv == t@ && *final(position) == *old(position) + 1 + ext,
            Err(e) => sp_lex_number(script@, *old(position) as int) matches Err(e2) && e2 == e,
        },
{
    let ghost s = script@;
    let ghost pos0 = *position as int;
    let n = script.unicode_len();
    let mut acc: u64 = 0;
    while *position < n
        invariant
            0 <= pos0 <= *position <= n,
            n == s.len(),
            s == script@,
            forall|k: int| pos0 <= k < *position ==> is_digit_char(#[trigger] s[k]),
            sp_digit_run_end(s, pos0) == sp_digit_run_end(s, *position as int),
            digits_val(s.subrange(pos0, *position as int)) <= 0xFFFF_FFFF ==> acc == digits_val(
                s.subrange(pos0, *position as int)),
            digits_val(s.subrange(pos0, *position as int)) > 0xFFFF_FFFF ==> acc > 0xFFFF_FFFF,
            acc < 0x10_0000_0000u64,
        ensures
            pos0 <= *position <= n,
            forall|k: int| pos0 <= k < *position ==> is_digit_char(#[trigger] s[k]),
            sp_digit_run_end(s, pos0) == sp_digit_run_end(s, *position as int),
            *position == n || !is_digit_char(s[*position as int]),
            digits_val(s.subrange(pos0, *position as int)) <= 0xFFFF_FFFF ==> acc == digits_val(
                s.subrange(pos0, *position as int)),
            digits_val(s.subrange(pos0, *position as int)) > 0xFFFF_FFFF ==> acc > 0xFFFF_FFFF,
        decreases n - *position,
    {
        let next_c = script.get_char(*position);
        if !check_digit(next_c) {
            break;
        }
        let ghost p = s.subrange(pos0, *position as int);
        let ghost p2 = s.subrange(pos0, *position + 1);
        proof {
            assert(p2.drop_last() =~= p);
            assert(p2.last() == s[*position as int]);
            crate::text::lemma_digits_val_nonneg(p);
        }
        let d = digit_of_char(next_c);
        if acc <= 0xFFFF_FFFFu64 {
            acc = acc * 10 + (d as u64);
        }
        *position = *position + 1;
    }
    proof {
        assert(sp_digit_run_end(s, *position as int) == *position as int);
        assert(sp_digit_run_end(s, pos0) == *position as int);
        assert(*position > pos0) by {
            assert(is_digit_char(s[pos0]));
        }
    }
    if acc <= 0x7FFF_FFFFu64 {
        Ok(Token::Number(acc as i32))
    } else {
        Err(LexError::NumberTooLarge)
    }
}

/// The position right after the run of alphanumeric characters at `pos`.
pub open spec fn sp_ident_run_end(s: Seq<char>, pos: int) -> int
    decreases rem_at(s.len() as int, pos),
{
    if 0 <= pos < s.len() && is_alnum_char(s[pos]) {
        sp_ident_run_end(s, pos + 1)
    } else {
        pos
    }
}

pub proof fn lemma_ident_run_end_ge(s: Seq<char>, pos: int)
    ensures
        sp_ident_run_end(s, pos) >= pos,
    decreases rem_at(s.len() as int, pos),
{
    if 0 <= pos < s.len() && is_alnum_char(s[pos]) {
        lemma_ident_run_end_ge(s, pos + 1);
    }
}

/// Lex the run of alphanumeric characters at the cursor, advancing over it.
pub fn lex_identifier(script: &str, position: &mut usize) -> (r: String)
    requires
        *old(position) <= script@.len(),
    ensures
        *final(position) == sp_ident_run_end(script@, *old(position) as int),
        r@ == script@.subrange(*old(position) as int, *final(position) as int),
        *old(position) <= *final(position) <= script@.len(),
{
    let ghost s = script@;
    let ghost pos0 = *position as int;
    let n = script.unicode_len();
    let mut ident = String::new();
    while *position < n
        invariant
            0 <= pos0 <= *position <= n,
            n == s.len(),
            s == script@,
            sp_ident_run_end(s, pos0) == sp_ident_run_end(s, *position as int),
            ident@ == s.subrange(pos0, *position as int),
        ensures
            pos0 <= *position <= n,
            sp_ident_run_end(s, pos0) == sp_ident_run_end(s, *position as int),
            *position == n || !is_alnum_char(s[*position as int]),
            ident@ == s.subrange(pos0, *position as int),
        decreases n - *position,
    {
        let c = script.get_char(*position);
        if !alnum_char(c) {
            break;
        }
        push_char(&mut ident, c);
        proof {
            assert(s.subrange(pos0, *position as int) + seq![s[*position as int]] =~= s.subrange(
                pos0, *position + 1));
        }
        *position = *position + 1;
    }
    proof {
        assert(sp_ident_run_end(s, *position as int) == *position as int);
    }
    ident
}

// ---------------------------------------------------------------------------
// One token, and the whole stream
// ---------------------------------------------------------------------------

/// The token starting at `pos`, a non-whitespace position: a number, an
/// operator, a keyword or an identifier.
pub open spec fn sp_next_token(s: Seq<char>, pos: int) -> Result<(TokenV, nat), LexError> {
    if is_digit_char(s[pos]) {
        sp_lex_number(s, pos)
    } else {
        match sp_match_operator(s, pos) {
            Some((t, used)) => Ok((t, (used - 1) as nat)),
            None => if !is_alnum_char(s[pos]) {
                Err(LexError::UnexpectedCharacter)
            } else {
                let end = sp_ident_run_end(s, pos);
                let word = s.subrange(pos, end);
                match keyword_of(word) {
                    Some(k) => Ok((keyword_token(k), (end - pos - 1) as nat)),
                    None => Ok((TokenV::Identifier(word), (end - pos - 1) as nat)),
                }
            },
        }
    }
}

/// Lex the token at the cursor, advancing over it, per `sp_next_token`.
pub fn next_token(script: &str, position: &mut usize) -> (r: Result<Token, LexError>)
    requires
        *old(position) < script@.len(),
    ensures
        match r {
            Ok(t) => sp_next_token(script@, *old(position) as int) matches Ok((tv, ext))
                && tv == t@ && *final(position) == *old(position) + 1 + ext,
            Err(e) => sp_next_token(script@, *old(position) as int) matches Err(e2) && e2 == e,
        },
{
    let ghost s = script@;
    let ghost pos0 = *position as int;
    let c = script.get_char(*position);
    if check_digit(c) {
        return lex_number(script, position);
    }
    if let Some(token) = match_operator(script, position) {
        return Ok(token);
    }
    if !alnum_char(c) {
        return Err(LexError::UnexpectedCharacter);
    }
    let possibly_ident = lex_identifier(script, position);
    proof {
        assert(sp_ident_run_end(s, pos0) > pos0) by {
            assert(is_alnum_char(s[pos0]));
            lemma_ident_run_end_ge(s, pos0 + 1);
        }
    }
    if let Some(keyword) = Keywords::from_string(possibly_ident.as_str()) {
        return Ok(keyword.to_token());
    }
    Ok(Token::Identifier(possibly_ident))
}

/// The token stream from `pos` on: whitespace is skipped; each token records
/// the position it starts at and the current line number, which grows by one
/// after a token followed directly by a line break.
pub open spec fn sp_tokenize_from(s: Seq<char>, pos: int, line: int) -> Result<
    Seq<LexTokV>,
    LexError,
>
    decreases rem_at(s.len() as int, pos),
{
    if pos >= s.len() {
        Ok(Seq::empty())
    } else if is_whitespace_char(s[pos]) {
        sp_tokenize_from(s, pos + 1, line)
    } else {
        match sp_next_token(s, pos) {
            Err(e) => Err(e),
            Ok((tv, ext)) => {
                let p2 = pos + 1 + ext;
                let line2 = if p2 < s.len() && is_newline_char(s[p2]) {
                    line + 1
                } else {
                    line
                };
                match sp_tokenize_from(s, p2, line2) {
                    Err(e) => Err(e),
                    Ok(rest) => Ok(
                        seq![LexTokV { token: tv, position: pos, line: line }] + rest,
                    ),
                }
            },
        }
    }
}

/// The token stream of a whole script.
pub open spec fn sp_tokenize(s: Seq<char>) -> Result<Seq<LexTokV>, LexError> {
    sp_tokenize_from(s, 0, 1)
}

fn tokenize_into(
    script: &str,
    position: &mut usize,
    line: &mut usize,
    out: &mut Vec<LexerToken>,
) -> (r: Result<(), LexError>)
    requires
        *old(line) + script@.len() - *old(position) <= usize::MAX,
    ensures
        match r {
            Ok(_) => sp_tokenize_from(script@, *old(position) as int, *old(line) as int) matches
                Ok(rest) && lex_views(final(out)@) == lex_views(old(out)@) + rest,
            Err(e) => sp_tokenize_from(script@, *old(position) as int, *old(line) as int) matches
                Err(e2) && e2 == e,
        },
    decreases rem_at(script@.len() as int, *position as int),
{
    let ghost s = script@;
    let ghost pos0 = *position as int;
    let ghost line0 = *line as int;
    let ghost out00 = out@;
    let n = script.unicode_len();
    if *position >= n {
        proof {
            assert(lex_views(out@) + Seq::<LexTokV>::empty() =~= lex_views(out@));
        }
        return Ok(());
    }
    if is_whitespace(script.get_char(*position)) {
        *position = *position + 1;
        return tokenize_into(script, position, line, out);
    }
    let tok_position = *position;
    let tok = match next_token(script, position) {
        Ok(t) => t,
        Err(e) => {
            return Err(e);
        },
    };
    let lexer_token = LexerToken { token: tok, position: tok_position, line: *line };
    let ghost ltv = lexer_token@;
    out.push(lexer_token);
    proof {
        assert(lex_views(out@) =~= lex_views(out00).push(ltv));
    }
    if *position < n && is_newline(script.get_char(*position)) {
        *line = *line + 1;
    }
    let ghost out1 = out@;
    match tokenize_into(script, position, line, out) {
        Ok(_) => {
            proof {
                if let Ok(rest) = sp_tokenize_from(s, *position as int, *line as int) {
                    assert(lex_views(out00).push(ltv) + rest =~= lex_views(out00) + (seq![ltv]
                        + rest));
                }
            }
            Ok(())
        },
        Err(e) => Err(e),
    }
}

/// Lex a whole script into its token stream, per `sp_tokenize`, or report
/// the first violation.
pub fn tokenize(script: &str) -> (r: Result<Vec<LexerToken>, LexError>)
    requires
        script@.len() < usize::MAX,
    ensures
        match r {
            Ok(v) => sp_tokenize(script@) matches Ok(seq) && lex_views(v@) == seq,
            Err(e) => sp_tokenize(script@) matches Err(e2) && e2 == e,
        },
{
    let mut tokens: Vec<LexerToken> = Vec::new();
    let mut position: usize = 0;
    let mut line_number: usize = 1;
    proof {
        assert(lex_views(tokens@) =~= Seq::<LexTokV>::empty());
    }
    match tokenize_into(script, &mut position, &mut line_number, &mut tokens) {
        Ok(_) => {
            proof {
                if let Ok(seq0) = sp_tokenize(script@) {
                    assert(Seq::<LexTokV>::empty() + seq0 =~= seq0);
                }
            }
            Ok(tokens)
        },
        Err(e) => Err(e),
    }
}

} // verus!
