//! The lexer: turns source text into a sequence of tokens.
//!
//! The executable lexer scans the input once, left to right, over a
//! random-access character buffer with a single cursor; it never backtracks
//! past the cursor. Its behaviour is fully specified by [`spec_tokenize`],
//! a specification-level scanner over the character sequence, and every
//! method's contract ties the executable state to that model.
//!
//! Keywords are recognized by scanning a full identifier and looking the
//! captured text up in the fixed keyword table. The wildcard `_` alone
//! yields the wildcard token. Any character that starts no token aborts
//! tokenization with an error; there is no recovery.

use vstd::prelude::*;
use crate::chars::{
    is_space, is_digit, is_alpha, is_alnum, is_space_char, is_digit_char, is_alpha_char,
    is_alnum_char, string_from_chars, char_to_string, str_to_chars, chars_eq_str,
};
use crate::error::{ParseError, ParseErrorView};
use crate::tokens::{Token, TokenView, view_token_seq};

verus! {

/// The position of the first non-white-space character at or after `i`,
/// or the end of the input if only white space remains.
pub open spec fn skip_ws_end(s: Seq<char>, i: int) -> int
    decreases s.len() - i,
    when 0 <= i <= s.len()
{
    if i < s.len() && is_space(s[i]) {
        skip_ws_end(s, i + 1)
    } else {
        i
    }
}

/// The position of the first non-digit character at or after `i`.
pub open spec fn scan_digits_end(s: Seq<char>, i: int) -> int
    decreases s.len() - i,
    when 0 <= i <= s.len()
{
    if i < s.len() && is_digit(s[i]) {
        scan_digits_end(s, i + 1)
    } else {
        i
    }
}

/// The position of the first non-alphanumeric character at or after `i`.
pub open spec fn scan_alnum_end(s: Seq<char>, i: int) -> int
    decreases s.len() - i,
    when 0 <= i <= s.len()
{
    if i < s.len() && is_alnum(s[i]) {
        scan_alnum_end(s, i + 1)
    } else {
        i
    }
}

pub proof fn lemma_skip_ws_end(s: Seq<char>, i: int)
    requires
        0 <= i <= s.len(),
    ensures
        i <= skip_ws_end(s, i) <= s.len(),
    decreases s.len() - i,
{
    if i < s.len() && is_space(s[i]) {
        lemma_skip_ws_end(s, i + 1);
    }
}

pub proof fn lemma_scan_digits_end(s: Seq<char>, i: int)
    requires
        0 <= i <= s.len(),
    ensures
        i <= scan_digits_end(s, i) <= s.len(),
    decreases s.len() - i,
{
    if i < s.len() && is_digit(s[i]) {
        lemma_scan_digits_end(s, i + 1);
    }
}

pub proof fn lemma_scan_alnum_end(s: Seq<char>, i: int)
    requires
        0 <= i <= s.len(),
    ensures
        i <= scan_alnum_end(s, i) <= s.len(),
    decreases s.len() - i,
{
    if i < s.len() && is_alnum(s[i]) {
        lemma_scan_alnum_end(s, i + 1);
    }
}

/// Every character before the digit-scan end is a digit, and the scan
/// stops at the first non-digit.
pub proof fn lemma_scan_digits_chars(s: Seq<char>, i: int)
    requires
        0 <= i <= s.len(),
    ensures
        forall|k: int| i <= k < scan_digits_end(s, i) ==> is_digit(s[k]),
        scan_digits_end(s, i) < s.len() ==> !is_digit(s[scan_digits_end(s, i)]),
    decreases s.len() - i,
{
    lemma_scan_digits_end(s, i);
    if i < s.len() && is_digit(s[i]) {
        lemma_scan_digits_chars(s, i + 1);
    }
}

/// The digit scan ends exactly at the first non-digit position.
pub proof fn lemma_scan_digits_exact(s: Seq<char>, i: int, e: int)
    requires
        0 <= i <= e <= s.len(),
        forall|k: int| i <= k < e ==> is_digit(s[k]),
        e < s.len() ==> !is_digit(s[e]),
    ensures
        scan_digits_end(s, i) == e,
    decreases e - i,
{
    if i < e {
        lemma_scan_digits_exact(s, i + 1, e);
    }
}

/// The shape a numeric literal must have: one or more digits, optionally
/// followed by a dot and any number of further digits.
pub open spec fn valid_number(t: Seq<char>) -> bool {
    let d = scan_digits_end(t, 0);
    &&& 0 < d
    &&& (d == t.len() || (d < t.len() && t[d] == '.' && scan_digits_end(t, d + 1) == t.len()))
}

/// Scans a numeric literal starting at the digit at position `i`: greedily
/// takes digits, then optionally one dot with any further digits, and
/// checks the accumulated text for the numeric shape rather than assuming
/// it valid.
pub open spec fn spec_scan_number(s: Seq<char>, i: int) -> Result<(TokenView, int), ParseErrorView>
    recommends
        0 <= i < s.len(),
        is_digit(s[i]),
{
    let d = scan_digits_end(s, i + 1);
    let end = if d < s.len() && s[d] == '.' {
        scan_digits_end(s, d + 1)
    } else {
        d
    };
    let text = s.subrange(i, end);
    if valid_number(text) {
        Ok((TokenView::Number(text), end))
    } else {
        Err(ParseErrorView::InvalidNumberFormat(text))
    }
}

/// The fixed keyword table: the captured text of an identifier scan is
/// looked up here, and anything not in the table is an identifier.
pub open spec fn spec_keyword(text: Seq<char>) -> TokenView {
    if text == "let"@ {
        TokenView::Let
    } else if text == "in"@ {
        TokenView::In
    } else if text == "if"@ {
        TokenView::If
    } else if text == "then"@ {
        TokenView::Then
    } else if text == "else"@ {
        TokenView::Else
    } else if text == "match"@ {
        TokenView::Match
    } else if text == "with"@ {
        TokenView::With
    } else {
        TokenView::Identifier(text)
    }
}

/// Scans an identifier or keyword starting at the alphabetic character at
/// position `i`: greedily takes alphanumeric characters, then looks the
/// captured text up in the keyword table.
pub open spec fn spec_scan_ident(s: Seq<char>, i: int) -> (TokenView, int)
    recommends
        0 <= i < s.len(),
        is_alpha(s[i]),
{
    let end = scan_alnum_end(s, i + 1);
    (spec_keyword(s.subrange(i, end)), end)
}

/// Scans one token starting at the character at position `i`, which is not
/// white space: single-character dispatch with two-character lookahead for
/// `==`, `&&`, `||` and `->`, a digit starting a number scan, an
/// alphabetic character starting an identifier scan, and `_` alone
/// yielding the wildcard. Any other character is a lexical error.
pub open spec fn spec_scan_token(s: Seq<char>, i: int) -> Result<(TokenView, int), ParseErrorView>
    recommends
        0 <= i < s.len(),
{
    let c = s[i];
    if c == '\\' {
        Ok((TokenView::Lambda, i + 1))
    } else if c == '=' {
        if i + 1 < s.len() && s[i + 1] == '=' {
            Ok((TokenView::Equal, i + 2))
        } else {
            Ok((TokenView::Assign, i + 1))
        }
    } else if c == '<' {
        Ok((TokenView::LessThan, i + 1))
    } else if c == '>' {
        Ok((TokenView::GreaterThan, i + 1))
    } else if c == '&' && i + 1 < s.len() && s[i + 1] == '&' {
        Ok((TokenView::And, i + 2))
    } else if c == '|' {
        if i + 1 < s.len() && s[i + 1] == '|' {
            Ok((TokenView::Or, i + 2))
        } else {
            Ok((TokenView::Pipe, i + 1))
        }
    } else if c == '+' {
        Ok((TokenView::Plus, i + 1))
    } else if c == '-' {
        if i + 1 < s.len() && s[i + 1] == '>' {
            Ok((TokenView::Arrow, i + 2))
        } else {
            Ok((TokenView::Minus, i + 1))
        }
    } else if c == '*' {
        Ok((TokenView::Star, i + 1))
    } else if c == '/' {
        Ok((TokenView::Slash, i + 1))
    } else if c == '.' {
        Ok((TokenView::Dot, i + 1))
    } else if c == '(' {
        Ok((TokenView::LeftParen, i + 1))
    } else if c == ')' {
        Ok((TokenView::RightParen, i + 1))
    } else if c == ':' {
        Ok((TokenView::Colon, i + 1))
    } else if is_digit(c) {
        spec_scan_number(s, i)
    } else if is_alpha(c) {
        Ok(spec_scan_ident(s, i))
    } else if c == '_' {
        Ok((TokenView::Wildcard, i + 1))
    } else {
        Err(
            ParseErrorView::UnexpectedToken {
                expected: "valid token"@,
                found: seq![c],
                message: "Unexpected character"@,
            },
        )
    }
}

/// The whole tokenization of `s` from position `i`: white space is skipped
/// before each token, the end of the input yields exactly one end-of-stream
/// sentinel, and the first lexical error aborts the whole run.
pub open spec fn spec_tokenize(s: Seq<char>, i: int) -> Result<Seq<TokenView>, ParseErrorView>
    decreases s.len() - i,
    when 0 <= i <= s.len()
{
    let j = skip_ws_end(s, i);
    if j >= s.len() {
        Ok(seq![TokenView::Eof])
    } else {
        match spec_scan_token(s, j) {
            Err(e) => Err(e),
            Ok((t, k)) => {
                if i < k <= s.len() {
                    match spec_tokenize(s, k) {
                        Err(e) => Err(e),
                        Ok(rest) => Ok(seq![t] + rest),
                    }
                } else {
                    // never reached: a scanned token always stands at or
                    // after `i` and consumes at least one character
                    Err(ParseErrorView::UnexpectedEOF)
                }
            },
        }
    }
}

/// What the number scan admits always has the numeric shape: the
/// invalid-number error is unreachable from tokenization, though the
/// text is still passed through the shape check rather than assumed
/// valid.
pub proof fn lemma_scan_number_never_fails(s: Seq<char>, i: int)
    requires
        0 <= i < s.len(),
        is_digit(s[i]),
    ensures
        spec_scan_number(s, i) is Ok,
{
    let d = scan_digits_end(s, i + 1);
    lemma_scan_digits_end(s, i + 1);
    lemma_scan_digits_chars(s, i + 1);
    if d < s.len() && s[d] == '.' {
        let e = scan_digits_end(s, d + 1);
        lemma_scan_digits_end(s, d + 1);
        lemma_scan_digits_chars(s, d + 1);
        let text = s.subrange(i, e);
        assert(forall|k: int| 0 <= k < d - i ==> is_digit(text[k]));
        lemma_scan_digits_exact(text, 0, d - i);
        assert(text[d - i] == '.');
        assert(forall|k: int| d - i + 1 <= k < text.len() ==> is_digit(text[k]));
        lemma_scan_digits_exact(text, d - i + 1, text.len() as int);
        assert(valid_number(text));
    } else {
        let text = s.subrange(i, d);
        assert(forall|k: int| 0 <= k < text.len() ==> is_digit(text[k]));
        lemma_scan_digits_exact(text, 0, text.len() as int);
        assert(valid_number(text));
    }
}

/// A scanned token always consumes at least one character and stays
/// within the input.
pub proof fn lemma_scan_token_advances(s: Seq<char>, i: int)
    requires
        0 <= i < s.len(),
    ensures
        spec_scan_token(s, i) matches Ok((tk, k)) ==> i < k <= s.len(),
{
    lemma_scan_digits_end(s, i + 1);
    lemma_scan_alnum_end(s, i + 1);
    if is_digit(s[i]) {
        let d = scan_digits_end(s, i + 1);
        if d < s.len() && s[d] == '.' {
            lemma_scan_digits_end(s, d + 1);
        }
    }
}

/// The first invalid character aborts tokenization for the whole input,
/// and that is the only way tokenization fails: every error it returns is
/// the unexpected-character error.
pub proof fn lemma_tokenize_error_kind(s: Seq<char>, i: int)
    requires
        0 <= i <= s.len(),
    ensures
        spec_tokenize(s, i) matches Err(e) ==> e is UnexpectedToken,
    decreases s.len() - i,
{
    let j = skip_ws_end(s, i);
    lemma_skip_ws_end(s, i);
    if j < s.len() {
        if is_digit(s[j]) {
            lemma_scan_number_never_fails(s, j);
        }
        lemma_scan_token_advances(s, j);
        match spec_scan_token(s, j) {
            Err(_) => {},
            Ok((tk, k)) => {
                if i < k <= s.len() {
                    lemma_tokenize_error_kind(s, k);
                }
            },
        }
    }
}

/// What [`Lexer::tokenize`] promises of its result: it is exactly what
/// [`spec_tokenize`] gives for the text, token for token or error for
/// error.
pub open spec fn tokenize_result_matches(
    r: Result<Vec<Token>, ParseError>,
    s: Seq<char>,
    i: int,
) -> bool {
    match (r, spec_tokenize(s, i)) {
        (Ok(v), Ok(tvs)) => view_token_seq(v@) == tvs,
        (Err(e), Err(ev)) => e@ == ev,
        _ => false,
    }
}

/// Tokenizing the same text twice yields identical token sequences: any
/// two results the tokenizer's contract admits for one text carry the
/// same model, token for token, or the same error.
pub proof fn lemma_tokenize_deterministic(
    r1: Result<Vec<Token>, ParseError>,
    r2: Result<Vec<Token>, ParseError>,
    s: Seq<char>,
    i: int,
)
    requires
        tokenize_result_matches(r1, s, i),
        tokenize_result_matches(r2, s, i),
    ensures
        match (r1, r2) {
            (Ok(v1), Ok(v2)) => view_token_seq(v1@) == view_token_seq(v2@),
            (Err(e1), Err(e2)) => e1@ == e2@,
            _ => false,
        },
{
}

/// On success the token sequence ends with the end-of-stream sentinel,
/// appended exactly once: it is the last token and occurs nowhere else.
pub proof fn lemma_tokenize_ends_with_eof(s: Seq<char>, i: int)
    requires
        0 <= i <= s.len(),
    ensures
        spec_tokenize(s, i) matches Ok(ts) ==> {
            &&& ts.len() >= 1
            &&& ts.last() == TokenView::Eof
            &&& forall|k: int| 0 <= k < ts.len() - 1 ==> ts[k] != TokenView::Eof
        },
    decreases s.len() - i,
{
    let j = skip_ws_end(s, i);
    lemma_skip_ws_end(s, i);
    if j < s.len() {
        match spec_scan_token(s, j) {
            Err(_) => {},
            Ok((t, k)) => {
                if i < k <= s.len() {
                    lemma_tokenize_ends_with_eof(s, k);
                    assert(t != TokenView::Eof);
                    if spec_tokenize(s, k) is Ok {
                        let rest = spec_tokenize(s, k)->Ok_0;
                        let ts = seq![t] + rest;
                        assert(ts.last() == rest.last());
                        assert forall|m: int| 0 <= m < ts.len() - 1 implies ts[m]
                            != TokenView::Eof by {
                            if m > 0 {
                                assert(ts[m] == rest[m - 1]);
                            }
                        }
                    }
                }
            },
        }
    }
}

/// Appending a token to a list appends its model to the list's model.
pub proof fn lemma_view_tokens_push(ts: Seq<Token>, t: Token)
    ensures
        view_token_seq(ts.push(t)) == view_token_seq(ts).push(t@),
{
    assert(view_token_seq(ts.push(t)) =~= view_token_seq(ts).push(t@));
}

/// The lexer: the input as a vector of characters, and the cursor index.
pub struct Lexer {
    /// The entire input, split into characters.
    input: Vec<char>,
    /// Current position in `input`.
    current: usize,
}

impl Lexer {
    /// The input as a character sequence.
    pub closed spec fn text(&self) -> Seq<char> {
        self.input@
    }

    /// The cursor position.
    pub closed spec fn pos(&self) -> int {
        self.current as int
    }

    /// The cursor never stands past the end of the input.
    pub closed spec fn wf(&self) -> bool {
        self.current <= self.input.len()
    }

    /// Creates a new lexer over the characters of `input`, with the cursor
    /// at the start.
    pub fn new(input: &str) -> (l: Lexer)
        ensures
            l.wf(),
            l.text() == input@,
            l.pos() == 0,
    {
        Lexer { input: str_to_chars(input), current: 0 }
    }

    /// Whether the cursor has reached or passed the end of the input.
    pub fn is_at_end(&self) -> (r: bool)
        ensures
            r == (self.pos() >= self.text().len()),
    {
        self.current >= self.input.len()
    }

    /// The next character, without consuming it, if one remains.
    pub fn peek(&self) -> (r: Option<char>)
        ensures
            r == if self.pos() < self.text().len() {
                Some(self.text()[self.pos()])
            } else {
                None::<char>
            },
    {
        if self.current < self.input.len() {
            Some(self.input[self.current])
        } else {
            None
        }
    }

    /// Consumes and returns the next character.
    pub fn advance(&mut self) -> (c: char)
        requires
            old(self).wf(),
            old(self).pos() < old(self).text().len(),
        ensures
            final(self).wf(),
            final(self).text() == old(self).text(),
            final(self).pos() == old(self).pos() + 1,
            c == old(self).text()[old(self).pos()],
    {
        let c = self.input[self.current];
        self.current = self.current + 1;
        c
    }

    /// If the next character is `expected`, consumes it and returns true;
    /// otherwise leaves the cursor in place and returns false.
    pub fn match_char(&mut self, expected: char) -> (r: bool)
        requires
            old(self).wf(),
        ensures
            final(self).wf(),
            final(self).text() == old(self).text(),
            r == (old(self).pos() < old(self).text().len() && old(self).text()[old(self).pos()]
                == expected),
            final(self).pos() == if r {
                old(self).pos() + 1
            } else {
                old(self).pos()
            },
    {
        if self.current < self.input.len() && self.input[self.current] == expected {
            self.current = self.current + 1;
            true
        } else {
            false
        }
    }

    /// Discards white space: moves the cursor to the first character that
    /// is not white space.
    pub fn skip_whitespace(&mut self)
        requires
            old(self).wf(),
        ensures
            final(self).wf(),
            final(self).text() == old(self).text(),
            final(self).pos() == skip_ws_end(old(self).text(), old(self).pos()),
            old(self).pos() <= final(self).pos(),
    {
        let ghost s = self.text();
        let ghost i0 = self.pos();
        loop
            invariant
                self.wf(),
                self.text() == s,
                i0 <= self.pos() <= s.len(),
                skip_ws_end(s, self.pos()) == skip_ws_end(s, i0),
            ensures
                self.wf(),
                self.text() == s,
                i0 <= self.pos() <= s.len(),
                self.pos() == skip_ws_end(s, i0),
            decreases s.len() - self.pos(),
        {
            if self.current < self.input.len() {
                let c = self.input[self.current];
                if is_space_char(c) {
                    self.current = self.current + 1;
                    continue;
                }
            }
            break;
        }
    }

    /// Whether the input from the cursor on starts with the characters of
    /// `keyword`.
    pub fn peek_keyword(&self, keyword: &str) -> (r: bool)
        requires
            self.wf(),
        ensures
            r == (self.pos() + keyword@.len() <= self.text().len() && self.text().subrange(
                self.pos(),
                self.pos() + keyword@.len(),
            ) == keyword@),
    {
        let n = keyword.unicode_len();
        if self.input.len() - self.current < n {
            return false;
        }
        let ghost sub = self.text().subrange(self.pos(), self.pos() + keyword@.len());
        let mut k: usize = 0;
        while k < n
            invariant
                self.wf(),
                n == keyword@.len(),
                self.pos() + n <= self.text().len(),
                k <= n,
                sub == self.text().subrange(self.pos(), self.pos() + n),
                forall|j: int| 0 <= j < k ==> sub[j] == keyword@[j],
            decreases n - k,
        {
            if self.input[self.current + k] != keyword.get_char(k) {
                proof {
                    assert(sub[k as int] == self.text()[self.pos() + k]);
                    assert(sub != keyword@);
                }
                return false;
            }
            k = k + 1;
        }
        proof {
            assert(sub =~= keyword@);
        }
        true
    }

    /// Scans an identifier or keyword. The cursor stands on an alphabetic
    /// character; the scan takes it and every following alphanumeric
    /// character, then looks the captured text up in the keyword table.
    fn scan_identifier(&mut self) -> (r: Token)
        requires
            old(self).wf(),
            old(self).pos() < old(self).text().len(),
            is_alpha(old(self).text()[old(self).pos()]),
        ensures
            final(self).wf(),
            final(self).text() == old(self).text(),
            ({
                let (tv, end) = spec_scan_ident(old(self).text(), old(self).pos());
                &&& r@ == tv
                &&& final(self).pos() == end
                &&& old(self).pos() < end <= old(self).text().len()
            }),
    {
        let ghost s = self.text();
        let ghost i = self.pos();
        let mut text: Vec<char> = Vec::new();
        let c0 = self.advance();
        text.push(c0);
        proof {
            assert(text@ =~= s.subrange(i, i + 1));
        }
        loop
            invariant
                self.wf(),
                self.text() == s,
                0 <= i,
                i + 1 <= self.pos() <= s.len(),
                text@ == s.subrange(i, self.pos()),
                scan_alnum_end(s, self.pos()) == scan_alnum_end(s, i + 1),
            ensures
                self.wf(),
                self.text() == s,
                0 <= i,
                i + 1 <= self.pos() <= s.len(),
                self.pos() == scan_alnum_end(s, i + 1),
                text@ == s.subrange(i, self.pos()),
            decreases s.len() - self.pos(),
        {
            if self.current < self.input.len() {
                let c = self.input[self.current];
                if is_alnum_char(c) {
                    let c2 = self.advance();
                    text.push(c2);
                    proof {
                        assert(text@ =~= s.subrange(i, self.pos()));
                    }
                    continue;
                }
            }
            break;
        }
        if chars_eq_str(&text, "let") {
            Token::Let
        } else if chars_eq_str(&text, "in") {
            Token::In
        } else if chars_eq_str(&text, "if") {
            Token::If
        } else if chars_eq_str(&text, "then") {
            Token::Then
        } else if chars_eq_str(&text, "else") {
            Token::Else
        } else if chars_eq_str(&text, "match") {
            Token::Match
        } else if chars_eq_str(&text, "with") {
            Token::With
        } else {
            Token::Identifier(string_from_chars(&text))
        }
    }

    /// Scans a numeric literal. The cursor stands on a digit; the scan
    /// takes every following digit, optionally one dot with any further
    /// digits, and passes the accumulated text through the numeric shape
    /// check rather than assuming it valid.
    fn scan_number(&mut self) -> (r: Result<Token, ParseError>)
        requires
            old(self).wf(),
            old(self).pos() < old(self).text().len(),
            is_digit(old(self).text()[old(self).pos()]),
        ensures
            final(self).wf(),
            final(self).text() == old(self).text(),
            ({
                match (r, spec_scan_number(old(self).text(), old(self).pos())) {
                    (Ok(t), Ok((tv, end))) => t@ == tv && final(self).pos() == end && old(
                        self,
                    ).pos() < end <= old(self).text().len(),
                    (Err(e), Err(ev)) => e@ == ev,
                    _ => false,
                }
            }),
    {
        let ghost s = self.text();
        let ghost i = self.pos();
        let mut text: Vec<char> = Vec::new();
        let c0 = self.advance();
        text.push(c0);
        proof {
            assert(text@ =~= s.subrange(i, i + 1));
        }
        loop
            invariant
                self.wf(),
                self.text() == s,
                0 <= i,
                i + 1 <= self.pos() <= s.len(),
                text@ == s.subrange(i, self.pos()),
                scan_digits_end(s, self.pos()) == scan_digits_end(s, i + 1),
            ensures
                self.wf(),
                self.text() == s,
                0 <= i,
                i + 1 <= self.pos() <= s.len(),
                self.pos() == scan_digits_end(s, i + 1),
                text@ == s.subrange(i, self.pos()),
            decreases s.len() - self.pos(),
        {
            if self.current < self.input.len() {
                let c = self.input[self.current];
                if is_digit_char(c) {
                    let c2 = self.advance();
                    text.push(c2);
                    proof {
                        assert(text@ =~= s.subrange(i, self.pos()));
                    }
                    continue;
                }
            }
            break;
        }
        let ghost d = self.pos();
        if self.current < self.input.len() && self.input[self.current] == '.' {
            let cdot = self.advance();
            text.push(cdot);
            proof {
                assert(text@ =~= s.subrange(i, self.pos()));
            }
            loop
                invariant
                    self.wf(),
                    self.text() == s,
                    0 <= i <= d,
                    d + 1 <= self.pos() <= s.len(),
                    text@ == s.subrange(i, self.pos()),
                    scan_digits_end(s, self.pos()) == scan_digits_end(s, d + 1),
                ensures
                    self.wf(),
                    self.text() == s,
                    0 <= i <= d,
                    d + 1 <= self.pos() <= s.len(),
                    self.pos() == scan_digits_end(s, d + 1),
                    text@ == s.subrange(i, self.pos()),
                decreases s.len() - self.pos(),
            {
                if self.current < self.input.len() {
                    let c = self.input[self.current];
                    if is_digit_char(c) {
                        text.push(self.advance());
                        proof {
                            assert(text@ =~= s.subrange(i, self.pos()));
                        }
                        continue;
                    }
                }
                break;
            }
        }
        if valid_number_chars(&text) {
            Ok(Token::Number(string_from_chars(&text)))
        } else {
            Err(ParseError::InvalidNumberFormat(string_from_chars(&text)))
        }
    }

    /// Scans one token at the cursor, which stands on a character that is
    /// not white space.
    fn scan_token(&mut self) -> (r: Result<Token, ParseError>)
        requires
            old(self).wf(),
            old(self).pos() < old(self).text().len(),
        ensures
            final(self).wf(),
            final(self).text() == old(self).text(),
            ({
                match (r, spec_scan_token(old(self).text(), old(self).pos())) {
                    (Ok(t), Ok((tv, k))) => t@ == tv && final(self).pos() == k && old(self).pos()
                        < k <= old(self).text().len(),
                    (Err(e), Err(ev)) => e@ == ev,
                    _ => false,
                }
            }),
    {
        let c = self.input[self.current];
        if c == '\\' {
            self.advance();
            Ok(Token::Lambda)
        } else if c == '=' {
            self.advance();
            if self.match_char('=') {
                Ok(Token::Equal)
            } else {
                Ok(Token::Assign)
            }
        } else if c == '<' {
            self.advance();
            Ok(Token::LessThan)
        } else if c == '>' {
            self.advance();
            Ok(Token::GreaterThan)
        } else if c == '&' {
            self.advance();
            if self.match_char('&') {
                Ok(Token::And)
            } else {
                Err(
                    ParseError::UnexpectedToken {
                        expected: String::from_str("valid token"),
                        found: char_to_string(c),
                        message: String::from_str("Unexpected character"),
                    },
                )
            }
        } else if c == '|' {
            self.advance();
            if self.match_char('|') {
                Ok(Token::Or)
            } else {
                Ok(Token::Pipe)
            }
        } else if c == '+' {
            self.advance();
            Ok(Token::Plus)
        } else if c == '-' {
            self.advance();
            if self.match_char('>') {
                Ok(Token::Arrow)
            } else {
                Ok(Token::Minus)
            }
        } else if c == '*' {
            self.advance();
            Ok(Token::Star)
        } else if c == '/' {
            self.advance();
            Ok(Token::Slash)
        } else if c == '.' {
            self.advance();
            Ok(Token::Dot)
        } else if c == '(' {
            self.advance();
            Ok(Token::LeftParen)
        } else if c == ')' {
            self.advance();
            Ok(Token::RightParen)
        } else if c == ':' {
            self.advance();
            Ok(Token::Colon)
        } else if is_digit_char(c) {
            self.scan_number()
        } else if is_alpha_char(c) {
            Ok(self.scan_identifier())
        } else if c == '_' {
            self.advance();
            Ok(Token::Wildcard)
        } else {
            self.advance();
            Err(
                ParseError::UnexpectedToken {
                    expected: String::from_str("valid token"),
                    found: char_to_string(c),
                    message: String::from_str("Unexpected character"),
                },
            )
        }
    }

    /// Converts the entire input, from the cursor on, into a vector of
    /// tokens. White space is skipped before each token; on success the
    /// result ends with exactly one end-of-stream sentinel; the first
    /// lexical error aborts the whole run with no partial result.
    pub fn tokenize(&mut self) -> (r: Result<Vec<Token>, ParseError>)
        requires
            old(self).wf(),
        ensures
            final(self).wf(),
            tokenize_result_matches(r, old(self).text(), old(self).pos()),
    {
        let ghost s = self.text();
        let ghost i0 = self.pos();
        let mut tokens: Vec<Token> = Vec::new();
        proof {
            assert(view_token_seq(tokens@) =~= Seq::<TokenView>::empty());
        }
        loop
            invariant
                self.wf(),
                self.text() == s,
                s == old(self).text(),
                i0 == old(self).pos(),
                0 <= i0 <= s.len(),
                self.pos() <= s.len(),
                (match spec_tokenize(s, self.pos()) {
                    Ok(rest) => spec_tokenize(s, i0) == Ok::<_, ParseErrorView>(
                        view_token_seq(tokens@) + rest,
                    ),
                    Err(e) => spec_tokenize(s, i0) == Err::<Seq<TokenView>, _>(e),
                }),
            decreases s.len() - self.pos(),
        {
            let ghost entry = self.pos();
            let ghost tks = tokens@;
            self.skip_whitespace();
            if self.is_at_end() {
                tokens.push(Token::Eof);
                proof {
                    lemma_view_tokens_push(tks, Token::Eof);
                    assert(view_token_seq(tks) + seq![TokenView::Eof] =~= view_token_seq(
                        tokens@,
                    ));
                }
                return Ok(tokens);
            }
            let t = match self.scan_token() {
                Ok(t) => t,
                Err(e) => {
                    return Err(e);
                },
            };
            tokens.push(t);
            proof {
                lemma_view_tokens_push(tks, t);
                let tv = t@;
                let k = self.pos();
                assert(spec_tokenize(s, entry) == match spec_tokenize(s, k) {
                    Err(e) => Err::<Seq<TokenView>, _>(e),
                    Ok(rest) => Ok::<_, ParseErrorView>(seq![tv] + rest),
                });
                if spec_tokenize(s, k) is Ok {
                    let rest = spec_tokenize(s, k)->Ok_0;
                    assert(view_token_seq(tks) + (seq![tv] + rest) =~= view_token_seq(tokens@)
                        + rest);
                }
            }
        }
    }
}

/// Executable check for the numeric shape [`valid_number`].
fn valid_number_chars(v: &Vec<char>) -> (r: bool)
    ensures
        r == valid_number(v@),
{
    let n = v.len();
    let mut k: usize = 0;
    loop
        invariant
            n == v@.len(),
            k <= n,
            scan_digits_end(v@, k as int) == scan_digits_end(v@, 0),
        ensures
            k <= n,
            k == scan_digits_end(v@, 0),
        decreases n - k,
    {
        if k < n && is_digit_char(v[k]) {
            k = k + 1;
            continue;
        }
        break;
    }
    if k == 0 {
        return false;
    }
    if k == n {
        return true;
    }
    if v[k] != '.' {
        return false;
    }
    let d = k;
    let mut m: usize = d + 1;
    loop
        invariant
            n == v@.len(),
            d + 1 <= m <= n,
            scan_digits_end(v@, m as int) == scan_digits_end(v@, d + 1),
        ensures
            m <= n,
            m == scan_digits_end(v@, d + 1),
        decreases n - m,
    {
        if m < n && is_digit_char(v[m]) {
            m = m + 1;
            continue;
        }
        break;
    }
    m == n
}

} // verus!
