//! The lexer: converts a character stream into a sequence of tokens. Lexing
//! never fails; the end of the stream is reported as a dedicated marker
//! token. The spec functions here define, character class by character
//! class, exactly which token starts at each position.

use vstd::prelude::*;

use crate::token::{Token, TokenV};

verus! {

/// Whitespace skipped between tokens.
pub open spec fn is_ws(c: char) -> bool {
    c == ' ' || c == '\t' || c == '\n' || c == '\r'
}

/// A decimal digit.
pub open spec fn is_digit(c: char) -> bool {
    48 <= c as u32 && c as u32 <= 57
}

/// A letter of either case.
pub open spec fn is_alpha(c: char) -> bool {
    (65 <= c as u32 && c as u32 <= 90) || (97 <= c as u32 && c as u32 <= 122)
}

/// A character that may continue a numeric literal: a dot or a hexadecimal
/// digit. Accepting the letters `a`-`f`/`A`-`F` mirrors the generic
/// digit-or-dot predicate this scanner is specified with.
pub open spec fn is_num_char(c: char) -> bool {
    c == '.' || is_digit(c) || (97 <= c as u32 && c as u32 <= 102) || (65 <= c as u32 && c as u32
        <= 70)
}

/// A character that may start an identifier.
pub open spec fn is_ident_start(c: char) -> bool {
    is_alpha(c) || c == '_'
}

/// A character that may continue an identifier.
pub open spec fn is_ident_char(c: char) -> bool {
    is_alpha(c) || is_digit(c) || c == '_'
}

/// The position of the first non-whitespace character at or after `i`.
pub open spec fn ws_end(s: Seq<char>, i: int) -> int
    decreases s.len() - i when 0 <= i <= s.len()
{
    if i >= s.len() {
        s.len() as int
    } else if is_ws(s[i]) {
        ws_end(s, i + 1)
    } else {
        i
    }
}

/// The end of a maximal run of numeric-literal characters starting at `i`.
pub open spec fn num_end(s: Seq<char>, i: int) -> int
    decreases s.len() - i when 0 <= i <= s.len()
{
    if i >= s.len() {
        s.len() as int
    } else if is_num_char(s[i]) {
        num_end(s, i + 1)
    } else {
        i
    }
}

/// The end of a maximal run of identifier characters starting at `i`.
pub open spec fn ident_end(s: Seq<char>, i: int) -> int
    decreases s.len() - i when 0 <= i <= s.len()
{
    if i >= s.len() {
        s.len() as int
    } else if is_ident_char(s[i]) {
        ident_end(s, i + 1)
    } else {
        i
    }
}

/// The position just past a line comment whose text starts at `i`: everything
/// through the next line break (or the end of the stream) is consumed.
pub open spec fn comment_end(s: Seq<char>, i: int) -> int
    decreases s.len() - i when 0 <= i <= s.len()
{
    if i >= s.len() {
        s.len() as int
    } else if s[i] == '\n' || s[i] == '\r' {
        i + 1
    } else {
        comment_end(s, i + 1)
    }
}

pub open spec fn kw_def() -> Seq<char> {
    seq!['d', 'e', 'f']
}

pub open spec fn kw_extern() -> Seq<char> {
    seq!['e', 'x', 't', 'e', 'r', 'n']
}

pub open spec fn kw_binary() -> Seq<char> {
    seq!['b', 'i', 'n', 'a', 'r', 'y']
}

/// The token for a captured identifier run: a keyword where the text matches
/// one, an identifier otherwise.
pub open spec fn keyword_or_ident(text: Seq<char>) -> TokenV {
    if text == kw_def() {
        TokenV::Def
    } else if text == kw_extern() {
        TokenV::Extern
    } else if text == kw_binary() {
        TokenV::Binary
    } else {
        TokenV::Ident(text)
    }
}

/// The token starting at position `i` (which must hold a non-whitespace
/// character) and the position just past it.
pub open spec fn scan_token(s: Seq<char>, i: int) -> (TokenV, int) {
    let c = s[i];
    if c == '(' {
        (TokenV::LParen, i + 1)
    } else if c == ')' {
        (TokenV::RParen, i + 1)
    } else if c == ',' {
        (TokenV::Comma, i + 1)
    } else if c == '#' {
        (TokenV::Comment, comment_end(s, i + 1))
    } else if c == '.' || is_digit(c) {
        (TokenV::Number(s.subrange(i, num_end(s, i + 1))), num_end(s, i + 1))
    } else if is_ident_start(c) {
        (keyword_or_ident(s.subrange(i, ident_end(s, i + 1))), ident_end(s, i + 1))
    } else {
        (TokenV::Op(c), i + 1)
    }
}

pub proof fn lemma_ws_end(s: Seq<char>, i: int)
    requires
        0 <= i <= s.len(),
    ensures
        i <= ws_end(s, i) <= s.len(),
    decreases s.len() - i,
{
    if i < s.len() && is_ws(s[i]) {
        lemma_ws_end(s, i + 1);
    }
}

pub proof fn lemma_num_end(s: Seq<char>, i: int)
    requires
        0 <= i <= s.len(),
    ensures
        i <= num_end(s, i) <= s.len(),
    decreases s.len() - i,
{
    if i < s.len() && is_num_char(s[i]) {
        lemma_num_end(s, i + 1);
    }
}

pub proof fn lemma_ident_end(s: Seq<char>, i: int)
    requires
        0 <= i <= s.len(),
    ensures
        i <= ident_end(s, i) <= s.len(),
    decreases s.len() - i,
{
    if i < s.len() && is_ident_char(s[i]) {
        lemma_ident_end(s, i + 1);
    }
}

pub proof fn lemma_comment_end(s: Seq<char>, i: int)
    requires
        0 <= i <= s.len(),
    ensures
        i <= comment_end(s, i) <= s.len(),
    decreases s.len() - i,
{
    if i < s.len() && !(s[i] == '\n' || s[i] == '\r') {
        lemma_comment_end(s, i + 1);
    }
}

/// A scanned token ends strictly past where it starts, and within the input.
pub proof fn lemma_scan_token(s: Seq<char>, i: int)
    requires
        0 <= i < s.len(),
    ensures
        i + 1 <= scan_token(s, i).1 <= s.len(),
{
    lemma_comment_end(s, i + 1);
    lemma_num_end(s, i + 1);
    lemma_ident_end(s, i + 1);
}

/// A scanned token is never the end-of-stream marker.
pub proof fn lemma_scan_not_eof(s: Seq<char>, i: int)
    requires
        0 <= i < s.len(),
    ensures
        scan_token(s, i).0 != TokenV::EOF,
{
}

/// The whole token stream from position `i` on: whitespace is skipped before
/// each token, and the end-of-stream marker is not included.
pub open spec fn spec_tokens(s: Seq<char>, i: int) -> Seq<TokenV>
    decreases s.len() - i when 0 <= i <= s.len() via spec_tokens_decreases
{
    let j = ws_end(s, i);
    if j >= s.len() {
        Seq::empty()
    } else {
        seq![scan_token(s, j).0] + spec_tokens(s, scan_token(s, j).1)
    }
}

#[via_fn]
proof fn spec_tokens_decreases(s: Seq<char>, i: int) {
    lemma_ws_end(s, i);
    if ws_end(s, i) < s.len() {
        lemma_scan_token(s, ws_end(s, i));
    }
}

/// The models of a sequence of tokens, in order.
pub open spec fn tokens_view(ts: Seq<Token>) -> Seq<TokenV> {
    ts.map_values(|t: Token| t@)
}

/// Relies on `String::push`: appends exactly the one character to the string.
#[verifier::external_body]
pub(crate) fn push_char(s: &mut String, c: char)
    ensures
        final(s)@ == old(s)@.push(c),
{
    s.push(c)
}

/// A freshly allocated string holding `v[from..to]`.
pub(crate) fn string_of_range(v: &Vec<char>, from: usize, to: usize) -> (r: String)
    requires
        from <= to <= v@.len(),
    ensures
        r@ == v@.subrange(from as int, to as int),
{
    let mut r = String::new();
    let mut i: usize = from;
    while i < to
        invariant
            from <= i <= to <= v@.len(),
            r@ == v@.subrange(from as int, i as int),
        decreases to - i,
    {
        push_char(&mut r, v[i]);
        i += 1;
        proof {
            assert(v@.subrange(from as int, i as int) =~= v@.subrange(from as int, i - 1).push(
                v@[i - 1],
            ));
        }
    }
    r
}

/// The lexer: an input held as characters and a read cursor. It yields one
/// token per call to `token`, advancing the cursor past it.
pub struct Lexer {
    /// The characters of the input chunk.
    pub chars: Vec<char>,
    /// The current read position.
    pub pos: usize,
}

impl Lexer {
    /// The cursor never runs past the end of the input.
    pub open spec fn wf(&self) -> bool {
        self.pos <= self.chars@.len()
    }

    /// Creates a new `Lexer` over the given input.
    pub fn new(input: &str) -> (r: Lexer)
        ensures
            r.chars@ == input@,
            r.pos == 0,
            r.wf(),
    {
        let n = input.unicode_len();
        let mut chars: Vec<char> = Vec::new();
        let mut i: usize = 0;
        while i < n
            invariant
                n == input@.len(),
                0 <= i <= n,
                chars@ == input@.subrange(0, i as int),
            decreases n - i,
        {
            chars.push(input.get_char(i));
            i += 1;
            proof {
                assert(input@.subrange(0, i as int) =~= input@.subrange(0, i - 1).push(
                    input@[i - 1],
                ));
            }
        }
        proof {
            assert(input@.subrange(0, n as int) =~= input@);
        }
        Lexer { chars, pos: 0 }
    }

    /// Moves the cursor one character forward.
    pub fn advance(&mut self)
        requires
            old(self).wf(),
            old(self).pos < old(self).chars@.len(),
        ensures
            final(self).chars == old(self).chars,
            final(self).pos == old(self).pos + 1,
            final(self).wf(),
    {
        let n = self.chars.len();
        assert(self.pos < n);
        self.pos = self.pos + 1;
    }

    /// Skips the run of whitespace at the cursor.
    pub fn skip_whitespace(&mut self)
        requires
            old(self).wf(),
        ensures
            final(self).chars == old(self).chars,
            final(self).pos == ws_end(old(self).chars@, old(self).pos as int),
            final(self).wf(),
    {
        let ghost s = self.chars@;
        let ghost p0 = self.pos as int;
        let n = self.chars.len();
        while self.pos < n && is_ws_char(self.chars[self.pos])
            invariant
                n == s.len(),
                self.chars@ == s,
                self.chars == old(self).chars,
                self.pos <= n,
                ws_end(s, p0) == ws_end(s, self.pos as int),
            decreases n - self.pos,
        {
            self.pos = self.pos + 1;
        }
    }

    fn lex_comment(&mut self) -> (r: Token)
        requires
            old(self).wf(),
        ensures
            final(self).chars == old(self).chars,
            final(self).pos == comment_end(old(self).chars@, old(self).pos as int),
            final(self).wf(),
            r@ == TokenV::Comment,
    {
        let ghost s = self.chars@;
        let ghost p0 = self.pos as int;
        let n = self.chars.len();
        while self.pos < n && !(self.chars[self.pos] == '\n' || self.chars[self.pos] == '\r')
            invariant
                n == s.len(),
                self.chars@ == s,
                self.chars == old(self).chars,
                self.pos <= n,
                comment_end(s, p0) == comment_end(s, self.pos as int),
            decreases n - self.pos,
        {
            self.pos = self.pos + 1;
        }
        if self.pos < n {
            self.pos = self.pos + 1;
        }
        Token::Comment
    }

    fn lex_number(&mut self, start: usize) -> (r: Token)
        requires
            old(self).wf(),
            start <= old(self).pos,
        ensures
            final(self).chars == old(self).chars,
            final(self).pos == num_end(old(self).chars@, old(self).pos as int),
            final(self).wf(),
            r@ == TokenV::Number(final(self).chars@.subrange(start as int, final(self).pos as int)),
    {
        let ghost s = self.chars@;
        let ghost p0 = self.pos as int;
        let n = self.chars.len();
        while self.pos < n && is_num_char_exec(self.chars[self.pos])
            invariant
                n == s.len(),
                self.chars@ == s,
                self.chars == old(self).chars,
                self.pos <= n,
                start <= self.pos,
                num_end(s, p0) == num_end(s, self.pos as int),
            decreases n - self.pos,
        {
            self.pos = self.pos + 1;
        }
        let text = string_of_range(&self.chars, start, self.pos);
        Token::Number(text)
    }

    fn lex_ident(&mut self, start: usize) -> (r: Token)
        requires
            old(self).wf(),
            start <= old(self).pos,
        ensures
            final(self).chars == old(self).chars,
            final(self).pos == ident_end(old(self).chars@, old(self).pos as int),
            final(self).wf(),
            r@ == keyword_or_ident(final(self).chars@.subrange(start as int, final(self).pos as int)),
    {
        let ghost s = self.chars@;
        let ghost p0 = self.pos as int;
        let n = self.chars.len();
        while self.pos < n && is_ident_char_exec(self.chars[self.pos])
            invariant
                n == s.len(),
                self.chars@ == s,
                self.chars == old(self).chars,
                self.pos <= n,
                start <= self.pos,
                ident_end(s, p0) == ident_end(s, self.pos as int),
            decreases n - self.pos,
        {
            self.pos = self.pos + 1;
        }
        let ghost text = self.chars@.subrange(start as int, self.pos as int);
        let m = self.pos - start;
        if m == 3 && self.chars[start] == 'd' && self.chars[start + 1] == 'e' && self.chars[start
            + 2] == 'f' {
            proof {
                assert(text =~= kw_def());
            }
            Token::Def
        } else if m == 6 && self.chars[start] == 'e' && self.chars[start + 1] == 'x'
            && self.chars[start + 2] == 't' && self.chars[start + 3] == 'e' && self.chars[start
            + 4] == 'r' && self.chars[start + 5] == 'n' {
            proof {
                assert(text =~= kw_extern());
            }
            Token::Extern
        } else if m == 6 && self.chars[start] == 'b' && self.chars[start + 1] == 'i'
            && self.chars[start + 2] == 'n' && self.chars[start + 3] == 'a' && self.chars[start
            + 4] == 'r' && self.chars[start + 5] == 'y' {
            proof {
                assert(text =~= kw_binary());
            }
            Token::Binary
        } else {
            proof {
                assert(text.len() == self.pos - start);
                assert(text != kw_def()) by {
                    if text == kw_def() {
                        assert(text[0] == 'd' && text[1] == 'e' && text[2] == 'f');
                        assert(self.chars@[start as int] == 'd');
                        assert(self.chars@[start + 1] == 'e');
                        assert(self.chars@[start + 2] == 'f');
                    }
                }
                assert(text != kw_extern()) by {
                    if text == kw_extern() {
                        assert(text[0] == 'e' && text[1] == 'x' && text[2] == 't' && text[3] == 'e'
                            && text[4] == 'r' && text[5] == 'n');
                        assert(self.chars@[start as int] == 'e');
                        assert(self.chars@[start + 1] == 'x');
                        assert(self.chars@[start + 2] == 't');
                        assert(self.chars@[start + 3] == 'e');
                        assert(self.chars@[start + 4] == 'r');
                        assert(self.chars@[start + 5] == 'n');
                    }
                }
                assert(text != kw_binary()) by {
                    if text == kw_binary() {
                        assert(text[0] == 'b' && text[1] == 'i' && text[2] == 'n' && text[3] == 'a'
                            && text[4] == 'r' && text[5] == 'y');
                        assert(self.chars@[start as int] == 'b');
                        assert(self.chars@[start + 1] == 'i');
                        assert(self.chars@[start + 2] == 'n');
                        assert(self.chars@[start + 3] == 'a');
                        assert(self.chars@[start + 4] == 'r');
                        assert(self.chars@[start + 5] == 'y');
                    }
                }
            }
            let text = string_of_range(&self.chars, start, self.pos);
            Token::Ident(text)
        }
    }

    /// Lexes the next token. At the end of the input the end-of-stream marker
    /// is returned and the cursor does not move further.
    pub fn token(&mut self) -> (r: Token)
        requires
            old(self).wf(),
        ensures
            final(self).chars == old(self).chars,
            final(self).wf(),
            ({
                let s = old(self).chars@;
                let j = ws_end(s, old(self).pos as int);
                if j >= s.len() {
                    r@ == TokenV::EOF && final(self).pos == j
                } else {
                    r@ == scan_token(s, j).0 && final(self).pos == scan_token(s, j).1
                        && final(self).pos > j
                }
            }),
    {
        self.skip_whitespace();
        proof {
            lemma_ws_end(old(self).chars@, old(self).pos as int);
        }
        if self.pos >= self.chars.len() {
            return Token::EOF;
        }
        let ghost j = self.pos as int;
        let c = self.chars[self.pos];
        let start = self.pos;
        self.advance();
        proof {
            lemma_comment_end(self.chars@, j + 1);
            lemma_num_end(self.chars@, j + 1);
            lemma_ident_end(self.chars@, j + 1);
        }
        if c == '(' {
            Token::LParen
        } else if c == ')' {
            Token::RParen
        } else if c == ',' {
            Token::Comma
        } else if c == '#' {
            self.lex_comment()
        } else if c == '.' || is_digit_exec(c) {
            self.lex_number(start)
        } else if is_ident_start_exec(c) {
            self.lex_ident(start)
        } else {
            Token::Op(c)
        }
    }

    /// Lexes the remaining input into the full token buffer, comments
    /// included, stopping at the end-of-stream marker (which is not stored).
    pub fn tokenize(&mut self) -> (r: Vec<Token>)
        requires
            old(self).wf(),
        ensures
            final(self).chars == old(self).chars,
            final(self).wf(),
            tokens_view(r@) == spec_tokens(old(self).chars@, old(self).pos as int),
    {
        let ghost s = self.chars@;
        let ghost p0 = self.pos as int;
        let mut r: Vec<Token> = Vec::new();
        loop
            invariant
                self.wf(),
                self.chars@ == s,
                self.chars == old(self).chars,
                p0 == old(self).pos,
                spec_tokens(s, p0) == tokens_view(r@) + spec_tokens(s, self.pos as int),
            decreases s.len() - self.pos,
        {
            let ghost p = self.pos as int;
            let t = self.token();
            let is_end = match &t {
                Token::EOF => true,
                _ => false,
            };
            if is_end {
                proof {
                    lemma_ws_end(s, p);
                    if ws_end(s, p) < s.len() {
                        lemma_scan_not_eof(s, ws_end(s, p));
                    }
                    assert(spec_tokens(s, p) =~= Seq::<TokenV>::empty());
                    assert(tokens_view(r@) + spec_tokens(s, p) =~= tokens_view(r@));
                }
                return r;
            }
            let ghost r_old = r@;
            r.push(t);
            proof {
                lemma_ws_end(s, p);
                let j = ws_end(s, p);
                assert(spec_tokens(s, p) == seq![scan_token(s, j).0] + spec_tokens(
                    s,
                    self.pos as int,
                ));
                assert(tokens_view(r@) =~= tokens_view(r_old).push(t@));
                assert(tokens_view(r_old) + spec_tokens(s, p) =~= tokens_view(r@) + spec_tokens(
                    s,
                    self.pos as int,
                ));
            }
        }
    }
}

fn is_ws_char(c: char) -> (r: bool)
    ensures
        r == is_ws(c),
{
    c == ' ' || c == '\t' || c == '\n' || c == '\r'
}

fn is_digit_exec(c: char) -> (r: bool)
    ensures
        r == is_digit(c),
{
    let u = c as u32;
    48 <= u && u <= 57
}

fn is_num_char_exec(c: char) -> (r: bool)
    ensures
        r == is_num_char(c),
{
    let u = c as u32;
    c == '.' || (48 <= u && u <= 57) || (97 <= u && u <= 102) || (65 <= u && u <= 70)
}

fn is_ident_start_exec(c: char) -> (r: bool)
    ensures
        r == is_ident_start(c),
{
    let u = c as u32;
    (65 <= u && u <= 90) || (97 <= u && u <= 122) || c == '_'
}

fn is_ident_char_exec(c: char) -> (r: bool)
    ensures
        r == is_ident_char(c),
{
    let u = c as u32;
    (65 <= u && u <= 90) || (97 <= u && u <= 122) || (48 <= u && u <= 57) || c == '_'
}

} // verus!
