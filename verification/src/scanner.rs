//! The lexical scanner: source text to tokens, one ahead.
//!
//! The scanner walks the source byte by byte, treating each byte as the
//! character it encodes in Latin-1, exactly as the byte classes below
//! spell out. It always holds one token of lookahead: `peek_next` shows
//! it, `next_token` consumes it and reads the next, and an `Eof` token
//! repeats for ever past the end of input. The relation [`lexes`] states
//! which token a position of the text yields and where the next begins;
//! every method's contract is phrased with it.

use vstd::prelude::*;

use crate::numeric::parsed_bits;
use crate::tokens::{clone_token, Token};
use vstd::string::StrSliceExecFns;

verus! {

/// A lexical fault: a character no token can start with or follow, or a
/// numeral that does not denote a number.
#[derive(Debug)]
pub enum ScannerError {
    UnexpectedToken(String),
    UnexpectedEof,
    InvalidNumeric(String),
}

/// Whether the byte encodes a whitespace character in Latin-1.
pub open spec fn is_ws(b: u8) -> bool {
    b == 0x09 || b == 0x0A || b == 0x0B || b == 0x0C || b == 0x0D || b == 0x20 || b == 0x85 || b
        == 0xA0
}

/// Whether the byte encodes a decimal digit.
pub open spec fn is_digit_b(b: u8) -> bool {
    0x30 <= b && b <= 0x39
}

/// Whether the byte encodes an alphabetic character in Latin-1.
pub open spec fn is_alpha_b(b: u8) -> bool {
    (0x41 <= b && b <= 0x5A) || (0x61 <= b && b <= 0x7A) || b == 0xAA || b == 0xB5 || b == 0xBA
        || (0xC0 <= b && b <= 0xD6) || (0xD8 <= b && b <= 0xF6) || 0xF8 <= b
}

/// Whether the byte encodes an alphanumeric character in Latin-1.
pub open spec fn is_alnum_b(b: u8) -> bool {
    is_alpha_b(b) || is_digit_b(b) || b == 0xB2 || b == 0xB3 || b == 0xB9 || (0xBC <= b && b
        <= 0xBE)
}

/// Whether the byte can continue a numeral: a digit or a dot.
pub open spec fn is_numchar_b(b: u8) -> bool {
    is_digit_b(b) || b == 0x2E
}

/// Where the text's next token starts: whitespace is passed over, and a
/// hash starts a comment that runs to the end of the line.
pub open spec fn skip_to(bytes: Seq<u8>, i: int) -> int
    decreases bytes.len() - i, 0int,
{
    if i < 0 || i >= bytes.len() {
        i
    } else if is_ws(bytes[i]) {
        skip_to(bytes, i + 1)
    } else if bytes[i] == 0x23 {
        skip_comment(bytes, i + 1)
    } else {
        i
    }
}

/// Where skipping resumes inside a comment: at the line's end, or at a
/// stray NUL byte, which reads as end of input.
pub open spec fn skip_comment(bytes: Seq<u8>, i: int) -> int
    decreases bytes.len() - i, 1int,
{
    if i < 0 || i >= bytes.len() {
        i
    } else if bytes[i] == 0x0A {
        skip_to(bytes, i + 1)
    } else if bytes[i] == 0 {
        i
    } else {
        skip_comment(bytes, i + 1)
    }
}

/// Skipping never moves backwards, and never past the end.
pub proof fn lemma_skip_to_bounds(bytes: Seq<u8>, i: int)
    requires
        0 <= i <= bytes.len(),
    ensures
        i <= skip_to(bytes, i) <= bytes.len(),
    decreases bytes.len() - i, 0int,
{
    if i < bytes.len() && is_ws(bytes[i]) {
        lemma_skip_to_bounds(bytes, i + 1);
    } else if i < bytes.len() && bytes[i] == 0x23 {
        lemma_skip_comment_bounds(bytes, i + 1);
    }
}

/// Comment skipping never moves backwards, and never past the end.
pub proof fn lemma_skip_comment_bounds(bytes: Seq<u8>, i: int)
    requires
        0 <= i <= bytes.len(),
    ensures
        i <= skip_comment(bytes, i) <= bytes.len(),
    decreases bytes.len() - i, 1int,
{
    if i < bytes.len() && bytes[i] == 0x0A {
        lemma_skip_to_bounds(bytes, i + 1);
    } else if i < bytes.len() && bytes[i] != 0 {
        lemma_skip_comment_bounds(bytes, i + 1);
    }
}

/// The character at a position of the text, or NUL past its end.
pub open spec fn char_at(bytes: Seq<u8>, i: int) -> char {
    if 0 <= i < bytes.len() {
        bytes[i] as char
    } else {
        '\u{0}'
    }
}

/// The characters a byte range of the text encodes in Latin-1.
pub open spec fn chars_of(bytes: Seq<u8>, i: int, j: int) -> Seq<char> {
    if i <= j {
        Seq::new((j - i) as nat, |k: int| bytes[i + k] as char)
    } else {
        Seq::empty()
    }
}

/// Where the numeral starting at a position ends.
pub open spec fn num_end(bytes: Seq<u8>, i: int) -> int
    decreases bytes.len() - i,
{
    if i < 0 || i >= bytes.len() || !is_numchar_b(bytes[i]) {
        i
    } else {
        num_end(bytes, i + 1)
    }
}

/// Where the word starting at a position ends.
pub open spec fn word_end(bytes: Seq<u8>, i: int) -> int
    decreases bytes.len() - i,
{
    if i < 0 || i >= bytes.len() || !is_alnum_b(bytes[i]) {
        i
    } else {
        word_end(bytes, i + 1)
    }
}

/// A numeral run never ends before it starts.
pub proof fn lemma_num_end_ge(bytes: Seq<u8>, i: int)
    requires
        0 <= i <= bytes.len(),
    ensures
        i <= num_end(bytes, i) <= bytes.len(),
    decreases bytes.len() - i,
{
    if i < bytes.len() && is_numchar_b(bytes[i]) {
        lemma_num_end_ge(bytes, i + 1);
    }
}

/// A word run never ends before it starts.
pub proof fn lemma_word_end_ge(bytes: Seq<u8>, i: int)
    requires
        0 <= i <= bytes.len(),
    ensures
        i <= word_end(bytes, i) <= bytes.len(),
    decreases bytes.len() - i,
{
    if i < bytes.len() && is_alnum_b(bytes[i]) {
        lemma_word_end_ge(bytes, i + 1);
    }
}

/// The keyword a word denotes, if any.
pub open spec fn keyword_of(word: Seq<char>) -> Option<Token> {
    if word == "def"@ {
        Some(Token::Def)
    } else if word == "return"@ {
        Some(Token::Return)
    } else if word == "if"@ {
        Some(Token::If)
    } else if word == "else"@ {
        Some(Token::Else)
    } else if word == "while"@ {
        Some(Token::While)
    } else if word == "sqrt"@ {
        Some(Token::Sqrt)
    } else if word == "len"@ {
        Some(Token::Len)
    } else if word == "round"@ {
        Some(Token::Round)
    } else if word == "input"@ {
        Some(Token::Input)
    } else {
        None
    }
}

/// The token a single byte denotes, if any.
pub open spec fn single_tok(b: u8) -> Option<Token> {
    if b == 0x28 {
        Some(Token::LParen)
    } else if b == 0x29 {
        Some(Token::RParen)
    } else if b == 0x2C {
        Some(Token::Comma)
    } else if b == 0x7B {
        Some(Token::LCurly)
    } else if b == 0x7D {
        Some(Token::RCurly)
    } else if b == 0x5B {
        Some(Token::LBracket)
    } else if b == 0x5D {
        Some(Token::RBracket)
    } else if b == 0x3B {
        Some(Token::SColon)
    } else if b == 0x2D {
        Some(Token::Minus)
    } else if b == 0x2B {
        Some(Token::Plus)
    } else if b == 0x2A {
        Some(Token::Mul)
    } else if b == 0x2F {
        Some(Token::Div)
    } else if b == 0x25 {
        Some(Token::Mod)
    } else {
        None
    }
}

/// That the text yields token `t` spanning positions `k` to `j`, where
/// `k` is where skipping stopped. Past the end, and at a stray NUL byte,
/// the token is `Eof` and nothing is consumed.
pub open spec fn lexes(bytes: Seq<u8>, k: int, j: int, t: Token) -> bool {
    let n = bytes.len() as int;
    if k < 0 {
        false
    } else if k >= n {
        t == Token::Eof && j == k
    } else {
        let b = bytes[k];
        if single_tok(b) is Some {
            Some(t) == single_tok(b) && j == k + 1
        } else if b == 0x3A {
            k + 1 < n && bytes[k + 1] == 0x3D && t == Token::Assign && j == k + 2
        } else if b == 0x7C {
            k + 1 < n && bytes[k + 1] == 0x7C && t == Token::Or && j == k + 2
        } else if b == 0x26 {
            k + 1 < n && bytes[k + 1] == 0x26 && t == Token::And && j == k + 2
        } else if b == 0x3D {
            k + 1 < n && bytes[k + 1] == 0x3D && t == Token::Equals && j == k + 2
        } else if b == 0x21 {
            if k + 1 < n && bytes[k + 1] == 0x3D {
                t == Token::NotEqual && j == k + 2
            } else {
                t == Token::Not && j == k + 1
            }
        } else if b == 0x3C {
            if k + 1 < n && bytes[k + 1] == 0x3D {
                t == Token::LessEqual && j == k + 2
            } else {
                t == Token::Less && j == k + 1
            }
        } else if b == 0x3E {
            if k + 1 < n && bytes[k + 1] == 0x3D {
                t == Token::MoreEqual && j == k + 2
            } else {
                t == Token::More && j == k + 1
            }
        } else if is_digit_b(b) {
            j == num_end(bytes, k) && (t matches Token::Num(bits) && parsed_bits(
                chars_of(bytes, k, num_end(bytes, k)),
            ) == Some(bits))
        } else if is_alpha_b(b) {
            j == word_end(bytes, k) && (match keyword_of(chars_of(bytes, k, word_end(bytes, k))) {
                Some(kw) => t == kw,
                None => t matches Token::Name(s) && s@ == chars_of(bytes, k, word_end(bytes, k)),
            })
        } else if b == 0 {
            t == Token::Eof && j == k
        } else {
            false
        }
    }
}

/// That the text yields lexical fault `e` at position `k`, where `k` is
/// where skipping stopped.
pub open spec fn lex_err(bytes: Seq<u8>, k: int, e: ScannerError) -> bool {
    let n = bytes.len() as int;
    0 <= k < n && {
        let b = bytes[k];
        if b == 0x3A || b == 0x3D {
            !(k + 1 < n && bytes[k + 1] == 0x3D) && (e matches ScannerError::UnexpectedToken(s)
                && s@ == seq![char_at(bytes, k + 1)])
        } else if b == 0x7C || b == 0x26 {
            !(k + 1 < n && bytes[k + 1] == b) && (e matches ScannerError::UnexpectedToken(s) && s@
                == seq![char_at(bytes, k + 1)])
        } else if is_digit_b(b) {
            parsed_bits(chars_of(bytes, k, num_end(bytes, k))) is None && (e matches
                ScannerError::InvalidNumeric(s) && s@ == chars_of(bytes, k, num_end(bytes, k)))
        } else if single_tok(b) is Some || b == 0x21 || b == 0x3C || b == 0x3E || is_alpha_b(b)
            || b == 0 {
            false
        } else {
            e matches ScannerError::UnexpectedToken(s) && s@ == seq![b as char]
        }
    }
}

/// Relies on String::push: appends one character to the text.
#[verifier::external_body]
fn push_char(s: &mut String, c: char)
    ensures
        final(s)@ == old(s)@.push(c),
{
    s.push(c);
}

/// Relies on char's Display through ToString: the one-character text.
#[verifier::external_body]
fn char_to_string(c: char) -> (r: String)
    ensures
        r@ == seq![c],
{
    c.to_string()
}

/// The text whose characters are the bytes read in Latin-1.
fn string_of_bytes(v: &Vec<u8>) -> (s: String)
    ensures
        s@ == v@.map_values(|b: u8| b as char),
{
    let mut s = String::new();
    let mut i: usize = 0;
    while i < v.len()
        invariant
            i <= v@.len(),
            s@ == v@.take(i as int).map_values(|b: u8| b as char),
        decreases v@.len() - i,
    {
        push_char(&mut s, v[i] as char);
        proof {
            assert(s@ =~= v@.take(i + 1).map_values(|b: u8| b as char));
        }
        i = i + 1;
    }
    proof {
        assert(v@.take(v@.len() as int) =~= v@);
    }
    s
}

/// The keyword a word of text denotes, if any.
fn get_keyword(word: &str) -> (r: Option<Token>)
    ensures
        r == keyword_of(word@),
{
    let w: String = word.to_owned();
    if w == "def".to_owned() {
        Some(Token::Def)
    } else if w == "return".to_owned() {
        Some(Token::Return)
    } else if w == "if".to_owned() {
        Some(Token::If)
    } else if w == "else".to_owned() {
        Some(Token::Else)
    } else if w == "while".to_owned() {
        Some(Token::While)
    } else if w == "sqrt".to_owned() {
        Some(Token::Sqrt)
    } else if w == "len".to_owned() {
        Some(Token::Len)
    } else if w == "round".to_owned() {
        Some(Token::Round)
    } else if w == "input".to_owned() {
        Some(Token::Input)
    } else {
        None
    }
}

/// The lookahead-1 token source over one piece of source text.
#[derive(Debug)]
pub struct Scanner {
    input: Vec<u8>,
    cur: usize,
    next: Token,
    src_line: usize,
}

impl Scanner {
    /// The source text, as bytes.
    pub closed spec fn bytes(self) -> Seq<u8> {
        self.input@
    }

    /// How far the text has been read.
    pub closed spec fn pos(self) -> int {
        self.cur as int
    }

    /// The pre-read token that `next_token` will hand out next.
    pub closed spec fn peek(self) -> Token {
        self.next
    }

    /// The reading position never passes the end of the text.
    pub open spec fn wf(self) -> bool {
        0 <= self.pos() <= self.bytes().len()
    }

    /// How much work is left: unread bytes, plus one while the lookahead
    /// is not yet `Eof`. Consuming a token other than `Eof` shrinks it.
    pub open spec fn remaining(self) -> int {
        self.bytes().len() - self.pos() + if self.peek() is Eof {
            0int
        } else {
            1int
        }
    }

    /// A scanner over the text, with the first token already read; fails
    /// exactly when the text's first token is a lexical fault.
    pub fn new(input: String) -> (r: Result<Scanner, ScannerError>)
        ensures
            match r {
                Ok(s) => s.wf() && s.bytes() == vstd::utf8::encode_utf8(input@) && lexes(
                    s.bytes(),
                    skip_to(s.bytes(), 0),
                    s.pos(),
                    s.peek(),
                ),
                Err(e) => lex_err(
                    vstd::utf8::encode_utf8(input@),
                    skip_to(vstd::utf8::encode_utf8(input@), 0),
                    e,
                ),
            },
    {
        let bytes = input.as_str().as_bytes_vec();
        let mut scanner = Scanner { input: bytes, cur: 0, next: Token::Start, src_line: 1 };
        match scanner.next_token() {
            Ok(_) => Ok(scanner),
            Err(e) => Err(e),
        }
    }

    /// Whether the whole text has been read.
    pub fn is_eof(&self) -> (r: bool)
        ensures
            r == (self.pos() >= self.bytes().len()),
    {
        self.cur >= self.input.len()
    }

    /// The token that `next_token` will hand out next, unconsumed.
    pub fn peek_next(&self) -> (t: Token)
        ensures
            t == self.peek(),
    {
        clone_token(&self.next)
    }

    /// Hands out the pre-read token and reads the one after it. Fails
    /// exactly when the text past the consumed token starts with a
    /// lexical fault; consuming any token but `Eof` shrinks the work
    /// left, which is what callers' loops count down.
    pub fn next_token(&mut self) -> (r: Result<Token, ScannerError>)
        requires
            old(self).wf(),
        ensures
            final(self).bytes() == old(self).bytes(),
            final(self).wf(),
            match r {
                Ok(t) => t == old(self).peek() && lexes(
                    old(self).bytes(),
                    skip_to(old(self).bytes(), old(self).pos()),
                    final(self).pos(),
                    final(self).peek(),
                ) && old(self).pos() <= final(self).pos() && final(self).remaining() <= old(
                    self,
                ).remaining() && (!(old(self).peek() is Eof) ==> final(self).remaining() < old(
                    self,
                ).remaining()),
                Err(e) => lex_err(
                    old(self).bytes(),
                    skip_to(old(self).bytes(), old(self).pos()),
                    e,
                ) && final(self).peek() == old(self).peek() && final(self).remaining() <= old(
                    self,
                ).remaining(),
            },
    {
        let result = clone_token(&self.next);
        let ghost pos0 = self.pos();
        match self.get_next() {
            Ok(t) => {
                proof {
                    lemma_skip_to_bounds(self.bytes(), pos0);
                    let k = skip_to(self.bytes(), pos0);
                    if 0 <= k && k + 1 <= self.bytes().len() {
                        lemma_num_end_ge(self.bytes(), k + 1);
                        lemma_word_end_ge(self.bytes(), k + 1);
                    }
                }
                self.next = t;
                Ok(result)
            },
            Err(e) => Err(e),
        }
    }

    /// The byte under the cursor, or NUL past the end.
    fn peek_byte(&self) -> (r: u8)
        ensures
            r == (if self.pos() < self.bytes().len() {
                self.bytes()[self.pos()]
            } else {
                0
            }),
            r as char == char_at(self.bytes(), self.pos()),
    {
        if self.cur < self.input.len() {
            self.input[self.cur]
        } else {
            0
        }
    }

    /// Moves the cursor one byte on.
    fn advance(&mut self)
        requires
            old(self).wf(),
            old(self).pos() < old(self).bytes().len(),
        ensures
            final(self).bytes() == old(self).bytes(),
            final(self).next == old(self).next,
            final(self).pos() == old(self).pos() + 1,
            final(self).wf(),
    {
        let n = self.input.len();
        if self.cur < n {
            self.cur = self.cur + 1;
        }
    }

    /// Counts a line, stopping at the counter's ceiling rather than
    /// wrapping.
    fn count_line(&mut self)
        ensures
            final(self).bytes() == old(self).bytes(),
            final(self).next == old(self).next,
            final(self).pos() == old(self).pos(),
            final(self).wf() == old(self).wf(),
    {
        if self.src_line < usize::MAX {
            self.src_line = self.src_line + 1;
        }
    }

    /// Passes over whitespace, leaving the cursor at the first byte that
    /// is none, and counting the lines passed.
    fn skip_whitespace(&mut self)
        requires
            old(self).wf(),
        ensures
            final(self).bytes() == old(self).bytes(),
            final(self).next == old(self).next,
            final(self).wf(),
            old(self).pos() <= final(self).pos(),
            skip_to(old(self).bytes(), old(self).pos()) == skip_to(
                final(self).bytes(),
                final(self).pos(),
            ),
            final(self).pos() >= final(self).bytes().len() || !is_ws(
                final(self).bytes()[final(self).pos()],
            ),
        decreases old(self).bytes().len() - old(self).pos(),
    {
        loop
            invariant
                self.bytes() == old(self).bytes(),
                self.next == old(self).next,
                self.wf(),
                old(self).pos() <= self.pos(),
                skip_to(old(self).bytes(), old(self).pos()) == skip_to(self.bytes(), self.pos()),
            decreases self.bytes().len() - self.pos(),
        {
            let b = self.peek_byte();
            if !byte_ws(b) {
                return ;
            }
            if b == 0x0A {
                self.count_line();
            }
            self.advance();
        }
    }

    /// Passes over a comment: everything to the line's end, or to the
    /// end of input, or to a stray NUL byte.
    fn skip_line(&mut self)
        requires
            old(self).wf(),
            old(self).pos() < old(self).bytes().len(),
            old(self).bytes()[old(self).pos()] == 0x23,
        ensures
            final(self).bytes() == old(self).bytes(),
            final(self).next == old(self).next,
            final(self).wf(),
            old(self).pos() < final(self).pos(),
            skip_to(old(self).bytes(), old(self).pos()) == skip_to(
                final(self).bytes(),
                final(self).pos(),
            ),
        decreases old(self).bytes().len() - old(self).pos(),
    {
        self.advance();
        loop
            invariant
                self.bytes() == old(self).bytes(),
                self.next == old(self).next,
                self.wf(),
                old(self).pos() < self.pos(),
                skip_to(old(self).bytes(), old(self).pos()) == skip_comment(
                    self.bytes(),
                    self.pos(),
                ),
            decreases self.bytes().len() - self.pos(),
        {
            let b = self.peek_byte();
            if b == 0x0A {
                self.advance();
                self.count_line();
                return ;
            }
            if b == 0 {
                return ;
            }
            self.advance();
        }
    }

    /// Reads the next token from the text, leaving the cursor just past
    /// it; fails exactly on a lexical fault.
    fn get_next(&mut self) -> (r: Result<Token, ScannerError>)
        requires
            old(self).wf(),
        ensures
            final(self).bytes() == old(self).bytes(),
            final(self).next == old(self).next,
            final(self).wf(),
            old(self).pos() <= final(self).pos(),
            match r {
                Ok(t) => lexes(
                    old(self).bytes(),
                    skip_to(old(self).bytes(), old(self).pos()),
                    final(self).pos(),
                    t,
                ),
                Err(e) => lex_err(
                    old(self).bytes(),
                    skip_to(old(self).bytes(), old(self).pos()),
                    e,
                ),
            },
        decreases old(self).bytes().len() - old(self).pos(), 1int,
    {
        self.skip_whitespace();
        if self.is_eof() {
            return Ok(Token::Eof);
        }
        let b = self.peek_byte();
        if b == 0x28 {
            self.advance();
            Ok(Token::LParen)
        } else if b == 0x29 {
            self.advance();
            Ok(Token::RParen)
        } else if b == 0x2C {
            self.advance();
            Ok(Token::Comma)
        } else if b == 0x7B {
            self.advance();
            Ok(Token::LCurly)
        } else if b == 0x7D {
            self.advance();
            Ok(Token::RCurly)
        } else if b == 0x5B {
            self.advance();
            Ok(Token::LBracket)
        } else if b == 0x5D {
            self.advance();
            Ok(Token::RBracket)
        } else if b == 0x3B {
            self.advance();
            Ok(Token::SColon)
        } else if b == 0x2D {
            self.advance();
            Ok(Token::Minus)
        } else if b == 0x2B {
            self.advance();
            Ok(Token::Plus)
        } else if b == 0x2A {
            self.advance();
            Ok(Token::Mul)
        } else if b == 0x2F {
            self.advance();
            Ok(Token::Div)
        } else if b == 0x25 {
            self.advance();
            Ok(Token::Mod)
        } else if b == 0x3A {
            self.advance();
            if self.peek_byte() == 0x3D {
                self.advance();
                Ok(Token::Assign)
            } else {
                Err(ScannerError::UnexpectedToken(char_to_string(self.peek_byte() as char)))
            }
        } else if b == 0x7C {
            self.advance();
            if self.peek_byte() == 0x7C {
                self.advance();
                Ok(Token::Or)
            } else {
                Err(ScannerError::UnexpectedToken(char_to_string(self.peek_byte() as char)))
            }
        } else if b == 0x26 {
            self.advance();
            if self.peek_byte() == 0x26 {
                self.advance();
                Ok(Token::And)
            } else {
                Err(ScannerError::UnexpectedToken(char_to_string(self.peek_byte() as char)))
            }
        } else if b == 0x3D {
            self.advance();
            if self.peek_byte() == 0x3D {
                self.advance();
                Ok(Token::Equals)
            } else {
                Err(ScannerError::UnexpectedToken(char_to_string(self.peek_byte() as char)))
            }
        } else if b == 0x21 {
            self.advance();
            if self.peek_byte() == 0x3D {
                self.advance();
                Ok(Token::NotEqual)
            } else {
                Ok(Token::Not)
            }
        } else if b == 0x3C {
            self.advance();
            if self.peek_byte() == 0x3D {
                self.advance();
                Ok(Token::LessEqual)
            } else {
                Ok(Token::Less)
            }
        } else if b == 0x3E {
            self.advance();
            if self.peek_byte() == 0x3D {
                self.advance();
                Ok(Token::MoreEqual)
            } else {
                Ok(Token::More)
            }
        } else if byte_digit(b) {
            self.parse_num()
        } else if byte_alpha(b) {
            self.parse_word()
        } else if b == 0 {
            Ok(Token::Eof)
        } else if b == 0x23 {
            self.skip_line();
            self.get_next()
        } else {
            self.advance();
            Err(ScannerError::UnexpectedToken(char_to_string(b as char)))
        }
    }

    /// Reads a numeral: digits and dots, as far as they run; fails
    /// exactly when the text read does not denote a number.
    fn parse_num(&mut self) -> (r: Result<Token, ScannerError>)
        requires
            old(self).wf(),
            old(self).pos() < old(self).bytes().len(),
            is_digit_b(old(self).bytes()[old(self).pos()]),
        ensures
            final(self).bytes() == old(self).bytes(),
            final(self).next == old(self).next,
            final(self).wf(),
            old(self).pos() <= final(self).pos(),
            match r {
                Ok(t) => lexes(old(self).bytes(), old(self).pos(), final(self).pos(), t),
                Err(e) => lex_err(old(self).bytes(), old(self).pos(), e),
            },
    {
        let ghost start = self.pos();
        let mut num: Vec<u8> = Vec::new();
        while byte_numchar(self.peek_byte())
            invariant
                self.bytes() == old(self).bytes(),
                self.next == old(self).next,
                self.wf(),
                0 <= start <= self.pos(),
                num@ == self.bytes().subrange(start, self.pos()),
                forall|t: int| 0 <= t < num@.len() ==> is_numchar_b(#[trigger] num@[t]),
                num_end(self.bytes(), start) == num_end(self.bytes(), self.pos()),
            decreases self.bytes().len() - self.pos(),
        {
            let b = self.peek_byte();
            proof {
                assert(self.pos() < self.bytes().len());
            }
            num.push(b);
            proof {
                assert(num@ =~= self.bytes().subrange(start, self.pos() + 1));
            }
            self.advance();
        }
        proof {
            assert(chars_of(self.bytes(), start, self.pos()) =~= num@.map_values(
                |b: u8| b as char,
            ));
        }
        match crate::numeric::num_parse_bytes(&num) {
            Some(bits) => Ok(Token::Num(bits)),
            None => Err(ScannerError::InvalidNumeric(string_of_bytes(&num))),
        }
    }

    /// Reads a word: alphanumerics, as far as they run; a keyword gives
    /// its token, any other word a name.
    fn parse_word(&mut self) -> (r: Result<Token, ScannerError>)
        requires
            old(self).wf(),
            old(self).pos() < old(self).bytes().len(),
            is_alpha_b(old(self).bytes()[old(self).pos()]),
        ensures
            final(self).bytes() == old(self).bytes(),
            final(self).next == old(self).next,
            final(self).wf(),
            old(self).pos() <= final(self).pos(),
            r matches Ok(t) && lexes(old(self).bytes(), old(self).pos(), final(self).pos(), t),
    {
        let ghost start = self.pos();
        let mut word: Vec<u8> = Vec::new();
        while byte_alnum(self.peek_byte())
            invariant
                self.bytes() == old(self).bytes(),
                self.next == old(self).next,
                self.wf(),
                0 <= start <= self.pos(),
                word@ == self.bytes().subrange(start, self.pos()),
                word_end(self.bytes(), start) == word_end(self.bytes(), self.pos()),
            decreases self.bytes().len() - self.pos(),
        {
            let b = self.peek_byte();
            proof {
                assert(self.pos() < self.bytes().len());
            }
            word.push(b);
            proof {
                assert(word@ =~= self.bytes().subrange(start, self.pos() + 1));
            }
            self.advance();
        }
        let text = string_of_bytes(&word);
        proof {
            assert(chars_of(self.bytes(), start, self.pos()) =~= word@.map_values(
                |b: u8| b as char,
            ));
        }
        match get_keyword(text.as_str()) {
            Some(keyword) => Ok(keyword),
            None => Ok(Token::Name(text)),
        }
    }
}

/// Whether the byte encodes whitespace.
fn byte_ws(b: u8) -> (r: bool)
    ensures
        r == is_ws(b),
{
    b == 0x09 || b == 0x0A || b == 0x0B || b == 0x0C || b == 0x0D || b == 0x20 || b == 0x85 || b
        == 0xA0
}

/// Whether the byte encodes a decimal digit.
fn byte_digit(b: u8) -> (r: bool)
    ensures
        r == is_digit_b(b),
{
    0x30 <= b && b <= 0x39
}

/// Whether the byte encodes an alphabetic character.
fn byte_alpha(b: u8) -> (r: bool)
    ensures
        r == is_alpha_b(b),
{
    (0x41 <= b && b <= 0x5A) || (0x61 <= b && b <= 0x7A) || b == 0xAA || b == 0xB5 || b == 0xBA
        || (0xC0 <= b && b <= 0xD6) || (0xD8 <= b && b <= 0xF6) || 0xF8 <= b
}

/// Whether the byte encodes an alphanumeric character.
fn byte_alnum(b: u8) -> (r: bool)
    ensures
        r == is_alnum_b(b),
{
    byte_alpha(b) || byte_digit(b) || b == 0xB2 || b == 0xB3 || b == 0xB9 || (0xBC <= b && b
        <= 0xBE)
}

/// Whether the byte can continue a numeral.
fn byte_numchar(b: u8) -> (r: bool)
    ensures
        r == is_numchar_b(b),
{
    byte_digit(b) || b == 0x2E
}

} // verus!
