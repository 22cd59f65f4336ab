use vstd::prelude::*;

use crate::instruction::{spec_opcode_for_mnemonic, opcode_for_mnemonic, Opcode};

verus! {

/// The kind of one lexical unit of assembly source text.
#[derive(Debug, Clone, Copy, PartialEq, Eq, Structural)]
pub enum TokenKind {
    /// A mnemonic word resolved against the opcode table.
    Operation { code: Opcode },
    /// `$<decimal>`: a register index in `0..=255`.
    Register { reg_index: u8 },
    /// `#<decimal>`: a signed 32-bit integer immediate.
    IntegerOperand { value: i32 },
    /// The single end-of-input marker that terminates every token stream.
    Eof,
}

/// One lexical unit together with its source span (byte offsets).
#[derive(Debug, Clone, Copy, PartialEq, Eq, Structural)]
pub struct Token {
    pub token_kind: TokenKind,
    pub start: usize,
    pub end: usize,
    pub length: usize,
}

impl Token {
    pub fn new(token_kind: TokenKind, start: usize, end: usize) -> (r: Token)
        requires
            start <= end,
        ensures
            r == (Token { token_kind, start, end, length: (end - start) as usize }),
    {
        Token { token_kind, start, end, length: end - start }
    }
}

/// Why a token stream ended in a lexical error.
#[derive(Debug, Clone, Copy, PartialEq, Eq, Structural)]
pub enum LexicalErrorKind {
    /// The word after `#` is not a decimal integer that fits in `i32`.
    MalformedInteger,
    /// The word after `$` is not a decimal index in `0..=255`.
    MalformedRegisterIndex,
    /// A mnemonic word with no entry in the opcode table.
    UnrecognizedMnemonic,
}

/// A recoverable assembly-time error report with its source location.
#[derive(Debug, Clone, Copy, PartialEq, Eq, Structural)]
pub struct LexicalError {
    pub kind: LexicalErrorKind,
    /// Zero-based line of the offending word.
    pub line: usize,
    /// Byte offset of the offending word from the start of its line.
    pub column: usize,
}

/// Space and newline separate words; nothing else does.
pub open spec fn is_separator(b: u8) -> bool {
    b == (' ' as u8) || b == ('\n' as u8)
}

/// ASCII decimal digit.
pub open spec fn is_digit(b: u8) -> bool {
    ('0' as u8) <= b <= ('9' as u8)
}

/// The first separator position at or after `i`, or the end of input.
pub open spec fn word_end(s: Seq<u8>, i: int) -> int
    decreases s.len() - i,
{
    if i < 0 {
        i
    } else if i >= s.len() || is_separator(s[i]) {
        i
    } else {
        word_end(s, i + 1)
    }
}

pub proof fn lemma_word_end_bounds(s: Seq<u8>, i: int)
    requires
        0 <= i <= s.len(),
    ensures
        i <= word_end(s, i) <= s.len(),
    decreases s.len() - i,
{
    if i < s.len() && !is_separator(s[i]) {
        lemma_word_end_bounds(s, i + 1);
    }
}

/// Every byte of `s[lo..hi]` is a decimal digit.
pub open spec fn all_digits(s: Seq<u8>, lo: int, hi: int) -> bool {
    forall|j: int| lo <= j < hi ==> is_digit(#[trigger] s[j])
}

/// The base-10 value of the digit run `s[lo..hi]`.
pub open spec fn dec_value(s: Seq<u8>, lo: int, hi: int) -> int
    decreases hi - lo,
{
    if hi <= lo {
        0
    } else {
        dec_value(s, lo, hi - 1) * 10 + (s[hi - 1] - ('0' as u8))
    }
}

pub proof fn lemma_dec_value_nonneg(s: Seq<u8>, lo: int, hi: int)
    requires
        all_digits(s, lo, hi),
    ensures
        dec_value(s, lo, hi) >= 0,
    decreases hi - lo,
{
    if hi > lo {
        lemma_dec_value_nonneg(s, lo, hi - 1);
    }
}

/// A digit run's value only grows as more digits are taken.
pub proof fn lemma_dec_value_mono(s: Seq<u8>, lo: int, mid: int, hi: int)
    requires
        lo <= mid <= hi,
        all_digits(s, lo, hi),
    ensures
        dec_value(s, lo, hi) >= dec_value(s, lo, mid),
    decreases hi - mid,
{
    if mid < hi {
        lemma_dec_value_mono(s, lo, mid, hi - 1);
        lemma_dec_value_nonneg(s, lo, hi - 1);
    }
}

/// The meaning of the word `s[lo..hi]` as a signed 32-bit decimal literal:
/// an optional sign, then at least one digit, with the value in `i32` range.
pub open spec fn spec_parse_int(s: Seq<u8>, lo: int, hi: int) -> Option<i32> {
    if lo >= hi {
        None
    } else {
        let neg = s[lo] == ('-' as u8);
        let dlo = if neg || s[lo] == ('+' as u8) {
            lo + 1
        } else {
            lo
        };
        if dlo >= hi || !all_digits(s, dlo, hi) {
            None
        } else {
            let v = dec_value(s, dlo, hi);
            if neg {
                if v <= 0x8000_0000 {
                    Some((-v) as i32)
                } else {
                    None
                }
            } else {
                if v <= 0x7fff_ffff {
                    Some(v as i32)
                } else {
                    None
                }
            }
        }
    }
}

/// The meaning of the word `s[lo..hi]` as a register index: at least one
/// digit, no sign, with the value in `0..=255`.
pub open spec fn spec_parse_reg(s: Seq<u8>, lo: int, hi: int) -> Option<u8> {
    if lo >= hi || !all_digits(s, lo, hi) {
        None
    } else {
        let v = dec_value(s, lo, hi);
        if v <= 255 {
            Some(v as u8)
        } else {
            None
        }
    }
}

/// The end-of-input token that terminates every token stream.
pub open spec fn spec_eof_token(p: int) -> Token {
    Token { token_kind: TokenKind::Eof, start: p as usize, end: p as usize, length: 0 }
}

/// The token stream of `s` from position `i` on, with the lexer on line
/// `line` whose first byte is at offset `sol`.
///
/// The stream always ends with exactly one end-of-input token.  On a
/// malformed word the stream is terminated at that point and the error is
/// reported alongside, so a caller can distinguish a complete stream from
/// one ended by an error.
pub open spec fn spec_lex(s: Seq<u8>, i: int, line: int, sol: int) -> (Seq<Token>, Option<
    LexicalError,
>)
    decreases s.len() - i,
    via spec_lex_decreases
{
    if i < 0 || i >= s.len() {
        (seq![spec_eof_token(s.len() as int)], None::<LexicalError>)
    } else if s[i] == (' ' as u8) {
        spec_lex(s, i + 1, line, sol)
    } else if s[i] == ('\n' as u8) {
        spec_lex(s, i + 1, line + 1, i + 1)
    } else if s[i] == ('#' as u8) {
        let e = word_end(s, i + 1);
        match spec_parse_int(s, i + 1, e) {
            Some(v) => {
                let rest = spec_lex(s, e, line, sol);
                (
                    seq![
                        Token {
                            token_kind: TokenKind::IntegerOperand { value: v },
                            start: i as usize,
                            end: e as usize,
                            length: (e - i) as usize,
                        },
                    ] + rest.0,
                    rest.1,
                )
            },
            None => (
                seq![spec_eof_token(e)],
                Some(
                    LexicalError {
                        kind: LexicalErrorKind::MalformedInteger,
                        line: line as usize,
                        column: (i - sol) as usize,
                    },
                ),
            ),
        }
    } else if s[i] == ('$' as u8) {
        let e = word_end(s, i + 1);
        match spec_parse_reg(s, i + 1, e) {
            Some(ri) => {
                let rest = spec_lex(s, e, line, sol);
                (
                    seq![
                        Token {
                            token_kind: TokenKind::Register { reg_index: ri },
                            start: i as usize,
                            end: e as usize,
                            length: (e - i) as usize,
                        },
                    ] + rest.0,
                    rest.1,
                )
            },
            None => (
                seq![spec_eof_token(e)],
                Some(
                    LexicalError {
                        kind: LexicalErrorKind::MalformedRegisterIndex,
                        line: line as usize,
                        column: (i - sol) as usize,
                    },
                ),
            ),
        }
    } else {
        let e = word_end(s, i);
        match spec_opcode_for_mnemonic(s.subrange(i, e)) {
            Some(op) => {
                let rest = spec_lex(s, e, line, sol);
                (
                    seq![
                        Token {
                            token_kind: TokenKind::Operation { code: op },
                            start: i as usize,
                            end: e as usize,
                            length: (e - i) as usize,
                        },
                    ] + rest.0,
                    rest.1,
                )
            },
            None => (
                seq![spec_eof_token(e)],
                Some(
                    LexicalError {
                        kind: LexicalErrorKind::UnrecognizedMnemonic,
                        line: line as usize,
                        column: (i - sol) as usize,
                    },
                ),
            ),
        }
    }
}

#[via_fn]
proof fn spec_lex_decreases(s: Seq<u8>, i: int, line: int, sol: int) {
    if 0 <= i < s.len() {
        lemma_word_end_bounds(s, i + 1);
        if !is_separator(s[i]) {
            lemma_word_end_bounds(s, i);
        }
    }
}

/// Finds the end of the word that starts at or after `from`.
fn word_end_from(c: &Vec<u8>, from: usize) -> (e: usize)
    requires
        from <= c@.len(),
    ensures
        from <= e <= c@.len(),
        e as int == word_end(c@, from as int),
{
    let n = c.len();
    let mut e = from;
    while e < n && !(c[e] == (' ' as u8) || c[e] == ('\n' as u8))
        invariant
            from <= e <= n == c@.len(),
            word_end(c@, from as int) == word_end(c@, e as int),
        decreases n - e,
    {
        e = e + 1;
    }
    e
}

/// The value of the digit run `c[lo..hi]`, or `None` if a non-digit occurs
/// or the value exceeds `cap`.
fn dec_digits_value(c: &Vec<u8>, lo: usize, hi: usize, cap: u64) -> (r: Option<u64>)
    requires
        lo <= hi <= c@.len(),
        cap <= 0x1_0000_0000,
    ensures
        match r {
            Some(v) => all_digits(c@, lo as int, hi as int) && v == dec_value(
                c@,
                lo as int,
                hi as int,
            ) && v <= cap,
            None => !all_digits(c@, lo as int, hi as int) || dec_value(c@, lo as int, hi as int)
                > cap,
        },
{
    let mut acc: u64 = 0;
    let mut j: usize = lo;
    while j < hi
        invariant
            lo <= j <= hi <= c@.len(),
            cap <= 0x1_0000_0000,
            all_digits(c@, lo as int, j as int),
            acc == dec_value(c@, lo as int, j as int),
            acc <= cap,
        decreases hi - j,
    {
        let b = c[j];
        if !(('0' as u8) <= b && b <= ('9' as u8)) {
            proof {
                assert(!is_digit(c@[j as int]));
            }
            return None;
        }
        let d: u64 = (b - ('0' as u8)) as u64;
        acc = acc * 10 + d;
        j = j + 1;
        if acc > cap {
            proof {
                if all_digits(c@, lo as int, hi as int) {
                    lemma_dec_value_mono(c@, lo as int, j as int, hi as int);
                }
            }
            return None;
        }
    }
    Some(acc)
}

/// Parses the word `c[lo..hi]` as a signed 32-bit decimal literal.
fn parse_int_bytes(c: &Vec<u8>, lo: usize, hi: usize) -> (r: Option<i32>)
    requires
        lo <= hi <= c@.len(),
    ensures
        r == spec_parse_int(c@, lo as int, hi as int),
{
    if lo >= hi {
        return None;
    }
    let first = c[lo];
    let neg = first == ('-' as u8);
    let signed = neg || first == ('+' as u8);
    let dlo = if signed {
        lo + 1
    } else {
        lo
    };
    if dlo >= hi {
        return None;
    }
    match dec_digits_value(c, dlo, hi, 0x8000_0000) {
        None => None,
        Some(v) => {
            if neg {
                let res: i64 = -(v as i64);
                Some(res as i32)
            } else {
                if v <= 0x7fff_ffff {
                    Some(v as i32)
                } else {
                    None
                }
            }
        },
    }
}

/// Parses the word `c[lo..hi]` as a register index in `0..=255`.
fn parse_reg_bytes(c: &Vec<u8>, lo: usize, hi: usize) -> (r: Option<u8>)
    requires
        lo <= hi <= c@.len(),
    ensures
        r == spec_parse_reg(c@, lo as int, hi as int),
{
    if lo >= hi {
        return None;
    }
    match dec_digits_value(c, lo, hi, 255) {
        None => None,
        Some(v) => Some(v as u8),
    }
}

/// Scans assembly source text into a flat token sequence terminated by one
/// end-of-input token.
pub struct Lexer {
    content: Vec<u8>,
    content_len: usize,
    line: usize,
    start_of_line: usize,
    pos: usize,
    pub tokens: Vec<Token>,
}

impl Lexer {
    /// The scanner state is consistent: the recorded length matches the
    /// content, and the scan position never trails the line bookkeeping.
    pub closed spec fn wf(self) -> bool {
        &&& self.content_len == self.content@.len()
        &&& self.pos <= self.content_len
        &&& self.start_of_line <= self.pos
        &&& self.line <= self.start_of_line
    }

    pub closed spec fn spec_content(self) -> Seq<u8> {
        self.content@
    }

    /// The tokens produced so far.
    pub closed spec fn spec_tokens(self) -> Seq<Token> {
        self.tokens@
    }

    /// The token stream still to be produced from the current position.
    pub closed spec fn remaining_lex(self) -> (Seq<Token>, Option<LexicalError>) {
        spec_lex(self.content@, self.pos as int, self.line as int, self.start_of_line as int)
    }

    pub fn new(content: Vec<u8>, content_len: usize) -> (r: Lexer)
        requires
            content_len == content@.len(),
        ensures
            r.wf(),
            r.spec_content() == content@,
            r.remaining_lex() == spec_lex(content@, 0, 0, 0),
            r.spec_tokens() =~= Seq::<Token>::empty(),
    {
        Lexer { content, content_len, line: 0, start_of_line: 0, pos: 0, tokens: Vec::new() }
    }

    /// Replaces the source text and resets the scan position and line
    /// bookkeeping; tokens already produced are kept.
    pub fn set_content(&mut self, new_content: Vec<u8>)
        ensures
            final(self).wf(),
            final(self).spec_content() == new_content@,
            final(self).remaining_lex() == spec_lex(new_content@, 0, 0, 0),
            final(self).spec_tokens() == old(self).spec_tokens(),
    {
        self.content_len = new_content.len();
        self.content = new_content;
        self.pos = 0;
        self.line = 0;
        self.start_of_line = 0;
    }

    /// Hands the produced tokens over to a consumer such as the parser.
    pub fn into_tokens(self) -> (r: Vec<Token>)
        ensures
            r@ == self.spec_tokens(),
    {
        self.tokens
    }

    /// Skips separators, then scans one token by character-class dispatch.
    ///
    /// Returns the token and, where the word was malformed, the lexical
    /// error that terminates the stream (the token is then the end marker).
    fn next_token(&mut self) -> (r: (Token, Option<LexicalError>))
        requires
            old(self).wf(),
        ensures
            final(self).wf(),
            final(self).content == old(self).content,
            final(self).tokens == old(self).tokens,
            ({
                let pre = old(self).remaining_lex();
                let post = final(self).remaining_lex();
                match r.1 {
                    None => {
                        if r.0.token_kind is Eof {
                            pre == (seq![r.0], None::<LexicalError>)
                        } else {
                            pre.0 == seq![r.0] + post.0 && pre.1 == post.1
                        }
                    },
                    Some(e) => pre == (seq![r.0], Some(e)),
                }
            }),
            r.1 is None && !(r.0.token_kind is Eof) ==> final(self).pos > old(self).pos,
    {
        loop
            invariant
                self.wf(),
                self.content == old(self).content,
                self.tokens == old(self).tokens,
                self.remaining_lex() == old(self).remaining_lex(),
                self.pos >= old(self).pos,
            decreases self.content_len - self.pos,
        {
            if self.pos >= self.content_len {
                let t = Token::new(TokenKind::Eof, self.pos, self.pos);
                return (t, None);
            }
            let b = self.content[self.pos];
            if b == (' ' as u8) {
                self.pos = self.pos + 1;
            } else if b == ('\n' as u8) {
                self.pos = self.pos + 1;
                self.line = self.line + 1;
                self.start_of_line = self.pos;
            } else if b == ('#' as u8) {
                let start = self.pos;
                let e = word_end_from(&self.content, start + 1);
                match parse_int_bytes(&self.content, start + 1, e) {
                    Some(v) => {
                        let t = Token::new(TokenKind::IntegerOperand { value: v }, start, e);
                        self.pos = e;
                        return (t, None);
                    },
                    None => {
                        let err = LexicalError {
                            kind: LexicalErrorKind::MalformedInteger,
                            line: self.line,
                            column: start - self.start_of_line,
                        };
                        let t = Token::new(TokenKind::Eof, e, e);
                        self.pos = e;
                        return (t, Some(err));
                    },
                }
            } else if b == ('$' as u8) {
                let start = self.pos;
                let e = word_end_from(&self.content, start + 1);
                match parse_reg_bytes(&self.content, start + 1, e) {
                    Some(ri) => {
                        let t = Token::new(TokenKind::Register { reg_index: ri }, start, e);
                        self.pos = e;
                        return (t, None);
                    },
                    None => {
                        let err = LexicalError {
                            kind: LexicalErrorKind::MalformedRegisterIndex,
                            line: self.line,
                            column: start - self.start_of_line,
                        };
                        let t = Token::new(TokenKind::Eof, e, e);
                        self.pos = e;
                        return (t, Some(err));
                    },
                }
            } else {
                let start = self.pos;
                let e = word_end_from(&self.content, start);
                proof {
                    lemma_word_end_bounds(self.content@, start as int + 1);
                }
                let mut word: Vec<u8> = Vec::new();
                let mut j = start;
                while j < e
                    invariant
                        start <= j <= e <= self.content@.len(),
                        word@ == self.content@.subrange(start as int, j as int),
                    decreases e - j,
                {
                    word.push(self.content[j]);
                    j = j + 1;
                    proof {
                        assert(word@ =~= self.content@.subrange(start as int, j as int));
                    }
                }
                match opcode_for_mnemonic(word.as_slice()) {
                    Some(op) => {
                        let t = Token::new(TokenKind::Operation { code: op }, start, e);
                        self.pos = e;
                        return (t, None);
                    },
                    None => {
                        let err = LexicalError {
                            kind: LexicalErrorKind::UnrecognizedMnemonic,
                            line: self.line,
                            column: start - self.start_of_line,
                        };
                        let t = Token::new(TokenKind::Eof, e, e);
                        self.pos = e;
                        return (t, Some(err));
                    },
                }
            }
        }
    }

    /// Scans the whole remaining input, appending the produced tokens
    /// (always ending with exactly one end-of-input token).
    ///
    /// `Ok` means the input was scanned to exhaustion; `Err` carries the
    /// lexical error that terminated the stream early, so a caller can
    /// distinguish a complete stream from a truncated one.
    pub fn tokenize(&mut self) -> (r: Result<(), LexicalError>)
        requires
            old(self).wf(),
        ensures
            final(self).wf(),
            final(self).spec_content() == old(self).spec_content(),
            final(self).spec_tokens() == old(self).spec_tokens() + old(self).remaining_lex().0,
            match r {
                Ok(_) => old(self).remaining_lex().1 is None,
                Err(e) => old(self).remaining_lex().1 == Some(e),
            },
    {
        let ghost mut consumed: Seq<Token> = Seq::empty();
        proof {
            assert(old(self).spec_tokens() + consumed =~= old(self).spec_tokens());
        }
        loop
            invariant
                self.wf(),
                self.content == old(self).content,
                self.spec_tokens() == old(self).spec_tokens() + consumed,
                old(self).remaining_lex().0 == consumed + self.remaining_lex().0,
                old(self).remaining_lex().1 == self.remaining_lex().1,
            decreases self.content@.len() - self.pos,
        {
            let (t, err) = self.next_token();
            self.tokens.push(t);
            proof {
                assert(self.spec_tokens() =~= old(self).spec_tokens() + consumed.push(t));
            }
            match err {
                Some(e) => {
                    proof {
                        assert(old(self).remaining_lex().0 =~= consumed.push(t));
                    }
                    return Err(e);
                },
                None => {
                    match t.token_kind {
                        TokenKind::Eof => {
                            proof {
                                assert(old(self).remaining_lex().0 =~= consumed.push(t));
                            }
                            return Ok(());
                        },
                        _ => {
                            proof {
                                assert(old(self).remaining_lex().0 =~= consumed.push(t)
                                    + self.remaining_lex().0);
                                consumed = consumed.push(t);
                            }
                        },
                    }
                },
            }
        }
    }
}

} // verus!
