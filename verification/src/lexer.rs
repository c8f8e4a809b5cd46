//! The Unicode-aware lexer: a character cursor over the source string that
//! yields one token per call, with a specification-level account of exactly
//! which token is read at each position.

pub mod unescape;

use vstd::prelude::*;
use vstd::string::StringExecFns;
use unicode_normalization::UnicodeNormalization;
use crate::strutil::{push_char, str_to_chars};
use crate::token::{Token, TokenV};

verus! {

/// XID_Start, as the Unicode tables define it.
pub uninterp spec fn xid_start_of(c: char) -> bool;

/// XID_Continue, as the Unicode tables define it.
pub uninterp spec fn xid_continue_of(c: char) -> bool;

/// Unicode NFC normalization of a character sequence.
pub uninterp spec fn nfc_of(s: Seq<char>) -> Seq<char>;

/// Relies on `unicode_xid::UnicodeXID::is_xid_start`: whether `c` has the
/// XID_Start property, a function of the character alone.
#[verifier::external_body]
fn xid_start(c: char) -> (r: bool)
    ensures
        r == xid_start_of(c),
{
    unicode_xid::UnicodeXID::is_xid_start(c)
}

/// Relies on `unicode_xid::UnicodeXID::is_xid_continue`: whether `c` has the
/// XID_Continue property, a function of the character alone.
#[verifier::external_body]
fn xid_continue(c: char) -> (r: bool)
    ensures
        r == xid_continue_of(c),
{
    unicode_xid::UnicodeXID::is_xid_continue(c)
}

/// Relies on `unicode_normalization`'s `nfc` iterator: Unicode NFC
/// normalization, a function of the characters alone. All identifier names
/// are normalized with this before they are stored or compared.
#[verifier::external_body]
pub fn nfc_normalize(string: &str) -> (r: String)
    ensures
        r@ == nfc_of(string@),
{
    string.chars().nfc().collect()
}

/// The whitespace the lexer skips: Pattern_White_Space minus the newline,
/// which the lexer handles on its own.
pub open spec fn ws_char(c: char) -> bool {
    c == '\u{0009}' || c == '\u{000C}' || c == '\u{000D}' || c == '\u{000B}' || c == '\u{0020}'
        || c == '\u{0085}' || c == '\u{200E}' || c == '\u{200F}' || c == '\u{2028}'
        || c == '\u{2029}'
}

/// True if `c` is considered whitespace; does not include `'\n'`.
pub fn is_whitespace(c: char) -> (r: bool)
    ensures
        r == ws_char(c),
{
    matches!(
        c,
        '\u{0009}'
        | '\u{000C}'
        | '\u{000D}'
        | '\u{000B}'
        | '\u{0020}'
        | '\u{0085}'
        | '\u{200E}'
        | '\u{200F}'
        | '\u{2028}'
        | '\u{2029}'
    )
}

/// A character that may open an identifier: ASCII letters, underscore, or
/// anything beyond ASCII with XID_Start.
pub open spec fn id_start_char(c: char) -> bool {
    ('a' <= c && c <= 'z') || ('A' <= c && c <= 'Z') || c == '_' || (c as int > 0x7f
        && xid_start_of(c))
}

/// A character that may continue an identifier: ASCII alphanumerics and the
/// underscore, or anything beyond ASCII with XID_Continue (a character that
/// may start an identifier always also continues one).
pub open spec fn id_continue_char(c: char) -> bool {
    ('a' <= c && c <= 'z') || ('A' <= c && c <= 'Z') || ('0' <= c && c <= '9') || c == '_' || (
    c as int > 0x7f && (xid_continue_of(c) || xid_start_of(c)))
}

fn is_id_start(c: char) -> (r: bool)
    ensures
        r == id_start_char(c),
{
    ('a' <= c && c <= 'z') || ('A' <= c && c <= 'Z') || c == '_' || (c > '\u{7f}' && xid_start(c))
}

fn is_id_continue(c: char) -> (r: bool)
    ensures
        r == id_continue_char(c),
{
    ('a' <= c && c <= 'z') || ('A' <= c && c <= 'Z') || ('0' <= c && c <= '9') || c == '_' || (c
        > '\u{7f}' && (xid_continue(c) || xid_start(c)))
}

/// An ASCII decimal digit.
pub open spec fn digit_char(c: char) -> bool {
    '0' <= c && c <= '9'
}

/// The position of the next character that starts a token: whitespace and
/// lone newlines are passed over; a newline directly followed by another
/// stops the skip (it reads as a blank-line marker).
pub open spec fn skip_spec(input: Seq<char>, pos: int) -> int
    decreases input.len() - pos when 0 <= pos <= input.len()
{
    if pos < input.len() && ws_char(input[pos]) {
        skip_spec(input, pos + 1)
    } else if pos < input.len() && input[pos] == '\n' && !(pos + 1 < input.len() && input[pos + 1]
        == '\n') {
        skip_spec(input, pos + 1)
    } else {
        pos
    }
}

pub proof fn lemma_skip_bounds(input: Seq<char>, pos: int)
    requires
        0 <= pos <= input.len(),
    ensures
        pos <= skip_spec(input, pos) <= input.len(),
    decreases input.len() - pos,
{
    if pos < input.len() && (ws_char(input[pos]) || (input[pos] == '\n' && !(pos + 1 < input.len()
        && input[pos + 1] == '\n'))) {
        lemma_skip_bounds(input, pos + 1);
    }
}

/// The end of the digit run starting at `pos`.
pub open spec fn scan_digits_spec(input: Seq<char>, pos: int) -> int
    decreases input.len() - pos when 0 <= pos <= input.len()
{
    if pos < input.len() && digit_char(input[pos]) {
        scan_digits_spec(input, pos + 1)
    } else {
        pos
    }
}

pub proof fn lemma_scan_digits_bounds(input: Seq<char>, pos: int)
    requires
        0 <= pos <= input.len(),
    ensures
        pos <= scan_digits_spec(input, pos) <= input.len(),
    decreases input.len() - pos,
{
    if pos < input.len() && digit_char(input[pos]) {
        lemma_scan_digits_bounds(input, pos + 1);
    }
}

/// The end of the identifier run starting at `pos`.
pub open spec fn scan_ident_spec(input: Seq<char>, pos: int) -> int
    decreases input.len() - pos when 0 <= pos <= input.len()
{
    if pos < input.len() && id_continue_char(input[pos]) {
        scan_ident_spec(input, pos + 1)
    } else {
        pos
    }
}

pub proof fn lemma_scan_ident_bounds(input: Seq<char>, pos: int)
    requires
        0 <= pos <= input.len(),
    ensures
        pos <= scan_ident_spec(input, pos) <= input.len(),
    decreases input.len() - pos,
{
    if pos < input.len() && id_continue_char(input[pos]) {
        lemma_scan_ident_bounds(input, pos + 1);
    }
}

/// Where the scan of a string literal body stops: at the closing quote
/// (respecting backslash escapes), or at a NUL or the end of the input, which
/// leave the literal unterminated.
pub open spec fn scan_str_spec(input: Seq<char>, pos: int, bs: bool) -> int
    decreases input.len() - pos when 0 <= pos <= input.len()
{
    if pos >= input.len() || input[pos] == '\0' {
        pos
    } else if bs {
        scan_str_spec(input, pos + 1, false)
    } else if input[pos] == '"' {
        pos
    } else if input[pos] == '\\' {
        scan_str_spec(input, pos + 1, true)
    } else {
        scan_str_spec(input, pos + 1, false)
    }
}

pub proof fn lemma_scan_str_bounds(input: Seq<char>, pos: int, bs: bool)
    requires
        0 <= pos <= input.len(),
    ensures
        pos <= scan_str_spec(input, pos, bs) <= input.len(),
    decreases input.len() - pos,
{
    if pos >= input.len() || input[pos] == '\0' {
    } else if bs {
        lemma_scan_str_bounds(input, pos + 1, false);
    } else if input[pos] == '"' {
    } else if input[pos] == '\\' {
        lemma_scan_str_bounds(input, pos + 1, true);
    } else {
        lemma_scan_str_bounds(input, pos + 1, false);
    }
}

/// The 64-bit signed value a digit run denotes, accumulated with wrapping
/// arithmetic.
pub open spec fn digits_acc_spec(input: Seq<char>, pos: int, end: int, acc: i64) -> i64
    decreases end - pos,
{
    if pos < end && 0 <= pos < input.len() {
        digits_acc_spec(
            input,
            pos + 1,
            end,
            vstd::wrapping::i64_specs::wrapping_add(
                vstd::wrapping::i64_specs::wrapping_mul(acc, 10),
                (input[pos] as int - '0' as int) as i64,
            ),
        )
    } else {
        acc
    }
}

/// The keyword table: a recognized spelling becomes its reserved token, any
/// other identifier is NFC-normalized.
pub open spec fn kw_or_ident_spec(lit: Seq<char>) -> TokenV {
    if lit == "fn"@ {
        TokenV::Func
    } else if lit == "let"@ {
        TokenV::Let
    } else if lit == "true"@ {
        TokenV::Bool(true)
    } else if lit == "false"@ {
        TokenV::Bool(false)
    } else if lit == "if"@ {
        TokenV::If
    } else if lit == "else"@ {
        TokenV::Else
    } else if lit == "return"@ {
        TokenV::Return
    } else if lit == "抓手"@ {
        TokenV::Func
    } else if lit == "赋能"@ {
        TokenV::Let
    } else if lit == "三七五"@ {
        TokenV::Bool(true)
    } else if lit == "三二五"@ {
        TokenV::Bool(false)
    } else if lit == "细分"@ {
        TokenV::If
    } else if lit == "路径"@ {
        TokenV::Else
    } else if lit == "反哺"@ {
        TokenV::Return
    } else if lit == "对齐"@ {
        TokenV::Equal
    } else if lit == "联动"@ {
        TokenV::Plus
    } else if lit == "差异"@ {
        TokenV::Minus
    } else if lit == "倾斜"@ {
        TokenV::Slash
    } else {
        TokenV::Ident(nfc_of(lit))
    }
}

/// The token starting at `pos`, and the position just past it. A NUL in the
/// input reads as the end of the input, as it does for the cursor sentinel.
pub open spec fn next_token_spec(input: Seq<char>, pos: int) -> (TokenV, int) {
    let p = skip_spec(input, pos);
    if p >= input.len() {
        (TokenV::Eof, p)
    } else {
        let c = input[p];
        if c == '\0' {
            (TokenV::Eof, p)
        } else if c == '=' {
            if p + 1 < input.len() && input[p + 1] == '=' {
                (TokenV::Equal, p + 2)
            } else {
                (TokenV::Assign, p + 1)
            }
        } else if c == '+' {
            (TokenV::Plus, p + 1)
        } else if c == '-' {
            (TokenV::Minus, p + 1)
        } else if c == '!' {
            if p + 1 < input.len() && input[p + 1] == '=' {
                (TokenV::NotEqual, p + 2)
            } else {
                (TokenV::Bang, p + 1)
            }
        } else if c == '/' {
            (TokenV::Slash, p + 1)
        } else if c == '*' {
            (TokenV::Asterisk, p + 1)
        } else if c == '<' {
            if p + 1 < input.len() && input[p + 1] == '=' {
                (TokenV::LessThanEqual, p + 2)
            } else {
                (TokenV::LessThan, p + 1)
            }
        } else if c == '>' {
            if p + 1 < input.len() && input[p + 1] == '=' {
                (TokenV::GreaterThanEqual, p + 2)
            } else {
                (TokenV::GreaterThan, p + 1)
            }
        } else if c == '(' {
            (TokenV::Lparen, p + 1)
        } else if c == ')' {
            (TokenV::Rparen, p + 1)
        } else if c == '{' {
            (TokenV::Lbrace, p + 1)
        } else if c == '}' {
            (TokenV::Rbrace, p + 1)
        } else if c == '[' {
            (TokenV::Lbracket, p + 1)
        } else if c == ']' {
            (TokenV::Rbracket, p + 1)
        } else if c == ',' {
            (TokenV::Comma, p + 1)
        } else if c == ';' {
            (TokenV::Semicolon, p + 1)
        } else if c == ':' {
            (TokenV::Colon, p + 1)
        } else if digit_char(c) {
            let e = scan_digits_spec(input, p);
            (TokenV::Int(digits_acc_spec(input, p, e, 0)), e)
        } else if c == '"' {
            let e = scan_str_spec(input, p + 1, false);
            if e < input.len() && input[e] == '"' {
                (TokenV::String(unescape::unescape_all_spec(input.subrange(p + 1, e))), e + 1)
            } else {
                (TokenV::String("<Lexer error: string: premature EOF>"@), e)
            }
        } else if c == '\n' {
            (TokenV::Blank, p + 1)
        } else if id_start_char(c) {
            let e = scan_ident_spec(input, p);
            (kw_or_ident_spec(input.subrange(p, e)), e)
        } else {
            (TokenV::Illegal, p + 1)
        }
    }
}

/// Every call of the lexer moves the cursor forward unless it has reached the
/// end: the heart of the lexer's totality.
pub proof fn lemma_next_token_bounds(input: Seq<char>, pos: int)
    requires
        0 <= pos <= input.len(),
    ensures
        pos <= next_token_spec(input, pos).1 <= input.len(),
        !(next_token_spec(input, pos).0 is Eof) ==> next_token_spec(input, pos).1 > pos,
{
    lemma_skip_bounds(input, pos);
    let p = skip_spec(input, pos);
    if p < input.len() {
        let c = input[p];
        if digit_char(c) {
            lemma_scan_digits_bounds(input, p);
            lemma_scan_digits_bounds(input, p + 1);
            assert(scan_digits_spec(input, p) == scan_digits_spec(input, p + 1));
        } else if c == '"' {
            lemma_scan_str_bounds(input, p + 1, false);
        } else if !(c == '\0' || c == '=' || c == '+' || c == '-' || c == '!' || c == '/' || c
            == '*' || c == '<' || c == '>' || c == '(' || c == ')' || c == '{' || c == '}' || c
            == '[' || c == ']' || c == ',' || c == ';' || c == ':' || c == '\n') && id_start_char(
            c,
        ) {
            lemma_scan_ident_bounds(input, p);
            lemma_scan_ident_bounds(input, p + 1);
            assert(scan_ident_spec(input, p) == scan_ident_spec(input, p + 1));
        }
    }
}

/// The whole token stream from `pos` on: the tokens up to and including the
/// single final `Eof`.
pub open spec fn tokens_from(input: Seq<char>, pos: int) -> Seq<TokenV>
    decreases input.len() + 1 - pos when 0 <= pos <= input.len()
{
    let (t, p) = next_token_spec(input, pos);
    if t is Eof {
        seq![TokenV::Eof]
    } else {
        let p2 = if p <= pos || p > input.len() {
            pos + 1
        } else {
            p
        };
        seq![t] + tokens_from(input, p2)
    }
}

/// The token stream of a whole source string.
pub open spec fn tokens_of(input: Seq<char>) -> Seq<TokenV> {
    tokens_from(input, 0)
}

/// Lexer totality: the stream of any source ends, and ends with exactly one
/// `Eof`; every token before it consumed at least one source character.
pub proof fn lemma_lexer_totality(input: Seq<char>, pos: int)
    requires
        0 <= pos <= input.len(),
    ensures
        tokens_from(input, pos).len() >= 1,
        tokens_from(input, pos).last() == TokenV::Eof,
        forall|k: int|
            0 <= k < tokens_from(input, pos).len() - 1 ==> !(#[trigger] tokens_from(input, pos)[k]
                is Eof),
    decreases input.len() + 1 - pos,
{
    let (t, p) = next_token_spec(input, pos);
    lemma_next_token_bounds(input, pos);
    if !(t is Eof) {
        let p2 = if p <= pos || p > input.len() {
            pos + 1
        } else {
            p
        };
        lemma_lexer_totality(input, p2);
        let rest = tokens_from(input, p2);
        let whole = tokens_from(input, pos);
        assert(whole == seq![t] + rest);
        assert(whole.last() == rest.last());
        assert forall|k: int| 0 <= k < whole.len() - 1 implies !(#[trigger] whole[k] is Eof) by {
            if k > 0 {
                assert(whole[k] == rest[k - 1]);
            }
        }
    }
}

/// The lexer: a cursor over the characters of the source.
pub struct Lexer {
    input: Vec<char>,
    pos: usize,
}

impl Lexer {
    /// The cursor never leaves the input (one step past the last character
    /// stands for the end).
    pub closed spec fn wf(&self) -> bool {
        self.pos <= self.input.len()
    }

    /// The characters this lexer reads.
    pub closed spec fn input_view(&self) -> Seq<char> {
        self.input@
    }

    /// The current cursor position, in characters.
    pub closed spec fn pos_view(&self) -> int {
        self.pos as int
    }

    /// The well-formed cursor stays within the input.
    pub proof fn lemma_wf_bounds(&self)
        requires
            self.wf(),
        ensures
            0 <= self.pos_view() <= self.input_view().len(),
    {
    }

    /// A lexer at the start of `origin_input`.
    pub fn new(origin_input: &str) -> (l: Lexer)
        ensures
            l.wf(),
            l.input_view() == origin_input@,
            l.pos_view() == 0,
    {
        Lexer { input: str_to_chars(origin_input), pos: 0 }
    }

    /// The character under the cursor, with NUL standing for the end.
    fn ch(&self) -> (c: char)
        requires
            self.wf(),
        ensures
            c == cur_char(self.input@, self.pos as int),
    {
        if self.pos < self.input.len() {
            self.input[self.pos]
        } else {
            '\0'
        }
    }

    /// The character one step ahead of the cursor.
    fn nextch(&self) -> (c: char)
        requires
            self.wf(),
        ensures
            c == cur_char(self.input@, self.pos as int + 1),
    {
        if self.pos < self.input.len() && self.pos + 1 < self.input.len() {
            self.input[self.pos + 1]
        } else {
            '\0'
        }
    }

    /// Whether the character ahead is `ch`.
    fn nextch_is(&self, ch: char) -> (r: bool)
        requires
            self.wf(),
        ensures
            r == (cur_char(self.input@, self.pos as int + 1) == ch),
    {
        self.nextch() == ch
    }

    /// Advances the cursor one character, stopping at the end.
    fn read_char(&mut self)
        requires
            old(self).wf(),
        ensures
            final(self).wf(),
            final(self).input@ == old(self).input@,
            final(self).pos as int == advance(old(self).input@, old(self).pos as int),
    {
        if self.pos < self.input.len() {
            self.pos = self.pos + 1;
        }
    }

    /// Moves the cursor to the next token start: over whitespace, and over
    /// newlines that do not pair up into a blank-line marker.
    fn skip_whitespace(&mut self)
        requires
            old(self).wf(),
        ensures
            final(self).wf(),
            final(self).input@ == old(self).input@,
            final(self).pos as int == skip_spec(old(self).input@, old(self).pos as int),
    {
        loop
            invariant
                self.wf(),
                self.input@ == old(self).input@,
                skip_spec(self.input@, self.pos as int) == skip_spec(
                    old(self).input@,
                    old(self).pos as int,
                ),
            decreases self.input@.len() - self.pos,
        {
            if self.pos < self.input.len() && is_whitespace(self.input[self.pos]) {
                self.read_char();
            } else if self.pos < self.input.len() && self.input[self.pos] == '\n' && !(self.pos + 1
                < self.input.len() && self.input[self.pos + 1] == '\n') {
                self.read_char();
            } else {
                return ;
            }
        }
    }

    /// The next token. Every call either consumes at least one character or
    /// reports the end of the input.
    pub fn next_token(&mut self) -> (t: Token)
        requires
            old(self).wf(),
        ensures
            final(self).wf(),
            final(self).input_view() == old(self).input_view(),
            (t@, final(self).pos_view()) == next_token_spec(
                old(self).input_view(),
                old(self).pos_view(),
            ),
            t@ is Eof || final(self).pos_view() > old(self).pos_view(),
            final(self).pos_view() >= old(self).pos_view(),
    {
        proof {
            lemma_next_token_bounds(self.input@, self.pos as int);
        }
        self.skip_whitespace();
        let c = self.ch();
        if c == '\0' {
            return Token::Eof;
        }
        proof {
            assert(self.input@.len() == self.input.len());
            assert(self.pos < self.input@.len());
        }
        if c == '=' {
            if self.nextch_is('=') {
                self.pos = self.pos + 2;
                Token::Equal
            } else {
                self.pos = self.pos + 1;
                Token::Assign
            }
        } else if c == '+' {
            self.pos = self.pos + 1;
            Token::Plus
        } else if c == '-' {
            self.pos = self.pos + 1;
            Token::Minus
        } else if c == '!' {
            if self.nextch_is('=') {
                self.pos = self.pos + 2;
                Token::NotEqual
            } else {
                self.pos = self.pos + 1;
                Token::Bang
            }
        } else if c == '/' {
            self.pos = self.pos + 1;
            Token::Slash
        } else if c == '*' {
            self.pos = self.pos + 1;
            Token::Asterisk
        } else if c == '<' {
            if self.nextch_is('=') {
                self.pos = self.pos + 2;
                Token::LessThanEqual
            } else {
                self.pos = self.pos + 1;
                Token::LessThan
            }
        } else if c == '>' {
            if self.nextch_is('=') {
                self.pos = self.pos + 2;
                Token::GreaterThanEqual
            } else {
                self.pos = self.pos + 1;
                Token::GreaterThan
            }
        } else if c == '(' {
            self.pos = self.pos + 1;
            Token::Lparen
        } else if c == ')' {
            self.pos = self.pos + 1;
            Token::Rparen
        } else if c == '{' {
            self.pos = self.pos + 1;
            Token::Lbrace
        } else if c == '}' {
            self.pos = self.pos + 1;
            Token::Rbrace
        } else if c == '[' {
            self.pos = self.pos + 1;
            Token::Lbracket
        } else if c == ']' {
            self.pos = self.pos + 1;
            Token::Rbracket
        } else if c == ',' {
            self.pos = self.pos + 1;
            Token::Comma
        } else if c == ';' {
            self.pos = self.pos + 1;
            Token::Semicolon
        } else if c == ':' {
            self.pos = self.pos + 1;
            Token::Colon
        } else if '0' <= c && c <= '9' {
            self.consume_number()
        } else if c == '"' {
            self.consume_string()
        } else if c == '\n' {
            self.pos = self.pos + 1;
            Token::Blank
        } else if is_id_start(c) {
            self.consume_identifier()
        } else {
            self.pos = self.pos + 1;
            Token::Illegal
        }
    }

    /// Whether the cursor stands on a decimal digit.
    fn at_digit(&self) -> (r: bool)
        requires
            self.wf(),
        ensures
            r == (self.pos < self.input@.len() && digit_char(self.input@[self.pos as int])),
    {
        self.pos < self.input.len() && '0' <= self.input[self.pos] && self.input[self.pos] <= '9'
    }

    /// Whether the cursor stands on an identifier-continuing character.
    fn at_id_continue(&self) -> (r: bool)
        requires
            self.wf(),
        ensures
            r == (self.pos < self.input@.len() && id_continue_char(self.input@[self.pos as int])),
    {
        self.pos < self.input.len() && is_id_continue(self.input[self.pos])
    }

    /// Reads a run of decimal digits as a 64-bit integer token, wrapping on
    /// overflow.
    fn consume_number(&mut self) -> (t: Token)
        requires
            old(self).wf(),
            old(self).pos < old(self).input@.len(),
            digit_char(old(self).input@[old(self).pos as int]),
        ensures
            final(self).wf(),
            final(self).input@ == old(self).input@,
            final(self).pos as int == scan_digits_spec(old(self).input@, old(self).pos as int),
            t@ == TokenV::Int(
                digits_acc_spec(
                    old(self).input@,
                    old(self).pos as int,
                    final(self).pos as int,
                    0,
                ),
            ),
    {
        let ghost start = old(self).pos as int;
        let ghost end = scan_digits_spec(self.input@, start);
        proof {
            lemma_scan_digits_bounds(self.input@, start);
        }
        let mut acc: i64 = 0;
        while self.at_digit()
            invariant
                self.wf(),
                self.input@ == old(self).input@,
                start <= self.pos as int <= end <= self.input@.len(),
                end == scan_digits_spec(self.input@, self.pos as int),
                digits_acc_spec(self.input@, start, end, 0) == digits_acc_spec(
                    self.input@,
                    self.pos as int,
                    end,
                    acc,
                ),
            decreases self.input@.len() - self.pos,
        {
            proof {
                assert(self.input@.len() == self.input.len());
                lemma_scan_digits_bounds(self.input@, self.pos as int + 1);
            }
            let d = self.input[self.pos];
            acc = acc.wrapping_mul(10).wrapping_add((d as u32 as i64) - ('0' as u32 as i64));
            self.pos = self.pos + 1;
        }
        Token::Int(acc)
    }

    /// Reads an identifier run, then resolves keywords; anything else becomes
    /// an NFC-normalized identifier token.
    fn consume_identifier(&mut self) -> (t: Token)
        requires
            old(self).wf(),
            old(self).pos < old(self).input@.len(),
            id_start_char(old(self).input@[old(self).pos as int]),
        ensures
            final(self).wf(),
            final(self).input@ == old(self).input@,
            final(self).pos as int == scan_ident_spec(old(self).input@, old(self).pos as int),
            t@ == kw_or_ident_spec(
                old(self).input@.subrange(old(self).pos as int, final(self).pos as int),
            ),
    {
        let ghost start_g = old(self).pos as int;
        let start = self.pos;
        proof {
            lemma_scan_ident_bounds(self.input@, start_g);
        }
        while self.at_id_continue()
            invariant
                self.wf(),
                self.input@ == old(self).input@,
                start_g <= self.pos as int <= self.input@.len(),
                start == start_g,
                scan_ident_spec(self.input@, start_g) == scan_ident_spec(
                    self.input@,
                    self.pos as int,
                ),
            decreases self.input@.len() - self.pos,
        {
            proof {
                assert(self.input@.len() == self.input.len());
            }
            self.pos = self.pos + 1;
        }
        let literal = chars_range_to_string(&self.input, start, self.pos);
        if literal == String::from_str("fn") {
            Token::Func
        } else if literal == String::from_str("let") {
            Token::Let
        } else if literal == String::from_str("true") {
            Token::Bool(true)
        } else if literal == String::from_str("false") {
            Token::Bool(false)
        } else if literal == String::from_str("if") {
            Token::If
        } else if literal == String::from_str("else") {
            Token::Else
        } else if literal == String::from_str("return") {
            Token::Return
        } else if literal == String::from_str("抓手") {
            Token::Func
        } else if literal == String::from_str("赋能") {
            Token::Let
        } else if literal == String::from_str("三七五") {
            Token::Bool(true)
        } else if literal == String::from_str("三二五") {
            Token::Bool(false)
        } else if literal == String::from_str("细分") {
            Token::If
        } else if literal == String::from_str("路径") {
            Token::Else
        } else if literal == String::from_str("反哺") {
            Token::Return
        } else if literal == String::from_str("对齐") {
            Token::Equal
        } else if literal == String::from_str("联动") {
            Token::Plus
        } else if literal == String::from_str("差异") {
            Token::Minus
        } else if literal == String::from_str("倾斜") {
            Token::Slash
        } else {
            Token::Ident(nfc_normalize(literal.as_str()))
        }
    }

    /// Reads a string literal: the raw body up to the closing quote, then the
    /// unescaping pass. A literal the input ends inside becomes an error
    /// note, and the cursor stays at the spot that stopped it.
    fn consume_string(&mut self) -> (t: Token)
        requires
            old(self).wf(),
            old(self).pos < old(self).input@.len(),
            old(self).input@[old(self).pos as int] == '"',
        ensures
            final(self).wf(),
            final(self).input@ == old(self).input@,
            ({
                let input = old(self).input@;
                let start = old(self).pos as int + 1;
                let e = scan_str_spec(input, start, false);
                if e < input.len() && input[e] == '"' {
                    t@ == TokenV::String(unescape::unescape_all_spec(input.subrange(start, e)))
                        && final(self).pos as int == e + 1
                } else {
                    t@ == TokenV::String("<Lexer error: string: premature EOF>"@)
                        && final(self).pos as int == e
                }
            }),
    {
        self.pos = self.pos + 1;
        let start = self.pos;
        let ghost start_g = start as int;
        proof {
            lemma_scan_str_bounds(self.input@, start_g, false);
        }
        let mut bs = false;
        loop
            invariant
                self.wf(),
                self.input@ == old(self).input@,
                start as int == start_g,
                old(self).pos as int + 1 == start_g,
                start_g <= self.pos as int <= self.input@.len(),
                scan_str_spec(self.input@, start_g, false) == scan_str_spec(
                    self.input@,
                    self.pos as int,
                    bs,
                ),
            decreases self.input@.len() - self.pos,
        {
            if self.pos >= self.input.len() || self.input[self.pos] == '\0' {
                return Token::String(String::from_str("<Lexer error: string: premature EOF>"));
            }
            let c = self.input[self.pos];
            if bs {
                bs = false;
                self.pos = self.pos + 1;
            } else if c == '"' {
                let raw = chars_range_to_string(&self.input, start, self.pos);
                self.pos = self.pos + 1;
                return Token::String(unescape::unescape_str_or_byte_str_all(&raw));
            } else if c == '\\' {
                bs = true;
                self.pos = self.pos + 1;
            } else {
                self.pos = self.pos + 1;
            }
        }
    }
}

/// The character at `pos`, with NUL past the end.
pub open spec fn cur_char(input: Seq<char>, pos: int) -> char {
    if 0 <= pos < input.len() {
        input[pos]
    } else {
        '\0'
    }
}

/// One step forward, stopping at the end.
pub open spec fn advance(input: Seq<char>, pos: int) -> int {
    if pos < input.len() {
        pos + 1
    } else {
        pos
    }
}

/// The characters `v[from..to]` as an owned string.
fn chars_range_to_string(v: &Vec<char>, from: usize, to: usize) -> (s: String)
    requires
        from <= to <= v@.len(),
    ensures
        s@ == v@.subrange(from as int, to as int),
{
    let mut s = String::new();
    let mut i = from;
    while i < to
        invariant
            from <= i <= to <= v@.len(),
            s@ == v@.subrange(from as int, i as int),
        decreases to - i,
    {
        push_char(&mut s, v[i]);
        proof {
            assert(s@ =~= v@.subrange(from as int, i as int + 1));
        }
        i = i + 1;
    }
    proof {
        assert(s@ =~= v@.subrange(from as int, to as int));
    }
    s
}

/// Given a line and a cursor position (in characters), finds the start of
/// the word under completion: the position after the first whitespace
/// character before the cursor, or the start of the line.
pub fn extract_word(line: &str, pos: usize) -> (r: (usize, String))
    requires
        pos <= line@.len(),
    ensures
        r.0 as int == word_start_spec(line@, pos as int),
        r.1@ == line@.subrange(word_start_spec(line@, pos as int), pos as int),
        r.0 <= pos,
{
    let chars = str_to_chars(line);
    let mut start: usize = 0;
    let mut found = false;
    let mut k: usize = 0;
    while k < pos
        invariant
            k <= pos <= chars@.len(),
            chars@ == line@,
            if found {
                exists|m: int|
                    0 <= m < k && ws_char(chars@[m]) && start == m + 1 && forall|m2: int|
                        0 <= m2 < m ==> !ws_char(chars@[m2])
            } else {
                start == 0 && forall|m: int| 0 <= m < k ==> !ws_char(chars@[m])
            },
        decreases pos - k,
    {
        if !found && is_whitespace(chars[k]) {
            found = true;
            start = k + 1;
        }
        k = k + 1;
    }
    proof {
        if found {
            let m = choose|m: int|
                0 <= m < pos && ws_char(chars@[m]) && start == m + 1 && forall|m2: int|
                    0 <= m2 < m ==> !ws_char(chars@[m2]);
            assert(first_ws_spec(line@, 0, pos as int) == m) by {
                lemma_first_ws(line@, 0, pos as int, m);
            }
        } else {
            lemma_no_ws(line@, 0, pos as int);
        }
    }
    let word = chars_range_to_string(&chars, start, pos);
    (start, word)
}

/// The index of the first whitespace character in `s[from..end]`, or `end`
/// if there is none.
pub open spec fn first_ws_spec(s: Seq<char>, from: int, end: int) -> int
    decreases end - from,
{
    if from < end && 0 <= from < s.len() {
        if ws_char(s[from]) {
            from
        } else {
            first_ws_spec(s, from + 1, end)
        }
    } else {
        end
    }
}

/// Where the word under the cursor starts: after the first whitespace before
/// the cursor, if any.
pub open spec fn word_start_spec(s: Seq<char>, pos: int) -> int {
    if first_ws_spec(s, 0, pos) < pos {
        first_ws_spec(s, 0, pos) + 1
    } else {
        0
    }
}

proof fn lemma_first_ws(s: Seq<char>, from: int, end: int, m: int)
    requires
        0 <= from <= m < end <= s.len(),
        ws_char(s[m]),
        forall|m2: int| from <= m2 < m ==> !ws_char(s[m2]),
    ensures
        first_ws_spec(s, from, end) == m,
    decreases m - from,
{
    if from < m {
        lemma_first_ws(s, from + 1, end, m);
    }
}

proof fn lemma_no_ws(s: Seq<char>, from: int, end: int)
    requires
        0 <= from <= end <= s.len(),
        forall|m2: int| from <= m2 < end ==> !ws_char(s[m2]),
    ensures
        first_ws_spec(s, from, end) == end,
    decreases end - from,
{
    if from < end {
        lemma_no_ws(s, from + 1, end);
    }
}

} // verus!
