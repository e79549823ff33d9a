//! The mathematical model of the lexer: byte classes, the maximal-run
//! termination rule of every family scanner, the dispatch rule, and the
//! token stream a whole input lexes to.
//!
//! Every executable scanner's contract is stated over these functions.

use vstd::prelude::*;

use crate::token::TokenType;

verus! {

pub const TAB: u8 = 9;

pub const LINE_FEED: u8 = 10;

pub const FORM_FEED: u8 = 12;

pub const CARRIAGE_RETURN: u8 = 13;

pub const SPACE: u8 = 32;

pub const EXCLAMATION: u8 = 33;

pub const DOUBLE_QUOTE: u8 = 34;

pub const HASH: u8 = 35;

pub const DOLLAR: u8 = 36;

pub const AMPERSAND: u8 = 38;

pub const SINGLE_QUOTE: u8 = 39;

pub const LEFT_PAREN: u8 = 40;

pub const RIGHT_PAREN: u8 = 41;

pub const ASTERISK: u8 = 42;

pub const PLUS: u8 = 43;

pub const COMMA: u8 = 44;

pub const DASH: u8 = 45;

pub const DOT: u8 = 46;

pub const FORWARD_SLASH: u8 = 47;

pub const DIGIT_ZERO: u8 = 48;

pub const DIGIT_NINE: u8 = 57;

pub const COLON: u8 = 58;

pub const SEMICOLON: u8 = 59;

pub const LESS_THAN: u8 = 60;

pub const EQUALS: u8 = 61;

pub const GREATER_THAN: u8 = 62;

pub const LEFT_SQUARE: u8 = 91;

pub const BACKSLASH: u8 = 92;

pub const RIGHT_SQUARE: u8 = 93;

pub const BACKTICK: u8 = 96;

pub const LEFT_CURLY: u8 = 123;

pub const PIPE_BYTE: u8 = 124;

pub const RIGHT_CURLY: u8 = 125;

pub const TILDE: u8 = 126;

/// ASCII decimal digit.
pub open spec fn is_digit_byte(b: u8) -> bool {
    DIGIT_ZERO <= b && b <= DIGIT_NINE
}

/// Member of the fixed symbol set that routes to the symbol scanner and
/// terminates a variable name.
pub open spec fn is_symbol_byte(b: u8) -> bool {
    ||| b == PLUS
    ||| b == DASH
    ||| b == ASTERISK
    ||| b == FORWARD_SLASH
    ||| b == DOT
    ||| b == COMMA
    ||| b == LEFT_PAREN
    ||| b == LEFT_SQUARE
    ||| b == LEFT_CURLY
    ||| b == LESS_THAN
    ||| b == RIGHT_PAREN
    ||| b == RIGHT_SQUARE
    ||| b == RIGHT_CURLY
    ||| b == GREATER_THAN
    ||| b == COLON
    ||| b == SEMICOLON
    ||| b == EQUALS
    ||| b == DOLLAR
    ||| b == PIPE_BYTE
    ||| b == EXCLAMATION
    ||| b == TILDE
    ||| b == AMPERSAND
}

/// A symbol byte the symbol scanner has a case for.  `~` is in the symbol
/// set (it terminates variable names and is routed to the symbol scanner by
/// the dispatcher) but no operator starts with it, so the symbol scanner
/// treats meeting it as an internal-invariant violation.
pub open spec fn is_handled_symbol_byte(b: u8) -> bool {
    is_symbol_byte(b) && b != TILDE
}

/// The lexer's own whitespace set: space, tab, carriage return, and the
/// line feed only when the caller has switched `newline_is_space` on.
pub open spec fn is_space_byte(b: u8, newline_is_space: bool) -> bool {
    ||| b == SPACE
    ||| b == TAB
    ||| b == CARRIAGE_RETURN
    ||| (newline_is_space && b == LINE_FEED)
}

/// ASCII whitespace in the std sense: space, tab, line feed, form feed,
/// carriage return.  Variable names and barewords stop at these.
pub open spec fn is_ascii_whitespace_byte(b: u8) -> bool {
    b == SPACE || b == TAB || b == LINE_FEED || b == FORM_FEED || b == CARRIAGE_RETURN
}

/// A byte that ends a free-form bareword: whitespace or one of the
/// grouping/sequencing punctuation bytes.  Operator-looking bytes such as
/// `+` or `.` do not end a bareword.
pub open spec fn is_bareword_end_byte(b: u8) -> bool {
    ||| is_ascii_whitespace_byte(b)
    ||| b == LEFT_CURLY
    ||| b == RIGHT_CURLY
    ||| b == LEFT_PAREN
    ||| b == RIGHT_PAREN
    ||| b == LEFT_SQUARE
    ||| b == RIGHT_SQUARE
    ||| b == SEMICOLON
    ||| b == COLON
    ||| b == COMMA
}

/// First index at or after `i` whose byte is not a digit (or `s.len()`).
pub open spec fn digit_run(s: Seq<u8>, i: int) -> int
    decreases s.len() - i,
{
    if i < 0 || i >= s.len() || !is_digit_byte(s[i]) {
        i
    } else {
        digit_run(s, i + 1)
    }
}

/// First index at or after `i` whose byte is outside the active whitespace
/// set (or `s.len()`).
pub open spec fn space_run(s: Seq<u8>, i: int, newline_is_space: bool) -> int
    decreases s.len() - i,
{
    if i < 0 || i >= s.len() || !is_space_byte(s[i], newline_is_space) {
        i
    } else {
        space_run(s, i + 1, newline_is_space)
    }
}

/// First index at or after `i` that ends a variable name: ASCII whitespace
/// or a symbol byte (or `s.len()`).
pub open spec fn name_run(s: Seq<u8>, i: int) -> int
    decreases s.len() - i,
{
    if i < 0 || i >= s.len() || is_ascii_whitespace_byte(s[i]) || is_symbol_byte(s[i]) {
        i
    } else {
        name_run(s, i + 1)
    }
}

/// First index at or after `i` holding a line feed (or `s.len()`).
pub open spec fn comment_run(s: Seq<u8>, i: int) -> int
    decreases s.len() - i,
{
    if i < 0 || i >= s.len() || s[i] == LINE_FEED {
        i
    } else {
        comment_run(s, i + 1)
    }
}

/// First index at or after `i` that ends a free-form bareword (or `s.len()`).
pub open spec fn bareword_run(s: Seq<u8>, i: int) -> int
    decreases s.len() - i,
{
    if i < 0 || i >= s.len() || is_bareword_end_byte(s[i]) {
        i
    } else {
        bareword_run(s, i + 1)
    }
}

/// One past the first occurrence of the delimiter `d` at or after `i`, or
/// `s.len()` when the input ends first.
pub open spec fn delim_run(s: Seq<u8>, i: int, d: u8) -> int
    decreases s.len() - i,
{
    if i < 0 || i >= s.len() {
        s.len() as int
    } else if s[i] == d {
        i + 1
    } else {
        delim_run(s, i + 1, d)
    }
}

/// One past the first unescaped double quote at or after `i`, or `s.len()`
/// when the input ends first.  A backslash escapes the following byte; the
/// escape state resets after one byte.
pub open spec fn quoted_string_run(s: Seq<u8>, i: int, escaped: bool) -> int
    decreases s.len() - i,
{
    if i < 0 || i >= s.len() {
        s.len() as int
    } else if escaped {
        quoted_string_run(s, i + 1, false)
    } else if s[i] == BACKSLASH {
        quoted_string_run(s, i + 1, true)
    } else if s[i] == DOUBLE_QUOTE {
        i + 1
    } else {
        quoted_string_run(s, i + 1, false)
    }
}

/// The two bytes form a two-character operator (maximal munch).
pub open spec fn is_double_symbol(a: u8, b: u8) -> bool {
    ||| (a == LESS_THAN && b == EQUALS)
    ||| (a == GREATER_THAN && b == EQUALS)
    ||| (a == PLUS && b == PLUS)
    ||| (a == ASTERISK && b == ASTERISK)
    ||| (a == FORWARD_SLASH && b == FORWARD_SLASH)
    ||| (a == EQUALS && (b == EQUALS || b == TILDE))
    ||| (a == EXCLAMATION && (b == EQUALS || b == TILDE))
    ||| (a == PIPE_BYTE && b == PIPE_BYTE)
    ||| (a == AMPERSAND && b == AMPERSAND)
    ||| (a == DOT && b == DOT)
}

/// How many bytes the symbol scanner consumes from `s`: two for a
/// two-character operator, otherwise one.
pub open spec fn symbol_len(s: Seq<u8>) -> int {
    if s.len() >= 2 && is_double_symbol(s[0], s[1]) {
        2
    } else {
        1
    }
}

/// The kind of the symbol token starting at `s[0]`.  Meaningful only for
/// handled symbol bytes; a lone `~` has no operator kind.
pub open spec fn symbol_kind(s: Seq<u8>) -> TokenType {
    let a = s[0];
    if a == LEFT_PAREN {
        TokenType::LParen
    } else if a == LEFT_SQUARE {
        TokenType::LSquare
    } else if a == LEFT_CURLY {
        TokenType::LCurly
    } else if a == RIGHT_PAREN {
        TokenType::RParen
    } else if a == RIGHT_SQUARE {
        TokenType::RSquare
    } else if a == RIGHT_CURLY {
        TokenType::RCurly
    } else if a == LESS_THAN {
        if symbol_len(s) == 2 { TokenType::LessThanEqual } else { TokenType::LessThan }
    } else if a == GREATER_THAN {
        if symbol_len(s) == 2 { TokenType::GreaterThanEqual } else { TokenType::GreaterThan }
    } else if a == PLUS {
        if symbol_len(s) == 2 { TokenType::PlusPlus } else { TokenType::Plus }
    } else if a == DASH {
        TokenType::Dash
    } else if a == ASTERISK {
        if symbol_len(s) == 2 { TokenType::AsteriskAsterisk } else { TokenType::Asterisk }
    } else if a == FORWARD_SLASH {
        if symbol_len(s) == 2 { TokenType::ForwardSlashForwardSlash } else { TokenType::ForwardSlash }
    } else if a == EQUALS {
        if s.len() >= 2 && s[1] == EQUALS {
            TokenType::EqualsEquals
        } else if s.len() >= 2 && s[1] == TILDE {
            TokenType::EqualsTilde
        } else {
            TokenType::Equals
        }
    } else if a == COLON {
        TokenType::Colon
    } else if a == SEMICOLON {
        TokenType::Semicolon
    } else if a == DOT {
        if symbol_len(s) == 2 { TokenType::DotDot } else { TokenType::Dot }
    } else if a == EXCLAMATION {
        if s.len() >= 2 && s[1] == EQUALS {
            TokenType::ExclamationEquals
        } else if s.len() >= 2 && s[1] == TILDE {
            TokenType::ExclamationTilde
        } else {
            TokenType::Exclamation
        }
    } else if a == DOLLAR {
        TokenType::Dollar
    } else if a == PIPE_BYTE {
        if symbol_len(s) == 2 { TokenType::PipePipe } else { TokenType::Pipe }
    } else if a == AMPERSAND {
        if symbol_len(s) == 2 { TokenType::AmpersandAmpersand } else { TokenType::Ampersand }
    } else if a == COMMA {
        TokenType::Comma
    } else {
        arbitrary()
    }
}

/// How many bytes produce-next consumes from a non-empty remainder `s`.
/// This is the dispatch rule: the first matching family wins.
pub open spec fn next_len(s: Seq<u8>, newline_is_space: bool) -> int {
    let b = s[0];
    if is_digit_byte(b) {
        digit_run(s, 0)
    } else if b == DOUBLE_QUOTE {
        quoted_string_run(s, 1, false)
    } else if b == SINGLE_QUOTE {
        delim_run(s, 1, SINGLE_QUOTE)
    } else if b == BACKTICK {
        delim_run(s, 1, BACKTICK)
    } else if is_space_byte(b, newline_is_space) {
        space_run(s, 0, newline_is_space)
    } else if b == DOLLAR {
        name_run(s, 1)
    } else if is_symbol_byte(b) {
        symbol_len(s)
    } else if b == LINE_FEED {
        1
    } else if b == HASH {
        comment_run(s, 1)
    } else {
        bareword_run(s, 0)
    }
}

/// The kind of the token produce-next scans from a non-empty remainder `s`.
pub open spec fn next_kind(s: Seq<u8>, newline_is_space: bool) -> TokenType {
    let b = s[0];
    if is_digit_byte(b) {
        TokenType::Number
    } else if b == DOUBLE_QUOTE {
        TokenType::String
    } else if b == SINGLE_QUOTE {
        TokenType::SimpleString
    } else if b == BACKTICK {
        TokenType::Bareword
    } else if is_space_byte(b, newline_is_space) {
        TokenType::Space
    } else if b == DOLLAR {
        TokenType::Variable
    } else if is_symbol_byte(b) {
        symbol_kind(s)
    } else if b == LINE_FEED {
        TokenType::Newline
    } else if b == HASH {
        TokenType::Comment
    } else {
        TokenType::Bareword
    }
}

/// The content bytes of the token produce-next scans from a non-empty
/// remainder `s`: the consumed prefix, except that a backtick-quoted
/// bareword's contents exclude its delimiters.
pub open spec fn next_contents(s: Seq<u8>, newline_is_space: bool) -> Seq<u8> {
    let n = next_len(s, newline_is_space);
    if s[0] == BACKTICK {
        if n >= 2 {
            s.subrange(1, n - 1)
        } else {
            Seq::empty()
        }
    } else {
        s.take(n)
    }
}

/// A produced token at the model level: kind, content bytes, absolute span.
pub ghost struct TokenModel {
    pub kind: TokenType,
    pub contents: Seq<u8>,
    pub span_start: int,
    pub span_end: int,
}

/// The whole token stream lexed from `s` starting at absolute offset `off`.
/// The stream ends at the empty remainder; it also ends early if a scan
/// consumes nothing (only a form-feed-led remainder does that: the byte is
/// ASCII whitespace, so the bareword scan it falls through to is empty).
pub open spec fn lex_all(s: Seq<u8>, off: int, newline_is_space: bool) -> Seq<TokenModel>
    decreases s.len(),
{
    if s.len() == 0 {
        Seq::empty()
    } else {
        let n = next_len(s, newline_is_space);
        if 1 <= n && n <= s.len() {
            seq![
                TokenModel {
                    kind: next_kind(s, newline_is_space),
                    contents: next_contents(s, newline_is_space),
                    span_start: off,
                    span_end: off + n,
                },
            ] + lex_all(s.skip(n), off + n, newline_is_space)
        } else {
            Seq::empty()
        }
    }
}

/// The concatenation of the content bytes of a token stream, in order.
pub open spec fn concat_contents(tokens: Seq<TokenModel>) -> Seq<u8>
    decreases tokens.len(),
{
    if tokens.len() == 0 {
        Seq::empty()
    } else {
        tokens[0].contents + concat_contents(tokens.drop_first())
    }
}

/// The inputs on which the token stream is lossless: no scan starts at a
/// backtick (a backtick-quoted bareword drops its delimiters from its
/// contents), at a `~` (the symbol scanner has no case for it), or at a
/// form feed (the empty bareword scanned there makes no progress).
pub open spec fn lossless_input(s: Seq<u8>, newline_is_space: bool) -> bool
    decreases s.len(),
{
    if s.len() == 0 {
        true
    } else if s[0] == BACKTICK || s[0] == TILDE || s[0] == FORM_FEED {
        false
    } else {
        let n = next_len(s, newline_is_space);
        1 <= n && n <= s.len() && lossless_input(s.skip(n), newline_is_space)
    }
}

} // verus!
