//! The token record and the token-kind enumeration.

use vstd::prelude::*;

verus! {

/// Every token family the lexer can produce.  Two-character operator kinds
/// (`PlusPlus`, `DotDot`, ...) are chosen by maximal munch over their
/// one-character prefixes.
#[derive(Clone, Copy, Debug, PartialEq, Eq, Structural)]
pub enum TokenType {
    Number,
    Space,
    Newline,
    Comma,
    Comment,
    SimpleString,
    String,
    Dot,
    DotDot,
    Dollar,
    Variable,
    Pipe,
    PipePipe,
    Colon,
    Semicolon,
    Plus,
    PlusPlus,
    Dash,
    Exclamation,
    Asterisk,
    AsteriskAsterisk,
    ForwardSlash,
    ForwardSlashForwardSlash,
    Equals,
    EqualsEquals,
    EqualsTilde,
    ExclamationTilde,
    ExclamationEquals,
    LParen,
    LSquare,
    LCurly,
    LessThan,
    LessThanEqual,
    RParen,
    RSquare,
    RCurly,
    GreaterThan,
    GreaterThanEqual,
    Ampersand,
    AmpersandAmpersand,
    Bareword,
}

/// One token: a kind, a borrowed view into the original source buffer, and
/// the absolute byte span `[span_start, span_end)` it was scanned from.
/// The token owns no bytes.
///
/// For every family except the backtick-quoted bareword,
/// `span_end - span_start == contents.len()`; a backtick-quoted bareword's
/// span covers the delimiters while its contents exclude them.
#[derive(Debug)]
pub struct Token<'a> {
    pub token_type: TokenType,
    pub contents: &'a [u8],
    pub span_start: usize,
    pub span_end: usize,
}

impl<'a> Token<'a> {
    /// The token has exactly this kind, these content bytes, and this span.
    pub open spec fn is_token(self, kind: TokenType, contents: Seq<u8>, start: int, end: int) -> bool {
        &&& self.token_type == kind
        &&& self.contents@ == contents
        &&& self.span_start == start
        &&& self.span_end == end
    }
}

} // verus!
