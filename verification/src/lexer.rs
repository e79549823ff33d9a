//! The cursor over the unconsumed source bytes, one scanner per token
//! family, and the dispatcher that classifies the next byte.

use vstd::prelude::*;
use vstd::pervasive::unreached;
use vstd::slice::{slice_index_get, slice_subrange};

use crate::model::{
    AMPERSAND, ASTERISK, BACKSLASH, BACKTICK, CARRIAGE_RETURN, COLON, COMMA, DASH, DIGIT_NINE,
    DIGIT_ZERO, DOLLAR, DOT, DOUBLE_QUOTE, EQUALS, EXCLAMATION, FORM_FEED, FORWARD_SLASH,
    GREATER_THAN, HASH,
    LEFT_CURLY, LEFT_PAREN, LEFT_SQUARE, LESS_THAN, LINE_FEED, PIPE_BYTE, PLUS, RIGHT_CURLY,
    RIGHT_PAREN, RIGHT_SQUARE, SEMICOLON, SINGLE_QUOTE, SPACE, TAB, TILDE,
};
use crate::model::{
    bareword_run, comment_run, delim_run, digit_run, is_ascii_whitespace_byte,
    is_handled_symbol_byte, is_symbol_byte, name_run, next_contents, next_kind, next_len,
    quoted_string_run, space_run, symbol_kind, symbol_len,
};
use crate::token::{Token, TokenType};

verus! {

/// The lexer: the unconsumed remainder of one source fragment, the absolute
/// byte offset of its first byte, and the caller-owned whitespace mode flag.
///
/// The remainder only shrinks and `span_offset` only grows, in step: their
/// sum stays the absolute offset of the fragment's end.
#[derive(Debug)]
pub struct Lexer<'a> {
    pub source: &'a [u8],
    pub span_offset: usize,
    /// When set, a line feed is scanned as whitespace instead of as a
    /// newline token.  The lexer never changes this flag itself.
    pub newline_is_space: bool,
}

/// The byte is in the fixed symbol set.
fn is_symbol(b: u8) -> (r: bool)
    ensures
        r == is_symbol_byte(b),
{
    b == PLUS || b == DASH || b == ASTERISK || b == FORWARD_SLASH || b == DOT || b == COMMA
        || b == LEFT_PAREN || b == LEFT_SQUARE || b == LEFT_CURLY || b == LESS_THAN
        || b == RIGHT_PAREN || b == RIGHT_SQUARE || b == RIGHT_CURLY || b == GREATER_THAN
        || b == COLON || b == SEMICOLON || b == EQUALS || b == DOLLAR || b == PIPE_BYTE
        || b == EXCLAMATION || b == TILDE || b == AMPERSAND
}

/// The byte is ASCII whitespace in the std sense.
fn is_rust_whitespace(b: u8) -> (r: bool)
    ensures
        r == is_ascii_whitespace_byte(b),
{
    b == SPACE || b == TAB || b == LINE_FEED || b == FORM_FEED || b == CARRIAGE_RETURN
}

impl<'a> Lexer<'a> {
    /// The span offset never overflows while scanning the remainder.
    pub open spec fn wf(self) -> bool {
        self.span_offset + self.source@.len() <= usize::MAX
    }

    /// `post` is `self` after consuming exactly the first `n` remaining
    /// bytes: the remainder loses its first `n` bytes, the offset grows by
    /// `n`, and the mode flag is untouched.
    pub open spec fn advanced(self, post: Lexer<'a>, n: int) -> bool {
        &&& 0 <= n <= self.source@.len()
        &&& post.source@ == self.source@.skip(n)
        &&& post.span_offset == self.span_offset + n
        &&& post.newline_is_space == self.newline_is_space
    }

    /// How many bytes one produce-next call consumes from this state.
    pub open spec fn next_consumed(self) -> int {
        if self.source@.len() == 0 {
            0
        } else {
            next_len(self.source@, self.newline_is_space)
        }
    }

    /// `r` is exactly what produce-next yields from this state: the
    /// sentinel on an empty remainder, else the one token the dispatch rule
    /// and the matching family scanner give.
    pub open spec fn next_token_is(self, r: Option<Token<'a>>) -> bool {
        if self.source@.len() == 0 {
            r is None
        } else {
            let s = self.source@;
            r matches Some(t) && t.is_token(
                next_kind(s, self.newline_is_space),
                next_contents(s, self.newline_is_space),
                self.span_offset as int,
                self.span_offset + next_len(s, self.newline_is_space),
            )
        }
    }

    /// A fresh lexer over one source fragment.  `span_offset` is the
    /// absolute position of the fragment's first byte, so that several
    /// fragments can share one coordinate space.
    pub fn new(source: &'a [u8], span_offset: usize) -> (r: Self)
        requires
            span_offset + source@.len() <= usize::MAX,
        ensures
            r.wf(),
            r.source == source,
            r.span_offset == span_offset,
            r.newline_is_space == false,
    {
        Self { source, span_offset, newline_is_space: false }
    }

    /// Scans the maximal run of ASCII digits from the front of the
    /// remainder into one `Number` token.
    pub fn lex_number(&mut self) -> (r: Option<Token<'a>>)
        requires
            old(self).wf(),
        ensures
            final(self).wf(),
            ({
                let s = old(self).source@;
                let n = digit_run(s, 0);
                &&& old(self).advanced(*final(self), n)
                &&& r matches Some(t) && t.is_token(
                    TokenType::Number,
                    s.take(n),
                    old(self).span_offset as int,
                    old(self).span_offset + n,
                )
            }),
    {
        let ghost s = self.source@;
        let span_start = self.span_offset;
        let mut token_offset: usize = 0;
        while token_offset < self.source.len()
            invariant_except_break
                self.source@ == s,
                0 <= token_offset <= s.len(),
                digit_run(s, 0) == digit_run(s, token_offset as int),
            ensures
                self.source@ == s,
                0 <= token_offset <= s.len(),
                token_offset == digit_run(s, 0),
            decreases s.len() - token_offset,
        {
            let b = *slice_index_get(self.source, token_offset);
            if !(DIGIT_ZERO <= b && b <= DIGIT_NINE) {
                break;
            }
            token_offset += 1;
        }

        self.span_offset += token_offset;

        let contents = slice_subrange(self.source, 0, token_offset);
        self.source = slice_subrange(self.source, token_offset, self.source.len());

        Some(Token {
            token_type: TokenType::Number,
            contents,
            span_start,
            span_end: self.span_offset,
        })
    }

    /// Scans the maximal run of whitespace bytes (per the current mode
    /// flag) from the front of the remainder into one `Space` token.
    pub fn lex_space(&mut self) -> (r: Option<Token<'a>>)
        requires
            old(self).wf(),
        ensures
            final(self).wf(),
            ({
                let s = old(self).source@;
                let n = space_run(s, 0, old(self).newline_is_space);
                &&& old(self).advanced(*final(self), n)
                &&& r matches Some(t) && t.is_token(
                    TokenType::Space,
                    s.take(n),
                    old(self).span_offset as int,
                    old(self).span_offset + n,
                )
            }),
    {
        let ghost s = self.source@;
        let span_start = self.span_offset;
        let newline_is_space = self.newline_is_space;
        let mut token_offset: usize = 0;
        while token_offset < self.source.len()
            invariant_except_break
                self.source@ == s,
                newline_is_space == self.newline_is_space,
                0 <= token_offset <= s.len(),
                space_run(s, 0, newline_is_space) == space_run(s, token_offset as int, newline_is_space),
            ensures
                self.source@ == s,
                0 <= token_offset <= s.len(),
                token_offset == space_run(s, 0, newline_is_space),
            decreases s.len() - token_offset,
        {
            let b = *slice_index_get(self.source, token_offset);
            if !(b == SPACE || b == TAB || b == CARRIAGE_RETURN
                || (newline_is_space && b == LINE_FEED)) {
                break;
            }
            token_offset += 1;
        }

        self.span_offset += token_offset;

        let contents = slice_subrange(self.source, 0, token_offset);
        self.source = slice_subrange(self.source, token_offset, self.source.len());

        Some(Token {
            token_type: TokenType::Space,
            contents,
            span_start,
            span_end: self.span_offset,
        })
    }

    /// Scans exactly one byte into a `Newline` token.
    pub fn lex_newline(&mut self) -> (r: Option<Token<'a>>)
        requires
            old(self).wf(),
            old(self).source@.len() >= 1,
        ensures
            final(self).wf(),
            old(self).advanced(*final(self), 1),
            r matches Some(t) && t.is_token(
                TokenType::Newline,
                old(self).source@.take(1),
                old(self).span_offset as int,
                old(self).span_offset + 1,
            ),
    {
        let span_start = self.span_offset;
        self.span_offset += 1;

        let contents = slice_subrange(self.source, 0, 1);
        self.source = slice_subrange(self.source, 1, self.source.len());

        Some(Token {
            token_type: TokenType::Newline,
            contents,
            span_start,
            span_end: span_start + 1,
        })
    }

    /// Scans the leading byte and then the maximal run of name bytes
    /// (anything but ASCII whitespace and symbol-set bytes) into one
    /// `Variable` token.  The name may be empty.
    pub fn lex_variable(&mut self) -> (r: Option<Token<'a>>)
        requires
            old(self).wf(),
            old(self).source@.len() >= 1,
        ensures
            final(self).wf(),
            ({
                let s = old(self).source@;
                let n = name_run(s, 1);
                &&& old(self).advanced(*final(self), n)
                &&& r matches Some(t) && t.is_token(
                    TokenType::Variable,
                    s.take(n),
                    old(self).span_offset as int,
                    old(self).span_offset + n,
                )
            }),
    {
        let ghost s = self.source@;
        let span_start = self.span_offset;
        let mut token_offset: usize = 1;
        while token_offset < self.source.len()
            invariant_except_break
                self.source@ == s,
                1 <= token_offset <= s.len(),
                name_run(s, 1) == name_run(s, token_offset as int),
            ensures
                self.source@ == s,
                1 <= token_offset <= s.len(),
                token_offset == name_run(s, 1),
            decreases s.len() - token_offset,
        {
            let b = *slice_index_get(self.source, token_offset);
            if is_rust_whitespace(b) || is_symbol(b) {
                break;
            }
            token_offset += 1;
        }

        self.span_offset += token_offset;

        let contents = slice_subrange(self.source, 0, token_offset);
        self.source = slice_subrange(self.source, token_offset, self.source.len());

        Some(Token {
            token_type: TokenType::Variable,
            contents,
            span_start,
            span_end: self.span_offset,
        })
    }

    /// Scans the leading `#` and everything up to (excluding) the next line
    /// feed into one `Comment` token.
    pub fn lex_comment(&mut self) -> (r: Option<Token<'a>>)
        requires
            old(self).wf(),
            old(self).source@.len() >= 1,
        ensures
            final(self).wf(),
            ({
                let s = old(self).source@;
                let n = comment_run(s, 1);
                &&& old(self).advanced(*final(self), n)
                &&& r matches Some(t) && t.is_token(
                    TokenType::Comment,
                    s.take(n),
                    old(self).span_offset as int,
                    old(self).span_offset + n,
                )
            }),
    {
        let ghost s = self.source@;
        let span_start = self.span_offset;
        let mut token_offset: usize = 1;
        while token_offset < self.source.len()
            invariant_except_break
                self.source@ == s,
                1 <= token_offset <= s.len(),
                comment_run(s, 1) == comment_run(s, token_offset as int),
            ensures
                self.source@ == s,
                1 <= token_offset <= s.len(),
                token_offset == comment_run(s, 1),
            decreases s.len() - token_offset,
        {
            let b = *slice_index_get(self.source, token_offset);
            if b == LINE_FEED {
                break;
            }
            token_offset += 1;
        }

        self.span_offset += token_offset;

        let contents = slice_subrange(self.source, 0, token_offset);
        self.source = slice_subrange(self.source, token_offset, self.source.len());

        Some(Token {
            token_type: TokenType::Comment,
            contents,
            span_start,
            span_end: self.span_offset,
        })
    }

    /// Scans the maximal run of bytes that do not end a free-form bareword
    /// into one `Bareword` token.
    pub fn lex_bareword(&mut self) -> (r: Option<Token<'a>>)
        requires
            old(self).wf(),
        ensures
            final(self).wf(),
            ({
                let s = old(self).source@;
                let n = bareword_run(s, 0);
                &&& old(self).advanced(*final(self), n)
                &&& r matches Some(t) && t.is_token(
                    TokenType::Bareword,
                    s.take(n),
                    old(self).span_offset as int,
                    old(self).span_offset + n,
                )
            }),
    {
        let ghost s = self.source@;
        let span_start = self.span_offset;
        let mut token_offset: usize = 0;
        while token_offset < self.source.len()
            invariant_except_break
                self.source@ == s,
                0 <= token_offset <= s.len(),
                bareword_run(s, 0) == bareword_run(s, token_offset as int),
            ensures
                self.source@ == s,
                0 <= token_offset <= s.len(),
                token_offset == bareword_run(s, 0),
            decreases s.len() - token_offset,
        {
            let b = *slice_index_get(self.source, token_offset);
            if is_rust_whitespace(b) || b == LEFT_CURLY || b == RIGHT_CURLY || b == RIGHT_PAREN
                || b == LEFT_PAREN || b == LEFT_SQUARE || b == RIGHT_SQUARE || b == SEMICOLON
                || b == COLON || b == COMMA {
                break;
            }
            token_offset += 1;
        }

        self.span_offset += token_offset;

        let contents = slice_subrange(self.source, 0, token_offset);
        self.source = slice_subrange(self.source, token_offset, self.source.len());

        Some(Token {
            token_type: TokenType::Bareword,
            contents,
            span_start,
            span_end: self.span_offset,
        })
    }

    /// Scans a double-quoted string into one `String` token: the leading
    /// quote, then everything up to and including the first unescaped
    /// closing quote, or to the end of input when none follows.  A
    /// backslash escapes the byte after it.  Both delimiters are part of
    /// the contents and the span.
    pub fn lex_quoted_string(&mut self) -> (r: Option<Token<'a>>)
        requires
            old(self).wf(),
            old(self).source@.len() >= 1,
        ensures
            final(self).wf(),
            ({
                let s = old(self).source@;
                let n = quoted_string_run(s, 1, false);
                &&& old(self).advanced(*final(self), n)
                &&& r matches Some(t) && t.is_token(
                    TokenType::String,
                    s.take(n),
                    old(self).span_offset as int,
                    old(self).span_offset + n,
                )
            }),
    {
        let ghost s = self.source@;
        let span_start = self.span_offset;
        let mut token_offset: usize = 1;
        let mut is_escaped = false;
        while token_offset < self.source.len()
            invariant_except_break
                self.source@ == s,
                1 <= token_offset <= s.len(),
                quoted_string_run(s, 1, false) == quoted_string_run(s, token_offset as int, is_escaped),
            ensures
                self.source@ == s,
                1 <= token_offset <= s.len(),
                token_offset == quoted_string_run(s, 1, false),
            decreases s.len() - token_offset,
        {
            let b = *slice_index_get(self.source, token_offset);
            if is_escaped {
                is_escaped = false;
            } else if b == BACKSLASH {
                is_escaped = true;
            } else if b == DOUBLE_QUOTE {
                token_offset += 1;
                break;
            }
            token_offset += 1;
        }

        self.span_offset += token_offset;

        let contents = slice_subrange(self.source, 0, token_offset);
        self.source = slice_subrange(self.source, token_offset, self.source.len());

        Some(Token {
            token_type: TokenType::String,
            contents,
            span_start,
            span_end: self.span_offset,
        })
    }

    /// Scans a single-quoted string into one `SimpleString` token: the
    /// leading quote, then everything up to and including the first closing
    /// quote, or to the end of input when none follows.  No escaping.  Both
    /// delimiters are part of the contents and the span.
    pub fn lex_single_quoted_string(&mut self) -> (r: Option<Token<'a>>)
        requires
            old(self).wf(),
            old(self).source@.len() >= 1,
        ensures
            final(self).wf(),
            ({
                let s = old(self).source@;
                let n = delim_run(s, 1, SINGLE_QUOTE);
                &&& old(self).advanced(*final(self), n)
                &&& r matches Some(t) && t.is_token(
                    TokenType::SimpleString,
                    s.take(n),
                    old(self).span_offset as int,
                    old(self).span_offset + n,
                )
            }),
    {
        let ghost s = self.source@;
        let span_start = self.span_offset;
        let mut token_offset: usize = 1;
        while token_offset < self.source.len()
            invariant_except_break
                self.source@ == s,
                1 <= token_offset <= s.len(),
                delim_run(s, 1, SINGLE_QUOTE) == delim_run(s, token_offset as int, SINGLE_QUOTE),
            ensures
                self.source@ == s,
                1 <= token_offset <= s.len(),
                token_offset == delim_run(s, 1, SINGLE_QUOTE),
            decreases s.len() - token_offset,
        {
            let b = *slice_index_get(self.source, token_offset);
            if b == SINGLE_QUOTE {
                token_offset += 1;
                break;
            }
            token_offset += 1;
        }

        self.span_offset += token_offset;

        let contents = slice_subrange(self.source, 0, token_offset);
        self.source = slice_subrange(self.source, token_offset, self.source.len());

        Some(Token {
            token_type: TokenType::SimpleString,
            contents,
            span_start,
            span_end: self.span_offset,
        })
    }

    /// Scans a backtick-quoted word into one `Bareword` token: the leading
    /// backtick, then everything up to and including the first closing
    /// backtick, or to the end of input when none follows.
    ///
    /// The span covers the whole consumed range, delimiters included, so
    /// that spans stay contiguous and the cursor invariant holds; the
    /// contents exclude the first and last consumed byte.  This is the one
    /// family whose span is longer than its contents.
    pub fn lex_quoted_bareword(&mut self) -> (r: Option<Token<'a>>)
        requires
            old(self).wf(),
            old(self).source@.len() >= 1,
        ensures
            final(self).wf(),
            ({
                let s = old(self).source@;
                let n = delim_run(s, 1, BACKTICK);
                &&& old(self).advanced(*final(self), n)
                &&& r matches Some(t) && t.is_token(
                    TokenType::Bareword,
                    if n >= 2 { s.subrange(1, n - 1) } else { Seq::empty() },
                    old(self).span_offset as int,
                    old(self).span_offset + n,
                )
            }),
    {
        let ghost s = self.source@;
        let span_start = self.span_offset;
        let mut token_offset: usize = 1;
        while token_offset < self.source.len()
            invariant_except_break
                self.source@ == s,
                1 <= token_offset <= s.len(),
                delim_run(s, 1, BACKTICK) == delim_run(s, token_offset as int, BACKTICK),
            ensures
                self.source@ == s,
                1 <= token_offset <= s.len(),
                token_offset == delim_run(s, 1, BACKTICK),
            decreases s.len() - token_offset,
        {
            let b = *slice_index_get(self.source, token_offset);
            if b == BACKTICK {
                token_offset += 1;
                break;
            }
            token_offset += 1;
        }

        self.span_offset += token_offset;

        let contents = if token_offset >= 2 {
            slice_subrange(self.source, 1, token_offset - 1)
        } else {
            proof {
                assert(s.subrange(1, 1) =~= Seq::<u8>::empty());
            }
            slice_subrange(self.source, 1, 1)
        };
        self.source = slice_subrange(self.source, token_offset, self.source.len());

        Some(Token {
            token_type: TokenType::Bareword,
            contents,
            span_start,
            span_end: self.span_offset,
        })
    }

    /// Scans one operator or punctuation token by maximal munch: for each
    /// leading byte, one specific second byte upgrades it to a
    /// two-character operator, otherwise the single byte stands alone.
    ///
    /// The caller must hand it a handled symbol byte; meeting any other
    /// byte here would be an internal-invariant violation, so that path is
    /// marked unreachable rather than given a token.
    pub fn lex_symbol(&mut self) -> (r: Option<Token<'a>>)
        requires
            old(self).wf(),
            old(self).source@.len() >= 1,
            is_handled_symbol_byte(old(self).source@[0]),
        ensures
            final(self).wf(),
            ({
                let s = old(self).source@;
                let n = symbol_len(s);
                &&& old(self).advanced(*final(self), n)
                &&& r matches Some(t) && t.is_token(
                    symbol_kind(s),
                    s.take(n),
                    old(self).span_offset as int,
                    old(self).span_offset + n,
                )
            }),
    {
        let span_start = self.span_offset;
        let b0 = *slice_index_get(self.source, 0);
        let two = self.source.len() > 1;
        let b1 = if two { *slice_index_get(self.source, 1) } else { 0 };

        let (token_type, n): (TokenType, usize) = if b0 == LEFT_PAREN {
            (TokenType::LParen, 1)
        } else if b0 == LEFT_SQUARE {
            (TokenType::LSquare, 1)
        } else if b0 == LEFT_CURLY {
            (TokenType::LCurly, 1)
        } else if b0 == RIGHT_PAREN {
            (TokenType::RParen, 1)
        } else if b0 == RIGHT_SQUARE {
            (TokenType::RSquare, 1)
        } else if b0 == RIGHT_CURLY {
            (TokenType::RCurly, 1)
        } else if b0 == LESS_THAN {
            if two && b1 == EQUALS {
                (TokenType::LessThanEqual, 2)
            } else {
                (TokenType::LessThan, 1)
            }
        } else if b0 == GREATER_THAN {
            if two && b1 == EQUALS {
                (TokenType::GreaterThanEqual, 2)
            } else {
                (TokenType::GreaterThan, 1)
            }
        } else if b0 == PLUS {
            if two && b1 == PLUS {
                (TokenType::PlusPlus, 2)
            } else {
                (TokenType::Plus, 1)
            }
        } else if b0 == DASH {
            (TokenType::Dash, 1)
        } else if b0 == ASTERISK {
            if two && b1 == ASTERISK {
                (TokenType::AsteriskAsterisk, 2)
            } else {
                (TokenType::Asterisk, 1)
            }
        } else if b0 == FORWARD_SLASH {
            if two && b1 == FORWARD_SLASH {
                (TokenType::ForwardSlashForwardSlash, 2)
            } else {
                (TokenType::ForwardSlash, 1)
            }
        } else if b0 == EQUALS {
            if two && b1 == EQUALS {
                (TokenType::EqualsEquals, 2)
            } else if two && b1 == TILDE {
                (TokenType::EqualsTilde, 2)
            } else {
                (TokenType::Equals, 1)
            }
        } else if b0 == COLON {
            (TokenType::Colon, 1)
        } else if b0 == SEMICOLON {
            (TokenType::Semicolon, 1)
        } else if b0 == DOT {
            if two && b1 == DOT {
                (TokenType::DotDot, 2)
            } else {
                (TokenType::Dot, 1)
            }
        } else if b0 == EXCLAMATION {
            if two && b1 == EQUALS {
                (TokenType::ExclamationEquals, 2)
            } else if two && b1 == TILDE {
                (TokenType::ExclamationTilde, 2)
            } else {
                (TokenType::Exclamation, 1)
            }
        } else if b0 == DOLLAR {
            (TokenType::Dollar, 1)
        } else if b0 == PIPE_BYTE {
            if two && b1 == PIPE_BYTE {
                (TokenType::PipePipe, 2)
            } else {
                (TokenType::Pipe, 1)
            }
        } else if b0 == AMPERSAND {
            if two && b1 == AMPERSAND {
                (TokenType::AmpersandAmpersand, 2)
            } else {
                (TokenType::Ampersand, 1)
            }
        } else if b0 == COMMA {
            (TokenType::Comma, 1)
        } else {
            unreached()
        };

        self.span_offset += n;

        let contents = slice_subrange(self.source, 0, n);
        self.source = slice_subrange(self.source, n, self.source.len());

        Some(Token {
            token_type,
            contents,
            span_start,
            span_end: self.span_offset,
        })
    }

    /// Preview-next: what produce-next would return, with the cursor state
    /// snapshotted and restored around the scan, so the lexer is left
    /// exactly as it was.  Previewing any number of times keeps returning
    /// this same token.
    pub fn peek(&mut self) -> (r: Option<Token<'a>>)
        requires
            old(self).wf(),
            old(self).source@.len() > 0 ==> old(self).source@[0] != TILDE,
        ensures
            *final(self) == *old(self),
            old(self).next_token_is(r),
            r is Some <==> old(self).source@.len() > 0,
    {
        let prev_offset = self.span_offset;
        let prev_source = self.source;
        let output = self.next();
        self.span_offset = prev_offset;
        self.source = prev_source;

        output
    }

    /// Produce-next: classifies the first unconsumed byte, runs the
    /// matching family scanner, and returns its token, or the sentinel
    /// `None` when nothing remains.  Every non-empty remainder yields a
    /// token — malformed input degrades to EOF-bounded or `Bareword`
    /// tokens, never an error.
    ///
    /// A remainder starting with `~` is excluded: the dispatch rule sends
    /// it to the symbol scanner, which has no operator for it.
    pub fn next(&mut self) -> (r: Option<Token<'a>>)
        requires
            old(self).wf(),
            old(self).source@.len() > 0 ==> old(self).source@[0] != TILDE,
        ensures
            final(self).wf(),
            old(self).advanced(*final(self), old(self).next_consumed()),
            old(self).next_token_is(r),
            r is Some <==> old(self).source@.len() > 0,
    {
        if self.source.len() == 0 {
            proof {
                assert(self.source@.skip(0) =~= self.source@);
            }
            None
        } else {
            let b = *slice_index_get(self.source, 0);
            if DIGIT_ZERO <= b && b <= DIGIT_NINE {
                self.lex_number()
            } else if b == DOUBLE_QUOTE {
                self.lex_quoted_string()
            } else if b == SINGLE_QUOTE {
                self.lex_single_quoted_string()
            } else if b == BACKTICK {
                self.lex_quoted_bareword()
            } else if b == SPACE || b == TAB || b == CARRIAGE_RETURN
                || (self.newline_is_space && b == LINE_FEED) {
                self.lex_space()
            } else if b == DOLLAR {
                self.lex_variable()
            } else if is_symbol(b) {
                self.lex_symbol()
            } else if b == LINE_FEED {
                self.lex_newline()
            } else if b == HASH {
                self.lex_comment()
            } else {
                self.lex_bareword()
            }
        }
    }
}

} // verus!
