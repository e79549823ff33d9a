//! Stream-level laws: bounds on what one scan consumes, losslessness of the
//! token stream, and contiguity of token spans.

use vstd::prelude::*;

use crate::model::{
    bareword_run, comment_run, concat_contents, delim_run, digit_run, is_ascii_whitespace_byte,
    is_bareword_end_byte, is_digit_byte, is_space_byte, is_symbol_byte, lex_all, lossless_input,
    name_run, next_len, quoted_string_run, space_run, BACKSLASH, BACKTICK, DOLLAR, DOUBLE_QUOTE,
    FORM_FEED, HASH, LINE_FEED, SINGLE_QUOTE, TILDE,
};

verus! {

/// A digit run neither moves backwards nor passes the end of the input.
pub proof fn lemma_digit_run_bounds(s: Seq<u8>, i: int)
    requires
        0 <= i <= s.len(),
    ensures
        i <= digit_run(s, i) <= s.len(),
    decreases s.len() - i,
{
    if i < s.len() && is_digit_byte(s[i]) {
        lemma_digit_run_bounds(s, i + 1);
    }
}

/// A whitespace run neither moves backwards nor passes the end of the input.
pub proof fn lemma_space_run_bounds(s: Seq<u8>, i: int, newline_is_space: bool)
    requires
        0 <= i <= s.len(),
    ensures
        i <= space_run(s, i, newline_is_space) <= s.len(),
    decreases s.len() - i,
{
    if i < s.len() && is_space_byte(s[i], newline_is_space) {
        lemma_space_run_bounds(s, i + 1, newline_is_space);
    }
}

/// A variable-name run neither moves backwards nor passes the end of the
/// input.
pub proof fn lemma_name_run_bounds(s: Seq<u8>, i: int)
    requires
        0 <= i <= s.len(),
    ensures
        i <= name_run(s, i) <= s.len(),
    decreases s.len() - i,
{
    if i < s.len() && !is_ascii_whitespace_byte(s[i]) && !is_symbol_byte(s[i]) {
        lemma_name_run_bounds(s, i + 1);
    }
}

/// A comment run neither moves backwards nor passes the end of the input.
pub proof fn lemma_comment_run_bounds(s: Seq<u8>, i: int)
    requires
        0 <= i <= s.len(),
    ensures
        i <= comment_run(s, i) <= s.len(),
    decreases s.len() - i,
{
    if i < s.len() && s[i] != LINE_FEED {
        lemma_comment_run_bounds(s, i + 1);
    }
}

/// A bareword run neither moves backwards nor passes the end of the input.
pub proof fn lemma_bareword_run_bounds(s: Seq<u8>, i: int)
    requires
        0 <= i <= s.len(),
    ensures
        i <= bareword_run(s, i) <= s.len(),
    decreases s.len() - i,
{
    if i < s.len() && !is_bareword_end_byte(s[i]) {
        lemma_bareword_run_bounds(s, i + 1);
    }
}

/// A delimiter scan ends between `i` and the end of the input.
pub proof fn lemma_delim_run_bounds(s: Seq<u8>, i: int, d: u8)
    requires
        0 <= i <= s.len(),
    ensures
        i <= delim_run(s, i, d) <= s.len(),
    decreases s.len() - i,
{
    if i < s.len() && s[i] != d {
        lemma_delim_run_bounds(s, i + 1, d);
    }
}

/// A double-quoted-string scan ends between `i` and the end of the input.
pub proof fn lemma_quoted_string_run_bounds(s: Seq<u8>, i: int, escaped: bool)
    requires
        0 <= i <= s.len(),
    ensures
        i <= quoted_string_run(s, i, escaped) <= s.len(),
    decreases s.len() - i,
{
    if i < s.len() {
        if escaped {
            lemma_quoted_string_run_bounds(s, i + 1, false);
        } else if s[i] == BACKSLASH {
            lemma_quoted_string_run_bounds(s, i + 1, true);
        } else if s[i] != DOUBLE_QUOTE {
            lemma_quoted_string_run_bounds(s, i + 1, false);
        }
    }
}

/// One scan of a non-empty remainder consumes at most the whole remainder,
/// and at least one byte unless the remainder starts with a form feed.
pub proof fn lemma_next_len_bounds(s: Seq<u8>, newline_is_space: bool)
    requires
        s.len() > 0,
    ensures
        0 <= next_len(s, newline_is_space) <= s.len(),
        s[0] != FORM_FEED ==> 1 <= next_len(s, newline_is_space),
{
    let b = s[0];
    if is_digit_byte(b) {
        lemma_digit_run_bounds(s, 1);
    } else if b == DOUBLE_QUOTE {
        lemma_quoted_string_run_bounds(s, 1, false);
    } else if b == SINGLE_QUOTE {
        lemma_delim_run_bounds(s, 1, SINGLE_QUOTE);
    } else if b == BACKTICK {
        lemma_delim_run_bounds(s, 1, BACKTICK);
    } else if is_space_byte(b, newline_is_space) {
        lemma_space_run_bounds(s, 1, newline_is_space);
    } else if b == DOLLAR {
        lemma_name_run_bounds(s, 1);
    } else if is_symbol_byte(b) {
    } else if b == LINE_FEED {
    } else if b == HASH {
        lemma_comment_run_bounds(s, 1);
    } else if b != FORM_FEED {
        assert(!is_bareword_end_byte(b));
        lemma_bareword_run_bounds(s, 1);
    } else {
        lemma_bareword_run_bounds(s, 0);
    }
}

/// Losslessness: on every input whose scans all make ordinary progress
/// (no scan starts at a backtick, a `~`, or a form feed), concatenating
/// the contents of the produced tokens in order reproduces the input
/// bytes exactly.
///
/// A backtick-led scan is genuinely lossy — its token's contents drop the
/// delimiters — so `lossless_input` excludes exactly the inputs on which
/// the property fails or no full token stream exists.
pub proof fn lemma_losslessness(s: Seq<u8>, off: int, newline_is_space: bool)
    requires
        lossless_input(s, newline_is_space),
    ensures
        concat_contents(lex_all(s, off, newline_is_space)) == s,
    decreases s.len(),
{
    if s.len() == 0 {
        assert(concat_contents(lex_all(s, off, newline_is_space)) =~= s);
    } else {
        let n = next_len(s, newline_is_space);
        let rest = s.skip(n);
        let tokens = lex_all(s, off, newline_is_space);
        lemma_losslessness(rest, off + n, newline_is_space);
        assert(tokens.drop_first() =~= lex_all(rest, off + n, newline_is_space));
        assert(tokens[0].contents == s.take(n));
        assert(s.take(n) + rest =~= s);
    }
}

/// An input with no backtick, no `~`, and no form feed anywhere is
/// lossless, whatever the mode flag: none of the three special first bytes
/// can ever come up while scanning it.
pub proof fn lemma_lossless_without_special_bytes(s: Seq<u8>, newline_is_space: bool)
    requires
        forall|i: int|
            0 <= i < s.len() ==> #[trigger] s[i] != BACKTICK && s[i] != TILDE && s[i] != FORM_FEED,
    ensures
        lossless_input(s, newline_is_space),
    decreases s.len(),
{
    if s.len() > 0 {
        lemma_next_len_bounds(s, newline_is_space);
        let n = next_len(s, newline_is_space);
        let rest = s.skip(n);
        assert(forall|i: int|
            0 <= i < rest.len() ==> #[trigger] rest[i] != BACKTICK && rest[i] != TILDE && rest[i]
                != FORM_FEED) by {
            assert(forall|i: int| 0 <= i < rest.len() ==> #[trigger] rest[i] == s[i + n]);
        }
        lemma_lossless_without_special_bytes(rest, newline_is_space);
    }
}

/// Span contiguity: in the token stream of any input, the first token
/// starts at the lexer's starting offset, each token's span ends where the
/// next one's begins, and every span's length is what its scan consumed.
pub proof fn lemma_span_contiguity(s: Seq<u8>, off: int, newline_is_space: bool)
    ensures
        ({
            let tokens = lex_all(s, off, newline_is_space);
            &&& tokens.len() > 0 ==> tokens[0].span_start == off
            &&& forall|i: int|
                0 <= i && i + 1 < tokens.len() ==> #[trigger] tokens[i].span_end
                    == tokens[i + 1].span_start
        }),
    decreases s.len(),
{
    let tokens = lex_all(s, off, newline_is_space);
    if s.len() > 0 {
        let n = next_len(s, newline_is_space);
        if 1 <= n && n <= s.len() {
            let rest_tokens = lex_all(s.skip(n), off + n, newline_is_space);
            lemma_span_contiguity(s.skip(n), off + n, newline_is_space);
            assert(tokens.drop_first() =~= rest_tokens);
            assert(forall|i: int|
                0 <= i && i + 1 < tokens.len() ==> #[trigger] tokens[i].span_end
                    == tokens[i + 1].span_start) by {
                assert forall|i: int| 0 <= i && i + 1 < tokens.len() implies #[trigger] tokens[i].span_end
                    == tokens[i + 1].span_start by {
                    if i == 0 {
                        assert(tokens[0].span_end == off + n);
                        assert(tokens[1] == rest_tokens[0]);
                    } else {
                        assert(tokens[i] == rest_tokens[i - 1]);
                        assert(tokens[i + 1] == rest_tokens[i]);
                    }
                }
            }
        }
    }
}

} // verus!
