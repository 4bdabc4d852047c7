//! The line tokenizer: one line of source text in, its numeric label and
//! ordered, positioned tokens out — or a failure that names what was
//! rejected.
//!
//! The whole scan is specified by [`spec_tokenize`], a recursive function
//! over the line's character sequence, and [`tokenize_line`] is proved to
//! return exactly its result.

use vstd::prelude::*;

use crate::text::all_digits;
use crate::text::digits_val;
use crate::text::digit_char;
use crate::text::find_quote_from;
use crate::text::find_run_end_from;
use crate::text::find_space_from;
use crate::text::first_quote_at;
use crate::text::first_space_at;
use crate::text::is_digit;
use crate::text::is_i32_literal;
use crate::text::is_identifier;
use crate::text::is_space;
use crate::text::is_valid_identifier;
use crate::text::i32_lit_val;
use crate::text::lemma_first_quote_at_bounds;
use crate::text::lemma_run_end_at_bounds;
use crate::text::parse_digits;
use crate::text::parse_i32;
use crate::text::run_end_at;
use crate::text::space_char;
use crate::token::lemma_view_tokens_push;
use crate::token::spec_is_value;
use crate::token::spec_token_for_string;
use crate::token::view_tokens;
use crate::token::LineNumber;
use crate::token::Token;
use crate::token::TokenAndPos;
use crate::token::TokenAndPosV;
use crate::token::TokenV;

verus! {

/// Why a line was rejected. Every failure aborts the current line whole:
/// no partial token sequence is ever returned.
#[derive(Debug, Clone, PartialEq)]
pub enum TokenizeError {
    /// The line's first character is not a digit, or the span up to the
    /// first white-space does not read as a non-negative 32-bit integer.
    MissingOrInvalidLineNumber,
    /// A scanned run matched no integer literal, no fixed spelling, and no
    /// identifier shape. Carries the offending text and its offset.
    UnrecognizedToken { text: String, pos: u32 },
}

/// Mathematical model of a [`TokenizeError`].
pub enum LexErrV {
    MissingOrInvalidLineNumber,
    UnrecognizedToken { text: Seq<char>, pos: int },
}

impl View for TokenizeError {
    type V = LexErrV;

    open spec fn view(&self) -> LexErrV {
        match self {
            TokenizeError::MissingOrInvalidLineNumber => LexErrV::MissingOrInvalidLineNumber,
            TokenizeError::UnrecognizedToken { text, pos } => LexErrV::UnrecognizedToken {
                text: text@,
                pos: *pos as int,
            },
        }
    }
}

/// One tokenized line: its numeric label and its tokens in left-to-right
/// source order.
#[derive(Debug, Clone, PartialEq)]
pub struct LineOfCode {
    pub line_number: LineNumber,
    pub tokens: Vec<TokenAndPos>,
}

/// Mathematical model of a [`LineOfCode`].
pub struct LineOfCodeV {
    pub line_number: int,
    pub tokens: Seq<TokenAndPosV>,
}

impl View for LineOfCode {
    type V = LineOfCodeV;

    open spec fn view(&self) -> LineOfCodeV {
        LineOfCodeV { line_number: self.line_number.0 as int, tokens: view_tokens(self.tokens@) }
    }
}

/// The token-phase scan of `s` from index `i` onward, with `acc` the
/// tokens recognized so far (the scanner reads the last one to classify a
/// minus sign). White-space is skipped; `"` opens a string literal running
/// to the next quote; `-`, `!`, `(`, `)` are single-character tokens; any
/// other character opens a maximal run that is classified as an integer
/// literal, a fixed spelling, or an identifier, in that order. A `REM` run
/// ends the scan: one separating character is skipped and the rest of the
/// line becomes a comment placed four columns after the keyword.
pub open spec fn spec_scan(s: Seq<char>, i: int, acc: Seq<TokenAndPosV>) -> Result<
    Seq<TokenAndPosV>,
    LexErrV,
>
    decreases s.len() - i
        when 0 <= i <= s.len()
{
    if i >= s.len() {
        Ok(acc)
    } else if is_space(s[i]) {
        spec_scan(s, i + 1, acc)
    } else if s[i] == '"' {
        proof {
            lemma_first_quote_at_bounds(s, i + 1);
        }
        let j = first_quote_at(s, i + 1);
        let next = if j + 1 <= s.len() {
            j + 1
        } else {
            s.len() as int
        };
        spec_scan(
            s,
            next,
            acc.push(TokenAndPosV { pos: i, token: TokenV::BString(s.subrange(i + 1, j)) }),
        )
    } else if s[i] == '-' {
        let t = if acc.len() > 0 && spec_is_value(acc.last().token) {
            TokenV::Minus
        } else {
            TokenV::UMinus
        };
        spec_scan(s, i + 1, acc.push(TokenAndPosV { pos: i, token: t }))
    } else if s[i] == '!' {
        spec_scan(s, i + 1, acc.push(TokenAndPosV { pos: i, token: TokenV::Bang }))
    } else if s[i] == '(' {
        spec_scan(s, i + 1, acc.push(TokenAndPosV { pos: i, token: TokenV::LParen }))
    } else if s[i] == ')' {
        spec_scan(s, i + 1, acc.push(TokenAndPosV { pos: i, token: TokenV::RParen }))
    } else {
        proof {
            lemma_run_end_at_bounds(s, i + 1);
        }
        let j = run_end_at(s, i + 1);
        let run = s.subrange(i, j);
        if is_i32_literal(run) {
            spec_scan(s, j, acc.push(TokenAndPosV { pos: i, token: TokenV::Number(i32_lit_val(run)) }))
        } else {
            match spec_token_for_string(run) {
                Some(TokenV::Rem) => {
                    let cstart = if j + 1 <= s.len() {
                        j + 1
                    } else {
                        s.len() as int
                    };
                    Ok(
                        acc.push(TokenAndPosV { pos: i, token: TokenV::Rem }).push(
                            TokenAndPosV {
                                pos: i + 4,
                                token: TokenV::Comment(s.subrange(cstart, s.len() as int)),
                            },
                        ),
                    )
                },
                Some(t) => spec_scan(s, j, acc.push(TokenAndPosV { pos: i, token: t })),
                None => {
                    if is_identifier(run) {
                        spec_scan(
                            s,
                            j,
                            acc.push(TokenAndPosV { pos: i, token: TokenV::Variable(run) }),
                        )
                    } else {
                        Err(LexErrV::UnrecognizedToken { text: run, pos: i })
                    }
                },
            }
        }
    }
}

/// The whole tokenization of one line: the first character must be a
/// digit; the span up to the first white-space must read as a non-negative
/// 32-bit integer, which becomes the line's label; the rest of the line is
/// scanned by [`spec_scan`] starting with no tokens.
pub open spec fn spec_tokenize(s: Seq<char>) -> Result<LineOfCodeV, LexErrV> {
    if s.len() == 0 || !is_digit(s[0]) {
        Err(LexErrV::MissingOrInvalidLineNumber)
    } else {
        let k = first_space_at(s, 1);
        let span = s.subrange(0, k);
        if all_digits(span) && digits_val(span) <= 0xFFFF_FFFF {
            match spec_scan(s, k, Seq::<TokenAndPosV>::empty()) {
                Ok(toks) => Ok(LineOfCodeV { line_number: digits_val(span), tokens: toks }),
                Err(e) => Err(e),
            }
        } else {
            Err(LexErrV::MissingOrInvalidLineNumber)
        }
    }
}

/// The result of [`tokenize_line`] agrees, under the types' views, with
/// the model result `m`.
pub open spec fn lex_result_matches(
    r: Result<LineOfCode, TokenizeError>,
    m: Result<LineOfCodeV, LexErrV>,
) -> bool {
    match r {
        Ok(lc) => m is Ok && lc@ == m->Ok_0,
        Err(e) => m is Err && e@ == m->Err_0,
    }
}

/// Tokenizes one line of source text: returns its numeric label and its
/// positioned tokens exactly as [`spec_tokenize`] describes, or the error
/// that it describes. A pure function of the line.
///
/// Two deliberate lenience decisions, stated by the model rather than left
/// open: a string literal with no closing quote silently runs to the end
/// of the line, and a `REM` with nothing after it yields an empty comment.
pub fn tokenize_line(line: &str) -> (r: Result<LineOfCode, TokenizeError>)
    requires
        line@.len() + 4 <= u32::MAX,
    ensures
        lex_result_matches(r, spec_tokenize(line@)),
{
    let n = line.unicode_len();
    if n == 0 {
        return Err(TokenizeError::MissingOrInvalidLineNumber);
    }
    if !digit_char(line.get_char(0)) {
        return Err(TokenizeError::MissingOrInvalidLineNumber);
    }
    let k = find_space_from(line, 1);
    let num_str = line.substring_char(0, k);
    let num = match parse_digits(num_str) {
        Some(v) => v,
        None => {
            return Err(TokenizeError::MissingOrInvalidLineNumber);
        },
    };
    let mut tokens: Vec<TokenAndPos> = Vec::new();
    let mut i: usize = k;
    let ghost goal = spec_scan(line@, k as int, Seq::<TokenAndPosV>::empty());
    proof {
        assert(view_tokens(tokens@) =~= Seq::<TokenAndPosV>::empty());
    }
    while i < n
        invariant
            n == line@.len(),
            n + 4 <= u32::MAX,
            k <= i <= n,
            1 <= k,
            spec_scan(line@, i as int, view_tokens(tokens@)) == goal,
            spec_tokenize(line@) == (match goal {
                Ok(toks) => Ok(LineOfCodeV { line_number: num as int, tokens: toks }),
                Err(e) => Err::<LineOfCodeV, LexErrV>(e),
            }),
        decreases n - i,
    {
        let c = line.get_char(i);
        if space_char(c) {
            i = i + 1;
        } else if c == '"' {
            let j = find_quote_from(line, i + 1);
            let content = line.substring_char(i + 1, j);
            let tp = TokenAndPos(i as u32, Token::BString(content.to_owned()));
            proof {
                lemma_view_tokens_push(tokens@, tp);
            }
            tokens.push(tp);
            i = if j < n {
                j + 1
            } else {
                n
            };
        } else if c == '-' {
            let last_is_value = tokens.len() > 0 && tokens[tokens.len() - 1].1.is_value();
            proof {
                if tokens@.len() > 0 {
                    assert(view_tokens(tokens@).last() == tokens@[tokens@.len() - 1]@);
                }
            }
            let tp = TokenAndPos(
                i as u32,
                if last_is_value {
                    Token::Minus
                } else {
                    Token::UMinus
                },
            );
            proof {
                lemma_view_tokens_push(tokens@, tp);
            }
            tokens.push(tp);
            i = i + 1;
        } else if c == '!' {
            let tp = TokenAndPos(i as u32, Token::Bang);
            proof {
                lemma_view_tokens_push(tokens@, tp);
            }
            tokens.push(tp);
            i = i + 1;
        } else if c == '(' {
            let tp = TokenAndPos(i as u32, Token::LParen);
            proof {
                lemma_view_tokens_push(tokens@, tp);
            }
            tokens.push(tp);
            i = i + 1;
        } else if c == ')' {
            let tp = TokenAndPos(i as u32, Token::RParen);
            proof {
                lemma_view_tokens_push(tokens@, tp);
            }
            tokens.push(tp);
            i = i + 1;
        } else {
            let j = find_run_end_from(line, i + 1);
            let run = line.substring_char(i, j);
            match parse_i32(run) {
                Some(v) => {
                    let tp = TokenAndPos(i as u32, Token::Number(v));
                    proof {
                        lemma_view_tokens_push(tokens@, tp);
                    }
                    tokens.push(tp);
                    i = j;
                },
                None => {
                    match Token::token_for_string(run) {
                        Some(t) => {
                            match t {
                                Token::Rem => {
                                    let tp = TokenAndPos(i as u32, Token::Rem);
                                    proof {
                                        lemma_view_tokens_push(tokens@, tp);
                                    }
                                    tokens.push(tp);
                                    let cstart = if j < n {
                                        j + 1
                                    } else {
                                        n
                                    };
                                    let comment = line.substring_char(cstart, n);
                                    let cp = TokenAndPos(
                                        i as u32 + 4,
                                        Token::Comment(comment.to_owned()),
                                    );
                                    proof {
                                        lemma_view_tokens_push(tokens@, cp);
                                    }
                                    tokens.push(cp);
                                    return Ok(LineOfCode { line_number: LineNumber(num), tokens });
                                },
                                other => {
                                    proof {
                                        assert(other@ != TokenV::Rem);
                                    }
                                    let tp = TokenAndPos(i as u32, other);
                                    proof {
                                        lemma_view_tokens_push(tokens@, tp);
                                    }
                                    tokens.push(tp);
                                    i = j;
                                },
                            }
                        },
                        None => {
                            if is_valid_identifier(run) {
                                let tp = TokenAndPos(i as u32, Token::Variable(run.to_owned()));
                                proof {
                                    lemma_view_tokens_push(tokens@, tp);
                                }
                                tokens.push(tp);
                                i = j;
                            } else {
                                return Err(
                                    TokenizeError::UnrecognizedToken {
                                        text: run.to_owned(),
                                        pos: i as u32,
                                    },
                                );
                            }
                        },
                    }
                },
            }
        }
    }
    Ok(LineOfCode { line_number: LineNumber(num), tokens })
}

/// Every line whose first character is not a digit — the empty line
/// included — is rejected with `MissingOrInvalidLineNumber`.
pub proof fn lemma_no_leading_digit_fails(s: Seq<char>)
    requires
        s.len() == 0 || !is_digit(s[0]),
    ensures
        spec_tokenize(s) == Err::<LineOfCodeV, LexErrV>(LexErrV::MissingOrInvalidLineNumber),
{
}

/// Tokenization is deterministic: any two results obtained for the same
/// line agree under the types' views. With [`tokenize_line`]'s contract,
/// re-tokenizing a line always yields an equal record or an equal error.
pub proof fn lemma_tokenize_deterministic(
    s: Seq<char>,
    r1: Result<LineOfCode, TokenizeError>,
    r2: Result<LineOfCode, TokenizeError>,
)
    requires
        lex_result_matches(r1, spec_tokenize(s)),
        lex_result_matches(r2, spec_tokenize(s)),
    ensures
        match (r1, r2) {
            (Ok(a), Ok(b)) => a@ == b@,
            (Err(a), Err(b)) => a@ == b@,
            _ => false,
        },
{
}

/// The offsets of `ts` strictly increase along the sequence: the tokens
/// stand in left-to-right source order.
pub open spec fn positions_increase(ts: Seq<TokenAndPosV>) -> bool {
    forall|p: int, q: int| 0 <= p < q < ts.len() ==> ts[p].pos < ts[q].pos
}

/// Appending a token whose offset lies beyond every earlier one keeps the
/// sequence ordered, and keeps every offset below `next`.
proof fn lemma_order_push(acc: Seq<TokenAndPosV>, t: TokenAndPosV, next: int)
    requires
        positions_increase(acc),
        forall|p: int| 0 <= p < acc.len() ==> acc[p].pos < t.pos,
        t.pos < next,
    ensures
        positions_increase(acc.push(t)),
        forall|p: int| 0 <= p < acc.push(t).len() ==> acc.push(t)[p].pos < next,
{
    assert forall|p: int, q: int|
        0 <= p < q < acc.push(t).len() implies acc.push(t)[p].pos < acc.push(t)[q].pos by {
        assert(acc.push(t)[p] == acc[p]);
        if q < acc.len() {
            assert(acc.push(t)[q] == acc[q]);
        }
    }
    assert forall|p: int| 0 <= p < acc.push(t).len() implies acc.push(t)[p].pos < next by {
        if p < acc.len() {
            assert(acc.push(t)[p] == acc[p]);
        }
    }
}

/// The scan only ever appends tokens at or beyond the cursor, so a scan
/// started past every accumulated offset returns an ordered sequence.
proof fn lemma_scan_keeps_source_order(s: Seq<char>, i: int, acc: Seq<TokenAndPosV>)
    requires
        0 <= i <= s.len(),
        positions_increase(acc),
        forall|p: int| 0 <= p < acc.len() ==> acc[p].pos < i,
    ensures
        spec_scan(s, i, acc) matches Ok(toks) ==> positions_increase(toks),
    decreases s.len() - i,
{
    if i >= s.len() {
    } else if is_space(s[i]) {
        lemma_scan_keeps_source_order(s, i + 1, acc);
    } else if s[i] == '"' {
        lemma_first_quote_at_bounds(s, i + 1);
        let j = first_quote_at(s, i + 1);
        let next = if j + 1 <= s.len() {
            j + 1
        } else {
            s.len() as int
        };
        let t = TokenAndPosV { pos: i, token: TokenV::BString(s.subrange(i + 1, j)) };
        lemma_order_push(acc, t, next);
        lemma_scan_keeps_source_order(s, next, acc.push(t));
    } else if s[i] == '-' {
        let t = TokenAndPosV {
            pos: i,
            token: if acc.len() > 0 && spec_is_value(acc.last().token) {
                TokenV::Minus
            } else {
                TokenV::UMinus
            },
        };
        lemma_order_push(acc, t, i + 1);
        lemma_scan_keeps_source_order(s, i + 1, acc.push(t));
    } else if s[i] == '!' {
        let t = TokenAndPosV { pos: i, token: TokenV::Bang };
        lemma_order_push(acc, t, i + 1);
        lemma_scan_keeps_source_order(s, i + 1, acc.push(t));
    } else if s[i] == '(' {
        let t = TokenAndPosV { pos: i, token: TokenV::LParen };
        lemma_order_push(acc, t, i + 1);
        lemma_scan_keeps_source_order(s, i + 1, acc.push(t));
    } else if s[i] == ')' {
        let t = TokenAndPosV { pos: i, token: TokenV::RParen };
        lemma_order_push(acc, t, i + 1);
        lemma_scan_keeps_source_order(s, i + 1, acc.push(t));
    } else {
        lemma_run_end_at_bounds(s, i + 1);
        let j = run_end_at(s, i + 1);
        let run = s.subrange(i, j);
        if is_i32_literal(run) {
            let t = TokenAndPosV { pos: i, token: TokenV::Number(i32_lit_val(run)) };
            lemma_order_push(acc, t, j);
            lemma_scan_keeps_source_order(s, j, acc.push(t));
        } else {
            match spec_token_for_string(run) {
                Some(TokenV::Rem) => {
                    let cstart = if j + 1 <= s.len() {
                        j + 1
                    } else {
                        s.len() as int
                    };
                    let rem = TokenAndPosV { pos: i, token: TokenV::Rem };
                    let com = TokenAndPosV {
                        pos: i + 4,
                        token: TokenV::Comment(s.subrange(cstart, s.len() as int)),
                    };
                    lemma_order_push(acc, rem, i + 4);
                    lemma_order_push(acc.push(rem), com, i + 5);
                },
                Some(t) => {
                    let tp = TokenAndPosV { pos: i, token: t };
                    lemma_order_push(acc, tp, j);
                    lemma_scan_keeps_source_order(s, j, acc.push(tp));
                },
                None => {
                    if is_identifier(run) {
                        let tp = TokenAndPosV { pos: i, token: TokenV::Variable(run) };
                        lemma_order_push(acc, tp, j);
                        lemma_scan_keeps_source_order(s, j, acc.push(tp));
                    }
                },
            }
        }
    }
}

/// The token sequence of every successful tokenization stands in strict
/// left-to-right source order: offsets increase along the sequence.
pub proof fn lemma_tokens_in_source_order(s: Seq<char>)
    ensures
        spec_tokenize(s) matches Ok(lv) ==> positions_increase(lv.tokens),
{
    if s.len() > 0 && is_digit(s[0]) {
        crate::text::lemma_first_space_at_bounds(s, 1);
        let k = first_space_at(s, 1);
        lemma_scan_keeps_source_order(s, k, Seq::<TokenAndPosV>::empty());
    }
}

/// A minus sign is classified from its local left context alone: it scans
/// as the binary `Minus` exactly when the token recognized immediately
/// before it produces a value (a variable, number, or string literal), and
/// as `UMinus` otherwise — in particular when no token precedes it.
pub proof fn lemma_minus_disambiguation(s: Seq<char>, i: int, acc: Seq<TokenAndPosV>)
    requires
        0 <= i < s.len(),
        s[i] == '-',
    ensures
        ({
            let t = if acc.len() > 0 && spec_is_value(acc.last().token) {
                TokenV::Minus
            } else {
                TokenV::UMinus
            };
            spec_scan(s, i, acc) == spec_scan(s, i + 1, acc.push(TokenAndPosV { pos: i, token: t }))
        }),
{
    assert(!is_space(s[i]));
    assert(s[i] != '"');
}

} // verus!
