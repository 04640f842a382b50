//! The lexer. Source text is expanded into positioned characters, one
//! trailing blank appended per line, and scanned left to right: blanks
//! between tokens are skipped, the recognizers are tried in a fixed order at
//! every other position, and a character nobody claims yields one
//! `Undefined` token and one diagnostic, except carriage returns, which are
//! ignored. Lexing never aborts: it returns a complete token list beside the
//! diagnostics.

use vstd::prelude::*;
use vstd::string::StrSliceExecFns;
use crate::position::Position;
use crate::token::CodeChar;
use crate::token::Token;
use crate::token::TokenModel;
use crate::token::TokenType;
use crate::error::ErrorEntry;
use crate::error::ErrorKind;
use crate::error::ErrorModel;
use crate::error::spec_new_entry;
use crate::text::push_char;
use crate::recognizers::TokenRecognizer;
use crate::recognizers::LineCommentTokenRecognizer;
use crate::recognizers::BlockCommentTokenRecognizer;
use crate::recognizers::SymbolTokenRecognizer;
use crate::recognizers::WordTokenRecognizer;
use crate::recognizers::NumberTokenRecognizer;
use crate::recognizers::spec_recognize_at;
use crate::recognizers::lemma_claim_bounds;
use crate::recognizers::token_text;

verus! {

/// The line on which the character at `i` of the source stands: the number
/// of line breaks before it.
pub open spec fn line_of(text: Seq<char>, i: int) -> nat
    decreases i,
{
    if i <= 0 {
        0
    } else if 0 < i <= text.len() && text[i - 1] == '\n' {
        line_of(text, i - 1) + 1
    } else {
        line_of(text, i - 1)
    }
}

/// The column of the character at `i` of the source: its distance from the
/// last line break.
pub open spec fn col_of(text: Seq<char>, i: int) -> nat
    decreases i,
{
    if i <= 0 {
        0
    } else if 0 < i <= text.len() && text[i - 1] == '\n' {
        0
    } else {
        col_of(text, i - 1) + 1
    }
}

/// Line and column never run ahead of the index.
pub proof fn lemma_line_col_bound(text: Seq<char>, i: int)
    requires
        0 <= i,
    ensures
        line_of(text, i) <= i,
        col_of(text, i) <= i,
    decreases i,
{
    if i > 0 {
        lemma_line_col_bound(text, i - 1);
    }
}

/// The character the expanded source shows at `i`: the source character,
/// with each line break replaced by the blank that ends its line, and one
/// more blank after the last line.
pub open spec fn flat_symbol(text: Seq<char>, i: int) -> char {
    if i < text.len() {
        if text[i] == '\n' {
            ' '
        } else {
            text[i]
        }
    } else {
        ' '
    }
}

/// The position of the character at `i` of the source.
pub open spec fn position_of(text: Seq<char>, i: int) -> Position {
    Position { line: line_of(text, i) as usize, line_position: col_of(text, i) as usize }
}

/// The expanded source: each character tagged with its position, each line
/// break replaced by the blank that ends its line, and one more blank
/// appended after the last line.
pub open spec fn code_chars_of(text: Seq<char>) -> Seq<CodeChar> {
    Seq::new(
        text.len() + 1,
        |i: int| CodeChar { symbol: flat_symbol(text, i), position: position_of(text, i) },
    )
}

/// Expands the source into positioned characters, one trailing blank per
/// line.
pub fn collect_code_chars(code: &str) -> (r: Vec<CodeChar>)
    ensures
        r@ == code_chars_of(code@),
{
    let len: usize = code.unicode_len();
    let mut out: Vec<CodeChar> = Vec::new();
    let mut line: usize = 0;
    let mut col: usize = 0;
    let mut i: usize = 0;
    while i < len
        invariant
            i <= len,
            len == code@.len(),
            line as nat == line_of(code@, i as int),
            col as nat == col_of(code@, i as int),
            out@ =~= code_chars_of(code@).take(i as int),
        decreases len - i,
    {
        proof {
            lemma_line_col_bound(code@, i as int);
        }
        let c = code.get_char(i);
        let symbol = if c == '\n' {
            ' '
        } else {
            c
        };
        out.push(CodeChar { symbol, position: Position { line, line_position: col } });
        if c == '\n' {
            line = line + 1;
            col = 0;
        } else {
            col = col + 1;
        }
        i = i + 1;
        proof {
            assert(out@ =~= code_chars_of(code@).take(i as int));
        }
    }
    out.push(CodeChar { symbol: ' ', position: Position { line, line_position: col } });
    proof {
        assert(out@ =~= code_chars_of(code@));
    }
    out
}

/// The scan of the expanded characters from `pos`: the tokens read and the
/// diagnostics raised. At each position, a blank is skipped; otherwise the
/// first claim of the recognizers, tried in their fixed order, is taken;
/// otherwise the character yields one `Undefined` token and one
/// `UndefinedSymbol` diagnostic, except a carriage return, which is skipped
/// silently.
pub open spec fn spec_scan(chars: Seq<CodeChar>, pos: int) -> (Seq<TokenModel>, Seq<ErrorModel>)
    decreases chars.len() - pos,
    via spec_scan_decreases
{
    if pos < 0 || pos >= chars.len() {
        (Seq::empty(), Seq::empty())
    } else if chars[pos].symbol == ' ' {
        spec_scan(chars, pos + 1)
    } else {
        match spec_recognize_at(chars, pos) {
            Some(claim) => {
                let rest = spec_scan(chars, claim.1);
                (seq![claim.0] + rest.0, rest.1)
            },
            None => {
                if chars[pos].symbol == '\r' {
                    spec_scan(chars, pos + 1)
                } else {
                    let rest = spec_scan(chars, pos + 1);
                    let tok = TokenModel {
                        position: chars[pos].position,
                        text: seq![chars[pos].symbol],
                        kind: TokenType::Undefined,
                    };
                    let err = spec_new_entry(
                        ErrorKind::UndefinedSymbol,
                        chars[pos].position,
                        seq![seq![chars[pos].symbol]],
                    );
                    (seq![tok] + rest.0, seq![err] + rest.1)
                }
            },
        }
    }
}

#[via_fn]
proof fn spec_scan_decreases(chars: Seq<CodeChar>, pos: int) {
    if 0 <= pos < chars.len() {
        lemma_claim_bounds(chars, pos);
    }
}

/// Reads the whole source into tokens. The scan always completes; the
/// diagnostics raised are appended to `errs_acc`.
pub fn tokenize(code: &str, errs_acc: &mut Vec<ErrorEntry>) -> (tokens: Vec<Token>)
    ensures
        tokens.deep_view() == spec_scan(code_chars_of(code@), 0).0,
        final(errs_acc).deep_view() == old(errs_acc).deep_view() + spec_scan(code_chars_of(code@), 0).1,
{
    let code_chars = collect_code_chars(code);
    let ghost chars = code_chars@;
    let n = code_chars.len();
    let mut tokens: Vec<Token> = Vec::new();
    let mut pos: usize = 0;
    proof {
        assert(tokens.deep_view() + spec_scan(chars, 0).0 =~= spec_scan(chars, 0).0);
        assert(errs_acc.deep_view() + spec_scan(chars, 0).1 =~= old(errs_acc).deep_view()
            + spec_scan(chars, 0).1);
    }
    while pos < n
        invariant
            pos <= n,
            n == chars.len(),
            chars == code_chars@,
            spec_scan(chars, 0).0 =~= tokens.deep_view() + spec_scan(chars, pos as int).0,
            old(errs_acc).deep_view() + spec_scan(chars, 0).1 =~= errs_acc.deep_view() + spec_scan(
                chars,
                pos as int,
            ).1,
        decreases n - pos,
    {
        let ghost toks0 = tokens.deep_view();
        let ghost errs0 = errs_acc.deep_view();
        let curr = code_chars[pos];
        if curr.symbol == ' ' {
            pos = pos + 1;
            continue;
        }
        proof {
            lemma_claim_bounds(chars, pos as int);
        }
        let line_comment = LineCommentTokenRecognizer {};
        let block_comment = BlockCommentTokenRecognizer {};
        let symbol = SymbolTokenRecognizer {};
        let word = WordTokenRecognizer {};
        let number = NumberTokenRecognizer {};
        let mut claimed: Option<Token> = None;
        let mut next: usize = 0;
        let (t, nx) = line_comment.recognize_token(&code_chars, pos);
        match t {
            Some(tok) => {
                claimed = Some(tok);
                next = nx;
            },
            None => {
                let (t, nx) = block_comment.recognize_token(&code_chars, pos);
                match t {
                    Some(tok) => {
                        claimed = Some(tok);
                        next = nx;
                    },
                    None => {
                        let (t, nx) = symbol.recognize_token(&code_chars, pos);
                        match t {
                            Some(tok) => {
                                claimed = Some(tok);
                                next = nx;
                            },
                            None => {
                                let (t, nx) = word.recognize_token(&code_chars, pos);
                                match t {
                                    Some(tok) => {
                                        claimed = Some(tok);
                                        next = nx;
                                    },
                                    None => {
                                        let (t, nx) = number.recognize_token(&code_chars, pos);
                                        match t {
                                            Some(tok) => {
                                                claimed = Some(tok);
                                                next = nx;
                                            },
                                            None => {},
                                        }
                                    },
                                }
                            },
                        }
                    },
                }
            },
        }
        match claimed {
            Some(tok) => {
                proof {
                    assert(spec_recognize_at(chars, pos as int) matches Some(claim) && claim.0
                        == tok@ && claim.1 == next as int);
                }
                tokens.push(tok);
                proof {
                    assert(tokens.deep_view() =~= toks0.push(
                        spec_recognize_at(chars, pos as int)->Some_0.0,
                    ));
                    assert(spec_scan(chars, pos as int).0 =~= seq![
                        spec_recognize_at(chars, pos as int)->Some_0.0,
                    ] + spec_scan(chars, next as int).0);
                    assert(toks0 + spec_scan(chars, pos as int).0 =~= tokens.deep_view()
                        + spec_scan(chars, next as int).0);
                    assert(spec_scan(chars, pos as int).1 == spec_scan(chars, next as int).1);
                }
                pos = next;
            },
            None => {
                if curr.symbol != '\r' {
                    let mut arg = String::new();
                    push_char(&mut arg, curr.symbol);
                    proof {
                        assert(arg@ =~= seq![curr.symbol]);
                    }
                    let mut args: Vec<String> = Vec::new();
                    args.push(arg);
                    proof {
                        assert(args.deep_view() =~= seq![seq![curr.symbol]]);
                    }
                    let entry = ErrorEntry::new(ErrorKind::UndefinedSymbol, &curr.position, args);
                    errs_acc.push(entry);
                    let mut value = String::new();
                    push_char(&mut value, curr.symbol);
                    proof {
                        assert(value@ =~= seq![curr.symbol]);
                    }
                    tokens.push(
                        Token {
                            token_type: TokenType::Undefined,
                            position: curr.position,
                            value,
                        },
                    );
                    proof {
                        let tok = TokenModel {
                            position: chars[pos as int].position,
                            text: seq![chars[pos as int].symbol],
                            kind: TokenType::Undefined,
                        };
                        let err = spec_new_entry(
                            ErrorKind::UndefinedSymbol,
                            chars[pos as int].position,
                            seq![seq![chars[pos as int].symbol]],
                        );
                        assert(tokens.deep_view() =~= toks0.push(tok));
                        assert(errs_acc.deep_view() =~= errs0.push(err));
                        assert(spec_scan(chars, pos as int).0 =~= seq![tok] + spec_scan(
                            chars,
                            pos + 1,
                        ).0);
                        assert(spec_scan(chars, pos as int).1 =~= seq![err] + spec_scan(
                            chars,
                            pos + 1,
                        ).1);
                        assert(toks0 + spec_scan(chars, pos as int).0 =~= tokens.deep_view()
                            + spec_scan(chars, pos + 1).0);
                        assert(errs0 + spec_scan(chars, pos as int).1 =~= errs_acc.deep_view()
                            + spec_scan(chars, pos + 1).1);
                    }
                }
                pos = pos + 1;
            },
        }
    }
    proof {
        assert(tokens.deep_view() + spec_scan(chars, pos as int).0 =~= tokens.deep_view());
        assert(errs_acc.deep_view() + spec_scan(chars, pos as int).1 =~= errs_acc.deep_view());
        assert(tokens.deep_view() =~= spec_scan(chars, 0).0);
        assert(errs_acc.deep_view() =~= old(errs_acc).deep_view() + spec_scan(chars, 0).1);
    }
    tokens
}

/// The texts of the given tokens, concatenated in order.
pub open spec fn concat_texts(tokens: Seq<TokenModel>) -> Seq<char>
    decreases tokens.len(),
{
    if tokens.len() == 0 {
        Seq::empty()
    } else {
        tokens.first().text + concat_texts(tokens.drop_first())
    }
}

/// The source characters the scan keeps, verbatim and in order: everything
/// from `pos` on except the blanks skipped between tokens and the carriage
/// returns nobody claims.
pub open spec fn spec_scan_kept(chars: Seq<CodeChar>, pos: int) -> Seq<char>
    decreases chars.len() - pos,
    via spec_scan_kept_decreases
{
    if pos < 0 || pos >= chars.len() {
        Seq::empty()
    } else if chars[pos].symbol == ' ' {
        spec_scan_kept(chars, pos + 1)
    } else {
        match spec_recognize_at(chars, pos) {
            Some(claim) => token_text(chars, pos, claim.1) + spec_scan_kept(chars, claim.1),
            None => {
                if chars[pos].symbol == '\r' {
                    spec_scan_kept(chars, pos + 1)
                } else {
                    seq![chars[pos].symbol] + spec_scan_kept(chars, pos + 1)
                }
            },
        }
    }
}

#[via_fn]
proof fn spec_scan_kept_decreases(chars: Seq<CodeChar>, pos: int) {
    if 0 <= pos < chars.len() {
        lemma_claim_bounds(chars, pos);
    }
}

/// Round trip: concatenating the texts of the tokens the scan reads
/// reproduces the scanned characters themselves, in order, dropping only the
/// blanks skipped between tokens and the ignored carriage returns. Every
/// other character is consumed by exactly one token.
pub proof fn lemma_scan_round_trip(chars: Seq<CodeChar>, pos: int)
    ensures
        concat_texts(spec_scan(chars, pos).0) == spec_scan_kept(chars, pos),
    decreases chars.len() - pos,
{
    if pos < 0 || pos >= chars.len() {
    } else if chars[pos].symbol == ' ' {
        lemma_scan_round_trip(chars, pos + 1);
    } else {
        lemma_claim_bounds(chars, pos);
        match spec_recognize_at(chars, pos) {
            Some(claim) => {
                lemma_scan_round_trip(chars, claim.1);
                let rest = spec_scan(chars, claim.1);
                assert((seq![claim.0] + rest.0).first() == claim.0);
                assert((seq![claim.0] + rest.0).drop_first() =~= rest.0);
            },
            None => {
                lemma_scan_round_trip(chars, pos + 1);
                if chars[pos].symbol != '\r' {
                    let rest = spec_scan(chars, pos + 1);
                    let tok = TokenModel {
                        position: chars[pos].position,
                        text: seq![chars[pos].symbol],
                        kind: TokenType::Undefined,
                    };
                    assert((seq![tok] + rest.0).first() == tok);
                    assert((seq![tok] + rest.0).drop_first() =~= rest.0);
                }
            },
        }
    }
}

/// The number of tokens of the given kind.
pub open spec fn count_kind(tokens: Seq<TokenModel>, kind: TokenType) -> nat
    decreases tokens.len(),
{
    if tokens.len() == 0 {
        0
    } else {
        count_kind(tokens.drop_first(), kind) + if tokens.first().kind == kind {
            1nat
        } else {
            0nat
        }
    }
}

/// Each character no recognizer claims produces exactly one `Undefined`
/// token and exactly one diagnostic: the scan raises as many diagnostics as
/// it reads `Undefined` tokens.
pub proof fn lemma_scan_errors_match_undefined(chars: Seq<CodeChar>, pos: int)
    ensures
        spec_scan(chars, pos).1.len() == count_kind(spec_scan(chars, pos).0, TokenType::Undefined),
    decreases chars.len() - pos,
{
    if pos < 0 || pos >= chars.len() {
    } else if chars[pos].symbol == ' ' {
        lemma_scan_errors_match_undefined(chars, pos + 1);
    } else {
        lemma_claim_bounds(chars, pos);
        match spec_recognize_at(chars, pos) {
            Some(claim) => {
                lemma_scan_errors_match_undefined(chars, claim.1);
                let rest = spec_scan(chars, claim.1);
                assert((seq![claim.0] + rest.0).first() == claim.0);
                assert((seq![claim.0] + rest.0).drop_first() =~= rest.0);
            },
            None => {
                lemma_scan_errors_match_undefined(chars, pos + 1);
                if chars[pos].symbol != '\r' {
                    let rest = spec_scan(chars, pos + 1);
                    let tok = TokenModel {
                        position: chars[pos].position,
                        text: seq![chars[pos].symbol],
                        kind: TokenType::Undefined,
                    };
                    assert((seq![tok] + rest.0).first() == tok);
                    assert((seq![tok] + rest.0).drop_first() =~= rest.0);
                }
            },
        }
    }
}

} // verus!
