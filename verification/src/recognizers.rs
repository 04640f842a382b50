//! Token recognizers. Each recognizer, asked at a cursor position, either
//! declines or claims a contiguous run of characters and returns the token it
//! read together with the next cursor position.

use vstd::prelude::*;
use crate::token::CodeChar;
use crate::token::Token;
use crate::token::TokenModel;
use crate::token::TokenType;
use crate::text::char_alphanumeric;
use crate::text::char_alphabetic;
use crate::text::char_numeric;
use crate::text::push_char;

verus! {

/// The text covered by the characters `[a, b)`.
pub open spec fn token_text(chars: Seq<CodeChar>, a: int, b: int) -> Seq<char> {
    chars.subrange(a, b).map_values(|cc: CodeChar| cc.symbol)
}

/// Builds the string of the characters `[a, b)`.
pub fn span_text(chars: &Vec<CodeChar>, a: usize, b: usize) -> (s: String)
    requires
        a <= b <= chars@.len(),
    ensures
        s@ == token_text(chars@, a as int, b as int),
{
    let mut s = String::new();
    let mut i: usize = a;
    proof {
        assert(s@ =~= token_text(chars@, a as int, a as int));
    }
    while i < b
        invariant
            a <= i <= b <= chars@.len(),
            s@ =~= token_text(chars@, a as int, i as int),
        decreases b - i,
    {
        push_char(&mut s, chars[i].symbol);
        i = i + 1;
        proof {
            assert(s@ =~= token_text(chars@, a as int, i as int));
        }
    }
    s
}

/// Characters a word may consume: alphanumerics, `_` and `.`.
pub open spec fn word_allowed(c: char) -> bool {
    char_alphanumeric(c) || c == '_' || c == '.'
}

/// Characters a word may start with: alphabetics and `_`.
pub open spec fn word_initial(c: char) -> bool {
    char_alphabetic(c) || c == '_'
}

/// The length of the run of word characters from `pos` that stay on `line`.
pub open spec fn word_run_len(chars: Seq<CodeChar>, pos: int, line: usize) -> nat
    decreases chars.len() - pos,
{
    if 0 <= pos < chars.len() && chars[pos].position.line == line && word_allowed(
        chars[pos].symbol,
    ) {
        (1 + word_run_len(chars, pos + 1, line)) as nat
    } else {
        0
    }
}

/// The length of the run of characters from `pos` that stay on `line`.
pub open spec fn line_run_len(chars: Seq<CodeChar>, pos: int, line: usize) -> nat
    decreases chars.len() - pos,
{
    if 0 <= pos < chars.len() && chars[pos].position.line == line {
        (1 + line_run_len(chars, pos + 1, line)) as nat
    } else {
        0
    }
}

/// Neither run ever reaches past the end of the characters.
pub proof fn lemma_run_len_bound(chars: Seq<CodeChar>, pos: int, line: usize)
    requires
        0 <= pos <= chars.len(),
    ensures
        pos + word_run_len(chars, pos, line) <= chars.len(),
        pos + line_run_len(chars, pos, line) <= chars.len(),
    decreases chars.len() - pos,
{
    if pos < chars.len() {
        lemma_run_len_bound(chars, pos + 1, line);
    }
}

/// A span whose characters all qualify as word characters on `line`, ended
/// by one that does not, is exactly the word run.
pub proof fn lemma_word_run_exact(chars: Seq<CodeChar>, a: int, b: int, line: usize)
    requires
        0 <= a <= b <= chars.len(),
        forall|j: int|
            a <= j < b ==> (#[trigger] chars[j]).position.line == line && word_allowed(
                chars[j].symbol,
            ),
        b == chars.len() || !(chars[b].position.line == line && word_allowed(chars[b].symbol)),
    ensures
        word_run_len(chars, a, line) == b - a,
    decreases b - a,
{
    if a < b {
        lemma_word_run_exact(chars, a + 1, b, line);
    }
}

/// A span that stays on `line`, ended by the end of the line or of the
/// characters, is exactly the line run.
pub proof fn lemma_line_run_exact(chars: Seq<CodeChar>, a: int, b: int, line: usize)
    requires
        0 <= a <= b <= chars.len(),
        forall|j: int| a <= j < b ==> (#[trigger] chars[j]).position.line == line,
        b == chars.len() || chars[b].position.line != line,
    ensures
        line_run_len(chars, a, line) == b - a,
    decreases b - a,
{
    if a < b {
        lemma_line_run_exact(chars, a + 1, b, line);
    }
}

/// The index of the first `*/` pair at or after `p`, if any.
pub open spec fn block_end(chars: Seq<CodeChar>, p: int) -> Option<int>
    decreases chars.len() - p,
{
    if p < 0 || p + 1 >= chars.len() {
        None
    } else if chars[p].symbol == '*' && chars[p + 1].symbol == '/' {
        Some(p)
    } else {
        block_end(chars, p + 1)
    }
}

/// What `block_end` returns lies in range and marks a `*/` pair.
pub proof fn lemma_block_end(chars: Seq<CodeChar>, p: int)
    ensures
        block_end(chars, p) matches Some(q) ==> p <= q && q + 1 < chars.len() && chars[q].symbol
            == '*' && chars[q + 1].symbol == '/',
    decreases chars.len() - p,
{
    if !(p < 0 || p + 1 >= chars.len()) {
        lemma_block_end(chars, p + 1);
    }
}

/// The fixed single-character symbol alphabet.
pub open spec fn symbol_char(c: char) -> bool {
    ||| c == '{'
    ||| c == '}'
    ||| c == '['
    ||| c == ']'
    ||| c == '('
    ||| c == ')'
    ||| c == ';'
    ||| c == '='
    ||| c == ','
    ||| c == '+'
    ||| c == '-'
    ||| c == '*'
    ||| c == '/'
    ||| c == '<'
    ||| c == '>'
    ||| c == '!'
}

/// The fixed two-character combined operators `>=`, `<=`, `==`, `!=`, `=>`.
pub open spec fn combined_op(a: char, b: char) -> bool {
    ||| (a == '>' && b == '=')
    ||| (a == '<' && b == '=')
    ||| (a == '=' && b == '=')
    ||| (a == '!' && b == '=')
    ||| (a == '=' && b == '>')
}

/// Tests membership in the symbol alphabet.
pub fn is_symbol_char(c: char) -> (r: bool)
    ensures
        r == symbol_char(c),
{
    c == '{' || c == '}' || c == '[' || c == ']' || c == '(' || c == ')' || c == ';' || c == '='
        || c == ',' || c == '+' || c == '-' || c == '*' || c == '/' || c == '<' || c == '>' || c
        == '!'
}

/// Tests whether two characters form a combined operator.
fn is_combined_op(a: char, b: char) -> (r: bool)
    ensures
        r == combined_op(a, b),
{
    (a == '>' && b == '=') || (a == '<' && b == '=') || (a == '=' && b == '=') || (a == '!' && b
        == '=') || (a == '=' && b == '>')
}

/// What the line-comment recognizer claims at `pos`: the rest of the line
/// when `//` starts there.
pub open spec fn line_comment_claim(chars: Seq<CodeChar>, pos: int) -> Option<(TokenModel, int)> {
    if 0 <= pos && pos + 1 < chars.len() && chars[pos].symbol == '/' && chars[pos + 1].symbol
        == '/' {
        let end = pos + line_run_len(chars, pos, chars[pos].position.line);
        Some(
            (
                TokenModel {
                    position: chars[pos].position,
                    text: token_text(chars, pos, end),
                    kind: TokenType::Comment,
                },
                end,
            ),
        )
    } else {
        None
    }
}

/// What the block-comment recognizer claims at `pos`: everything up to and
/// including the first `*/`, or the whole remainder, when `/*` starts there.
pub open spec fn block_comment_claim(chars: Seq<CodeChar>, pos: int) -> Option<(TokenModel, int)> {
    if 0 <= pos && pos + 1 < chars.len() && chars[pos].symbol == '/' && chars[pos + 1].symbol
        == '*' {
        let end = match block_end(chars, pos) {
            Some(q) => q + 2,
            None => chars.len() as int,
        };
        Some(
            (
                TokenModel {
                    position: chars[pos].position,
                    text: token_text(chars, pos, end),
                    kind: TokenType::Comment,
                },
                end,
            ),
        )
    } else {
        None
    }
}

/// What the symbol recognizer claims at `pos`: a combined operator when one
/// starts there, else a single symbol character.
pub open spec fn symbol_claim(chars: Seq<CodeChar>, pos: int) -> Option<(TokenModel, int)> {
    if 0 <= pos < chars.len() && symbol_char(chars[pos].symbol) {
        let end = if pos + 1 < chars.len() && combined_op(chars[pos].symbol, chars[pos + 1].symbol) {
            pos + 2
        } else {
            pos + 1
        };
        Some(
            (
                TokenModel {
                    position: chars[pos].position,
                    text: token_text(chars, pos, end),
                    kind: TokenType::Symbol,
                },
                end,
            ),
        )
    } else {
        None
    }
}

/// What the word recognizer claims at `pos`: the run of word characters on
/// the line, backing off a trailing `.`.
pub open spec fn word_claim(chars: Seq<CodeChar>, pos: int) -> Option<(TokenModel, int)> {
    if 0 <= pos < chars.len() && word_initial(chars[pos].symbol) {
        let line = chars[pos].position.line;
        let run = 1 + word_run_len(chars, pos + 1, line);
        let end = if run > 1 && chars[pos + run - 1].symbol == '.' {
            pos + run - 1
        } else {
            pos + run
        };
        Some(
            (
                TokenModel {
                    position: chars[pos].position,
                    text: token_text(chars, pos, end),
                    kind: TokenType::Word,
                },
                end,
            ),
        )
    } else {
        None
    }
}

/// What the number recognizer claims at `pos`: the run of word characters on
/// the line, absorbing a signed exponent suffix only when the run ends in
/// `E` or `e` and a sign follows directly.
pub open spec fn number_claim(chars: Seq<CodeChar>, pos: int) -> Option<(TokenModel, int)> {
    if 0 <= pos < chars.len() && char_numeric(chars[pos].symbol) {
        let line = chars[pos].position.line;
        let run = 1 + word_run_len(chars, pos + 1, line);
        let next = pos + run;
        let end = if next < chars.len() && (chars[next].symbol == '+' || chars[next].symbol == '-')
            && (chars[next - 1].symbol == 'E' || chars[next - 1].symbol == 'e') {
            next + 1 + word_run_len(chars, next + 1, line)
        } else {
            next
        };
        Some(
            (
                TokenModel {
                    position: chars[pos].position,
                    text: token_text(chars, pos, end),
                    kind: TokenType::Number,
                },
                end,
            ),
        )
    } else {
        None
    }
}

/// The first claim at `pos`, trying the recognizers in their fixed order:
/// line comment, block comment, symbol, word, number.
pub open spec fn spec_recognize_at(chars: Seq<CodeChar>, pos: int) -> Option<(TokenModel, int)> {
    match line_comment_claim(chars, pos) {
        Some(c) => Some(c),
        None => match block_comment_claim(chars, pos) {
            Some(c) => Some(c),
            None => match symbol_claim(chars, pos) {
                Some(c) => Some(c),
                None => match word_claim(chars, pos) {
                    Some(c) => Some(c),
                    None => match number_claim(chars, pos) {
                        Some(c) => Some(c),
                        None => None,
                    },
                },
            },
        },
    }
}

/// Every claim moves the cursor forward and stays inside the characters, and
/// the claimed token's text is exactly the span it covers.
pub proof fn lemma_claim_bounds(chars: Seq<CodeChar>, pos: int)
    requires
        0 <= pos < chars.len(),
    ensures
        spec_recognize_at(chars, pos) matches Some(claim) ==> pos < claim.1 <= chars.len()
            && claim.0.text == token_text(chars, pos, claim.1) && claim.0.position
            == chars[pos].position && claim.0.kind != TokenType::Undefined,
{
    let line = chars[pos].position.line;
    lemma_run_len_bound(chars, pos, line);
    lemma_run_len_bound(chars, pos + 1, line);
    lemma_block_end(chars, pos);
    let run = 1 + word_run_len(chars, pos + 1, line);
    if pos + run < chars.len() {
        lemma_run_len_bound(chars, pos + run + 1, line);
    }
}

/// A token recognizer: asked at a cursor position, it either declines or
/// claims a token. Its claim is pinned down by its `spec_claim` function.
pub trait TokenRecognizer {
    /// What this recognizer claims at `pos`, if anything: the token and the
    /// next cursor position.
    spec fn spec_claim(&self, chars: Seq<CodeChar>, pos: int) -> Option<(TokenModel, int)>;

    /// Tries to read one token at `position`.
    fn recognize_token(&self, chars: &Vec<CodeChar>, position: usize) -> (r: (Option<Token>, usize))
        requires
            position < chars@.len(),
        ensures
            match self.spec_claim(chars@, position as int) {
                Some(claim) => r.0 matches Some(t) && t@ == claim.0 && r.1 == claim.1,
                None => r.0 is None && r.1 == 0,
            },
    ;
}

/// Recognizes `//` comments, which run to the end of the line.
pub struct LineCommentTokenRecognizer {}

/// Recognizes `/* ... */` comments, which may span lines and run to the end
/// of the input when unterminated.
pub struct BlockCommentTokenRecognizer {}

/// Recognizes the fixed symbol alphabet, two-character combined operators
/// first.
pub struct SymbolTokenRecognizer {}

/// Recognizes words: an alphabetic or `_` start, then alphanumerics, `_` and
/// `.`, not absorbing a trailing `.`.
pub struct WordTokenRecognizer {}

/// Recognizes numbers: a numeric start, then alphanumerics, `_` and `.`,
/// plus a signed exponent suffix directly after `E`/`e`.
pub struct NumberTokenRecognizer {}

/// Tests whether a character may continue a word or number.
fn is_word_allowed_char(c: char) -> (r: bool)
    ensures
        r == word_allowed(c),
{
    c.is_alphanumeric() || c == '_' || c == '.'
}

/// Scans the word-character run on `line` starting at `start`.
fn scan_word_run(chars: &Vec<CodeChar>, start: usize, line: usize) -> (end: usize)
    requires
        start <= chars@.len(),
    ensures
        end == start + word_run_len(chars@, start as int, line),
{
    let mut end = start;
    while end < chars.len() && chars[end].position.line == line && is_word_allowed_char(
        chars[end].symbol,
    )
        invariant
            start <= end <= chars@.len(),
            forall|j: int|
                start <= j < end ==> (#[trigger] chars@[j]).position.line == line && word_allowed(
                    chars@[j].symbol,
                ),
        decreases chars@.len() - end,
    {
        end = end + 1;
    }
    proof {
        lemma_word_run_exact(chars@, start as int, end as int, line);
    }
    end
}

/// Scans to the end of `line` starting at `start`.
fn scan_line_run(chars: &Vec<CodeChar>, start: usize, line: usize) -> (end: usize)
    requires
        start <= chars@.len(),
    ensures
        end == start + line_run_len(chars@, start as int, line),
{
    let mut end = start;
    while end < chars.len() && chars[end].position.line == line
        invariant
            start <= end <= chars@.len(),
            forall|j: int| start <= j < end ==> (#[trigger] chars@[j]).position.line == line,
        decreases chars@.len() - end,
    {
        end = end + 1;
    }
    proof {
        lemma_line_run_exact(chars@, start as int, end as int, line);
    }
    end
}

impl TokenRecognizer for LineCommentTokenRecognizer {
    open spec fn spec_claim(&self, chars: Seq<CodeChar>, pos: int) -> Option<(TokenModel, int)> {
        line_comment_claim(chars, pos)
    }

    fn recognize_token(&self, chars: &Vec<CodeChar>, position: usize) -> (r: (Option<Token>, usize)) {
        let n = chars.len();
        if position + 1 >= n {
            return (None, 0);
        }
        let curr = chars[position].symbol;
        let next = chars[position + 1].symbol;
        if curr == '/' && next == '/' {
            let line = chars[position].position.line;
            proof {
                lemma_run_len_bound(chars@, position as int, line);
            }
            let end = scan_line_run(chars, position, line);
            let token = Token {
                position: chars[position].position,
                value: span_text(chars, position, end),
                token_type: TokenType::Comment,
            };
            (Some(token), end)
        } else {
            (None, 0)
        }
    }
}

impl TokenRecognizer for BlockCommentTokenRecognizer {
    open spec fn spec_claim(&self, chars: Seq<CodeChar>, pos: int) -> Option<(TokenModel, int)> {
        block_comment_claim(chars, pos)
    }

    fn recognize_token(&self, chars: &Vec<CodeChar>, position: usize) -> (r: (Option<Token>, usize)) {
        let n = chars.len();
        if position + 1 >= n {
            return (None, 0);
        }
        let curr = chars[position].symbol;
        let next = chars[position + 1].symbol;
        if curr == '/' && next == '*' {
            let mut q = position;
            let mut found = false;
            while !found && n - q > 1
                invariant
                    n == chars@.len(),
                    position <= q <= chars@.len(),
                    !found ==> block_end(chars@, position as int) == block_end(chars@, q as int),
                    found ==> block_end(chars@, position as int) == Some(q as int) && q + 1
                        < chars@.len(),
                decreases chars@.len() - q, (if found {
                    0int
                } else {
                    1int
                }),
            {
                if chars[q].symbol == '*' && chars[q + 1].symbol == '/' {
                    found = true;
                } else {
                    q = q + 1;
                }
            }
            let end = if found {
                q + 2
            } else {
                n
            };
            proof {
                lemma_block_end(chars@, position as int);
            }
            let token = Token {
                position: chars[position].position,
                value: span_text(chars, position, end),
                token_type: TokenType::Comment,
            };
            (Some(token), end)
        } else {
            (None, 0)
        }
    }
}

impl TokenRecognizer for SymbolTokenRecognizer {
    open spec fn spec_claim(&self, chars: Seq<CodeChar>, pos: int) -> Option<(TokenModel, int)> {
        symbol_claim(chars, pos)
    }

    fn recognize_token(&self, chars: &Vec<CodeChar>, position: usize) -> (r: (Option<Token>, usize)) {
        let n = chars.len();
        let curr = chars[position].symbol;
        if !is_symbol_char(curr) {
            return (None, 0);
        }
        let end = if position + 1 < n && is_combined_op(curr, chars[position + 1].symbol) {
            position + 2
        } else {
            position + 1
        };
        let token = Token {
            position: chars[position].position,
            value: span_text(chars, position, end),
            token_type: TokenType::Symbol,
        };
        (Some(token), end)
    }
}

impl WordTokenRecognizer {
    /// Whether a character may continue a word.
    pub fn is_allowed_char(&self, ch: char) -> (r: bool)
        ensures
            r == word_allowed(ch),
    {
        is_word_allowed_char(ch)
    }

    /// Whether a character may start a word.
    pub fn is_initial_char(&self, ch: char) -> (r: bool)
        ensures
            r == word_initial(ch),
    {
        ch.is_alphabetic() || ch == '_'
    }
}

impl TokenRecognizer for WordTokenRecognizer {
    open spec fn spec_claim(&self, chars: Seq<CodeChar>, pos: int) -> Option<(TokenModel, int)> {
        word_claim(chars, pos)
    }

    fn recognize_token(&self, chars: &Vec<CodeChar>, position: usize) -> (r: (Option<Token>, usize)) {
        let n = chars.len();
        let curr = chars[position].symbol;
        if !self.is_initial_char(curr) {
            return (None, 0);
        }
        let line = chars[position].position.line;
        proof {
            lemma_run_len_bound(chars@, position as int + 1, line);
        }
        let run_end = scan_word_run(chars, position + 1, line);
        let end = if run_end - position > 1 && chars[run_end - 1].symbol == '.' {
            run_end - 1
        } else {
            run_end
        };
        let token = Token {
            position: chars[position].position,
            value: span_text(chars, position, end),
            token_type: TokenType::Word,
        };
        (Some(token), end)
    }
}

impl NumberTokenRecognizer {
    /// Whether a character may continue a number.
    pub fn is_allowed_char(&self, ch: char) -> (r: bool)
        ensures
            r == word_allowed(ch),
    {
        is_word_allowed_char(ch)
    }

    /// Whether a character may start a number.
    pub fn is_initial_char(&self, ch: char) -> (r: bool)
        ensures
            r == char_numeric(ch),
    {
        ch.is_numeric()
    }
}

impl TokenRecognizer for NumberTokenRecognizer {
    open spec fn spec_claim(&self, chars: Seq<CodeChar>, pos: int) -> Option<(TokenModel, int)> {
        number_claim(chars, pos)
    }

    fn recognize_token(&self, chars: &Vec<CodeChar>, position: usize) -> (r: (Option<Token>, usize)) {
        let n = chars.len();
        let curr = chars[position].symbol;
        if !self.is_initial_char(curr) {
            return (None, 0);
        }
        let line = chars[position].position.line;
        proof {
            lemma_run_len_bound(chars@, position as int + 1, line);
        }
        let run_end = scan_word_run(chars, position + 1, line);
        let end = if run_end < n && (chars[run_end].symbol == '+' || chars[run_end].symbol == '-')
            && (chars[run_end - 1].symbol == 'E' || chars[run_end - 1].symbol == 'e') {
            proof {
                lemma_run_len_bound(chars@, run_end as int + 1, line);
            }
            scan_word_run(chars, run_end + 1, line)
        } else {
            run_end
        };
        let token = Token {
            position: chars[position].position,
            value: span_text(chars, position, end),
            token_type: TokenType::Number,
        };
        (Some(token), end)
    }
}

} // verus!
