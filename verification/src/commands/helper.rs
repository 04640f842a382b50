//! Shared grammar-matching helpers and the recognizer dispatcher.

use vstd::prelude::*;
use crate::position::Position;
use crate::token::Token;
use crate::token::TokenModel;
use crate::token::TokenType;
use crate::statement::Statement;
use crate::statement::StatementModel;
use crate::statement::statements_model;
use crate::statement::lemma_statements_model;
use crate::error::ErrorEntry;
use crate::error::ErrorKind;
use crate::error::ErrorModel;
use crate::error::spec_new_entry;
use crate::text::str_eq;
use crate::commands::command::Command;
use crate::commands::command::CommandModel;
use crate::commands::command::RecognizerKind;
use crate::commands::command::commands_model;
use crate::commands::package::spec_recognize_package;
use crate::commands::package::recognize_package;
use crate::commands::import::spec_recognize_import;
use crate::commands::import::recognize_import;
use crate::commands::circle::spec_recognize_circle;
use crate::commands::circle::recognize_circle;
use crate::commands::element::spec_recognize_element;
use crate::commands::element::recognize_element;
use crate::commands::element_entry::spec_recognize_element_entry;
use crate::commands::element_entry::recognize_element_entry;
use crate::commands::function::spec_recognize_function;
use crate::commands::function::recognize_function;
use vstd::string::StringExecFns;

verus! {

/// Whether a statement's first token is the given word.
pub open spec fn spec_is_first_token_specific_word(tokens: Seq<TokenModel>, word: Seq<char>) -> bool {
    tokens.len() > 0 && tokens[0].text == word && tokens[0].kind == TokenType::Word
}

/// Tests whether the first token is the given word.
pub fn is_first_token_specific_word(tokens: &Vec<Token>, word: &str) -> (r: bool)
    ensures
        r == spec_is_first_token_specific_word(tokens.deep_view(), word@),
{
    if tokens.len() == 0 {
        false
    } else {
        str_eq(tokens[0].value.as_str(), word) && tokens[0].token_type == TokenType::Word
    }
}

/// The first index at or after `i` holding the given word with the given
/// kind.
pub open spec fn spec_find_token_from(
    tokens: Seq<TokenModel>,
    word: Seq<char>,
    kind: TokenType,
    i: int,
) -> Option<int>
    decreases tokens.len() - i,
{
    if !(0 <= i < tokens.len()) {
        None
    } else if tokens[i].text == word && tokens[i].kind == kind {
        Some(i)
    } else {
        spec_find_token_from(tokens, word, kind, i + 1)
    }
}

/// The first index holding the given word with the given kind.
pub open spec fn spec_find_token(tokens: Seq<TokenModel>, word: Seq<char>, kind: TokenType) -> Option<int> {
    spec_find_token_from(tokens, word, kind, 0)
}

/// What a token search returns points inside the list at that very token.
pub proof fn lemma_find_token(tokens: Seq<TokenModel>, word: Seq<char>, kind: TokenType, i: int)
    ensures
        spec_find_token_from(tokens, word, kind, i) matches Some(idx) ==> i <= idx < tokens.len()
            && tokens[idx].text == word && tokens[idx].kind == kind,
    decreases tokens.len() - i,
{
    if 0 <= i < tokens.len() {
        lemma_find_token(tokens, word, kind, i + 1);
    }
}

/// Finds the first token holding the given word with the given kind.
pub fn find_token(tokens: &Vec<Token>, word: &str, token_type: TokenType) -> (r: Option<usize>)
    ensures
        match r {
            Some(u) => spec_find_token(tokens.deep_view(), word@, token_type) == Some(u as int),
            None => spec_find_token(tokens.deep_view(), word@, token_type) is None,
        },
{
    let ghost all = tokens.deep_view();
    let mut i: usize = 0;
    while i < tokens.len()
        invariant
            i <= tokens.len(),
            all == tokens.deep_view(),
            spec_find_token(all, word@, token_type) == spec_find_token_from(
                all,
                word@,
                token_type,
                i as int,
            ),
        decreases tokens.len() - i,
    {
        if str_eq(tokens[i].value.as_str(), word) && variant_eq(
            &tokens[i].token_type,
            &token_type,
        ) {
            return Some(i);
        }
        i = i + 1;
    }
    None
}

/// Tests two token kinds for equality.
pub fn variant_eq(a: &TokenType, b: &TokenType) -> (r: bool)
    ensures
        r == (a == b),
{
    *a == *b
}

/// The comma-separated names in `tokens[i..end)`: at even offsets a word is
/// taken, and a number too when numbers are allowed; everything malformed is
/// skipped rather than failing.
pub open spec fn spec_get_args_rec(
    tokens: Seq<TokenModel>,
    i: int,
    end: int,
    allow_nums: bool,
    even: bool,
) -> Seq<Seq<char>>
    decreases end - i,
{
    if !(0 <= i < end && i < tokens.len()) {
        Seq::empty()
    } else if even && (tokens[i].kind == TokenType::Word || (tokens[i].kind == TokenType::Number
        && allow_nums)) {
        seq![tokens[i].text] + spec_get_args_rec(tokens, i + 1, end, allow_nums, !even)
    } else {
        spec_get_args_rec(tokens, i + 1, end, allow_nums, !even)
    }
}

/// The comma-separated names in `tokens[start..end)`.
pub open spec fn spec_get_args(tokens: Seq<TokenModel>, start: int, end: int, allow_nums: bool) -> Seq<
    Seq<char>,
> {
    spec_get_args_rec(tokens, start, end, allow_nums, true)
}

/// Extracts a comma-separated name list, alternating an expected name and an
/// expected separator and skipping malformed positions.
pub fn get_args(tokens: &Vec<Token>, start: usize, end: usize, allow_nums: bool) -> (r: Vec<String>)
    requires
        end <= tokens@.len(),
    ensures
        r.deep_view() == spec_get_args(tokens.deep_view(), start as int, end as int, allow_nums),
{
    let ghost all = tokens.deep_view();
    let mut args: Vec<String> = Vec::new();
    let mut i: usize = start;
    let mut even: bool = true;
    proof {
        assert(args.deep_view() + spec_get_args_rec(all, start as int, end as int, allow_nums, true)
            =~= spec_get_args_rec(all, start as int, end as int, allow_nums, true));
    }
    while i < end
        invariant
            start <= i,
            end <= all.len(),
            all == tokens.deep_view(),
            spec_get_args(all, start as int, end as int, allow_nums) =~= args.deep_view()
                + spec_get_args_rec(all, i as int, end as int, allow_nums, even),
        decreases end - i,
    {
        let ghost args0 = args.deep_view();
        let token = &tokens[i];
        if even && (token.token_type == TokenType::Word || (token.token_type == TokenType::Number
            && allow_nums)) {
            args.push(token.value.clone());
            proof {
                assert(args.deep_view() =~= args0.push(all[i as int].text));
            }
        }
        even = !even;
        i = i + 1;
    }
    args
}

/// The split of `tokens[i..end)` into comma-separated expression spans,
/// begun with the open span `curr` at parenthesis depth `level`: commas
/// inside parentheses do not split, and a non-empty final span is kept.
pub open spec fn spec_expr_tokens_rec(
    tokens: Seq<TokenModel>,
    i: int,
    end: int,
    level: int,
    curr: Seq<TokenModel>,
) -> Seq<Seq<TokenModel>>
    decreases end - i,
{
    if !(0 <= i < end && i < tokens.len()) {
        if curr.len() > 0 {
            seq![curr]
        } else {
            Seq::empty()
        }
    } else {
        let t = tokens[i];
        if t.kind == TokenType::Symbol && t.text == ","@ && level == 0 {
            seq![curr] + spec_expr_tokens_rec(tokens, i + 1, end, level, Seq::empty())
        } else {
            let level2: int = if t.kind == TokenType::Symbol && t.text == "("@ {
                level + 1
            } else if t.kind == TokenType::Symbol && t.text == ")"@ {
                level - 1
            } else {
                level
            };
            spec_expr_tokens_rec(tokens, i + 1, end, level2, curr.push(t))
        }
    }
}

/// The comma-separated expression spans of `tokens[start..end)`.
pub open spec fn spec_get_expressions_tokens(tokens: Seq<TokenModel>, start: int, end: int) -> Seq<
    Seq<TokenModel>,
> {
    spec_expr_tokens_rec(tokens, start, end, 0, Seq::empty())
}

/// Splits a token range into comma-separated expression spans, honoring
/// nested parentheses.
pub fn get_expressions_tokens(tokens: &Vec<Token>, start: usize, end: usize) -> (r: Vec<Vec<Token>>)
    requires
        end <= tokens@.len(),
    ensures
        r.deep_view() == spec_get_expressions_tokens(tokens.deep_view(), start as int, end as int),
{
    let ghost all = tokens.deep_view();
    let mut expressions: Vec<Vec<Token>> = Vec::new();
    let mut current_exp: Vec<Token> = Vec::new();
    let mut level: i128 = 0;
    let mut i: usize = start;
    proof {
        assert(current_exp.deep_view() =~= Seq::<TokenModel>::empty());
        assert(expressions.deep_view() + spec_expr_tokens_rec(
            all,
            start as int,
            end as int,
            0,
            Seq::empty(),
        ) =~= spec_expr_tokens_rec(all, start as int, end as int, 0, Seq::empty()));
    }
    while i < end
        invariant
            start <= i,
            end <= all.len(),
            all == tokens.deep_view(),
            -(i as int) <= level <= i as int,
            spec_get_expressions_tokens(all, start as int, end as int) =~= expressions.deep_view()
                + spec_expr_tokens_rec(
                all,
                i as int,
                end as int,
                level as int,
                current_exp.deep_view(),
            ),
        decreases end - i,
    {
        let ghost exps0 = expressions.deep_view();
        let ghost curr0 = current_exp.deep_view();
        let token = &tokens[i];
        let is_comma = token.token_type == TokenType::Symbol && str_eq(token.value.as_str(), ",");
        if is_comma && level == 0 {
            let finished = current_exp;
            current_exp = Vec::new();
            expressions.push(finished);
            proof {
                assert(current_exp.deep_view() =~= Seq::<TokenModel>::empty());
                assert(expressions.deep_view() =~= exps0.push(curr0));
                assert(exps0 + (seq![curr0] + spec_expr_tokens_rec(
                    all,
                    i + 1,
                    end as int,
                    level as int,
                    Seq::empty(),
                )) =~= expressions.deep_view() + spec_expr_tokens_rec(
                    all,
                    i + 1,
                    end as int,
                    level as int,
                    Seq::empty(),
                ));
            }
        } else {
            if token.token_type == TokenType::Symbol && str_eq(token.value.as_str(), "(") {
                level = level + 1;
            } else if token.token_type == TokenType::Symbol && str_eq(token.value.as_str(), ")") {
                level = level - 1;
            }
            current_exp.push(token.clone());
            proof {
                assert(current_exp.deep_view() =~= curr0.push(all[i as int]));
            }
        }
        i = i + 1;
    }
    if current_exp.len() > 0 {
        let ghost exps0 = expressions.deep_view();
        let ghost curr0 = current_exp.deep_view();
        expressions.push(current_exp);
        proof {
            assert(expressions.deep_view() =~= exps0.push(curr0));
            assert(exps0 + seq![curr0] =~= expressions.deep_view());
        }
    } else {
        proof {
            assert(expressions.deep_view() + Seq::<Seq<TokenModel>>::empty()
                =~= expressions.deep_view());
        }
    }
    expressions
}

/// The concatenated texts of a statement's tokens, reconstructing its source
/// for a diagnostic.
pub open spec fn spec_tokens_text_from(tokens: Seq<TokenModel>, i: int) -> Seq<char>
    decreases tokens.len() - i,
{
    if !(0 <= i < tokens.len()) {
        Seq::empty()
    } else {
        tokens[i].text + spec_tokens_text_from(tokens, i + 1)
    }
}

/// Builds the concatenated texts of a statement's tokens.
fn tokens_text(tokens: &Vec<Token>) -> (r: String)
    ensures
        r@ == spec_tokens_text_from(tokens.deep_view(), 0),
{
    let ghost all = tokens.deep_view();
    let mut s = String::new();
    let mut i: usize = 0;
    proof {
        assert(s@ + spec_tokens_text_from(all, 0) =~= spec_tokens_text_from(all, 0));
    }
    while i < tokens.len()
        invariant
            i <= tokens.len(),
            all == tokens.deep_view(),
            spec_tokens_text_from(all, 0) =~= s@ + spec_tokens_text_from(all, i as int),
        decreases tokens.len() - i,
    {
        let ghost s0 = s@;
        s.append(tokens[i].value.as_str());
        i = i + 1;
        proof {
            assert(s0 + (all[i - 1].text + spec_tokens_text_from(all, i as int)) =~= s@
                + spec_tokens_text_from(all, i as int));
        }
    }
    proof {
        assert(s@ + Seq::<char>::empty() =~= s@);
    }
    s
}

/// What one named recognizer produces for a statement.
pub open spec fn spec_apply_recognizer(kind: RecognizerKind, stmt: StatementModel) -> (
    CommandModel,
    Seq<ErrorModel>,
)
    decreases stmt, 1nat, 0int,
{
    match kind {
        RecognizerKind::Circle => spec_recognize_circle(stmt),
        RecognizerKind::Element => spec_recognize_element(stmt),
        RecognizerKind::ElementEntry => spec_recognize_element_entry(stmt),
        RecognizerKind::Import => spec_recognize_import(stmt),
        RecognizerKind::Package => spec_recognize_package(stmt),
        RecognizerKind::Function => spec_recognize_function(stmt),
    }
}

/// The first claim for a statement among the recognizers `ks[j..]`, in list
/// order; `Unclaimed` with no diagnostics when none claims.
pub open spec fn spec_try_kinds(stmt: StatementModel, ks: Seq<RecognizerKind>, j: int) -> (
    CommandModel,
    Seq<ErrorModel>,
)
    decreases stmt, 2nat, ks.len() - j,
{
    if !(0 <= j < ks.len()) {
        (CommandModel::Unclaimed, Seq::empty())
    } else {
        let a = spec_apply_recognizer(ks[j], stmt);
        if a.0 is Unclaimed {
            spec_try_kinds(stmt, ks, j + 1)
        } else {
            a
        }
    }
}

/// The position a statement's diagnostics point at: its first token's
/// position, or the origin when it has none.
pub open spec fn spec_statement_position(stmt: StatementModel) -> Position {
    if stmt.tokens.len() > 0 {
        stmt.tokens[0].position
    } else {
        Position { line: 0, line_position: 0 }
    }
}

/// The commands of the statements `[j, ...)`: for each statement the first
/// claim in recognizer order; a statement nobody claims yields one
/// `UndefinedStatement` diagnostic carrying its reconstructed source text.
pub open spec fn spec_get_commands_rec(
    stmts: Seq<StatementModel>,
    ks: Seq<RecognizerKind>,
    j: int,
) -> (Seq<CommandModel>, Seq<ErrorModel>)
    decreases stmts, 3nat, stmts.len() - j,
{
    if !(0 <= j < stmts.len()) {
        (Seq::empty(), Seq::empty())
    } else {
        let t = spec_try_kinds(stmts[j], ks, 0);
        let rest = spec_get_commands_rec(stmts, ks, j + 1);
        if t.0 is Unclaimed {
            let err = spec_new_entry(
                ErrorKind::UndefinedStatement,
                spec_statement_position(stmts[j]),
                seq![spec_tokens_text_from(stmts[j].tokens, 0)],
            );
            (rest.0, t.1 + seq![err] + rest.1)
        } else {
            (seq![t.0] + rest.0, t.1 + rest.1)
        }
    }
}

/// The commands and diagnostics of a statement list under an ordered
/// recognizer list.
pub open spec fn spec_get_commands(stmts: Seq<StatementModel>, ks: Seq<RecognizerKind>) -> (
    Seq<CommandModel>,
    Seq<ErrorModel>,
)
    decreases stmts, 4nat, 0int,
{
    spec_get_commands_rec(stmts, ks, 0)
}

/// Applies one named recognizer to a statement.
fn apply_recognizer(kind: &RecognizerKind, statement: &Statement, errs_acc: &mut Vec<ErrorEntry>) -> (c:
    Command)
    ensures
        c.model() == spec_apply_recognizer(*kind, statement.model()).0,
        final(errs_acc).deep_view() == old(errs_acc).deep_view() + spec_apply_recognizer(
            *kind,
            statement.model(),
        ).1,
    decreases *statement, 1nat, 0int,
{
    match kind {
        RecognizerKind::Circle => recognize_circle(statement, errs_acc),
        RecognizerKind::Element => recognize_element(statement, errs_acc),
        RecognizerKind::ElementEntry => recognize_element_entry(statement, errs_acc),
        RecognizerKind::Import => recognize_import(statement, errs_acc),
        RecognizerKind::Package => recognize_package(statement, errs_acc),
        RecognizerKind::Function => recognize_function(statement, errs_acc),
    }
}

/// Tries the recognizers `ks[j..]` on a statement, in order, taking the
/// first claim.
fn try_recognizers(
    statement: &Statement,
    ks: &Vec<RecognizerKind>,
    j: usize,
    errs_acc: &mut Vec<ErrorEntry>,
) -> (c: Command)
    ensures
        c.model() == spec_try_kinds(statement.model(), ks@, j as int).0,
        final(errs_acc).deep_view() == old(errs_acc).deep_view() + spec_try_kinds(
            statement.model(),
            ks@,
            j as int,
        ).1,
    decreases *statement, 2nat, ks@.len() - j,
{
    if j >= ks.len() {
        proof {
            assert(errs_acc.deep_view() + Seq::<ErrorModel>::empty() =~= errs_acc.deep_view());
        }
        return Command::Unclaimed;
    }
    let c = apply_recognizer(&ks[j], statement, errs_acc);
    match c {
        Command::Unclaimed => try_recognizers(statement, ks, j + 1, errs_acc),
        _ => c,
    }
}

/// Runs the recognizers over the statements `[j, ...)`, appending the
/// commands claimed and the diagnostics raised.
fn run_recognizers(
    statements: &Vec<Statement>,
    ks: &Vec<RecognizerKind>,
    j: usize,
    cmds: &mut Vec<Command>,
    errs_acc: &mut Vec<ErrorEntry>,
)
    ensures
        commands_model(final(cmds)@) == commands_model(old(cmds)@) + spec_get_commands_rec(
            statements_model(statements@),
            ks@,
            j as int,
        ).0,
        final(errs_acc).deep_view() == old(errs_acc).deep_view() + spec_get_commands_rec(
            statements_model(statements@),
            ks@,
            j as int,
        ).1,
    decreases *statements, 3nat, statements@.len() - j,
{
    broadcast use lemma_statements_model;

    let ghost stmts = statements_model(statements@);
    if j >= statements.len() {
        proof {
            assert(commands_model(cmds@) + Seq::<CommandModel>::empty() =~= commands_model(cmds@));
            assert(errs_acc.deep_view() + Seq::<ErrorModel>::empty() =~= errs_acc.deep_view());
        }
        return ;
    }
    let statement = &statements[j];
    let ghost cmds0 = commands_model(cmds@);
    let ghost errs0 = errs_acc.deep_view();
    let c = try_recognizers(statement, ks, 0, errs_acc);
    let ghost errs1 = errs_acc.deep_view();
    let mut claimed = true;
    match &c {
        Command::Unclaimed => {
            claimed = false;
        },
        _ => {},
    }
    if claimed {
        cmds.push(c);
        proof {
            assert(commands_model(cmds@) =~= cmds0.push(spec_try_kinds(stmts[j as int], ks@, 0).0));
        }
    } else {
        let position = if statement.tokens.len() > 0 {
            statement.tokens[0].position
        } else {
            Position { line: 0, line_position: 0 }
        };
        let stat_text = tokens_text(&statement.tokens);
        let mut args: Vec<String> = Vec::new();
        args.push(stat_text);
        proof {
            assert(args.deep_view() =~= seq![spec_tokens_text_from(stmts[j as int].tokens, 0)]);
        }
        errs_acc.push(ErrorEntry::new(ErrorKind::UndefinedStatement, &position, args));
        proof {
            let t = spec_try_kinds(stmts[j as int], ks@, 0);
            let err = spec_new_entry(
                ErrorKind::UndefinedStatement,
                spec_statement_position(stmts[j as int]),
                seq![spec_tokens_text_from(stmts[j as int].tokens, 0)],
            );
            assert(errs_acc.deep_view() =~= errs1.push(err));
            assert(errs_acc.deep_view() =~= errs0 + (t.1 + seq![err]));
        }
    }
    let ghost errs2 = errs_acc.deep_view();
    run_recognizers(statements, ks, j + 1, cmds, errs_acc);
    proof {
        let t = spec_try_kinds(stmts[j as int], ks@, 0);
        let rest = spec_get_commands_rec(stmts, ks@, j + 1);
        assert(final(errs_acc).deep_view() =~= errs2 + rest.1);
        if t.0 is Unclaimed {
            let err = spec_new_entry(
                ErrorKind::UndefinedStatement,
                spec_statement_position(stmts[j as int]),
                seq![spec_tokens_text_from(stmts[j as int].tokens, 0)],
            );
            assert(spec_get_commands_rec(stmts, ks@, j as int).1 == t.1 + seq![err] + rest.1);
            assert(final(errs_acc).deep_view() =~= errs0 + (t.1 + seq![err] + rest.1));
        } else {
            assert(spec_get_commands_rec(stmts, ks@, j as int).1 == t.1 + rest.1);
            assert(final(errs_acc).deep_view() =~= errs0 + (t.1 + rest.1));
        }
        assert(commands_model(final(cmds)@) =~= commands_model(old(cmds)@) + spec_get_commands_rec(
            stmts,
            ks@,
            j as int,
        ).0);
        assert(final(errs_acc).deep_view() =~= old(errs_acc).deep_view() + spec_get_commands_rec(
            stmts,
            ks@,
            j as int,
        ).1);
    }
}

/// Turns statements into commands: each statement goes to the first
/// recognizer that claims it, in list order; a statement nobody claims
/// raises one `UndefinedStatement` diagnostic carrying its reconstructed
/// source text.
pub fn get_commands(
    statements: &Vec<Statement>,
    recognizers: &Vec<RecognizerKind>,
    errs_acc: &mut Vec<ErrorEntry>,
) -> (cmds: Vec<Command>)
    ensures
        commands_model(cmds@) == spec_get_commands(statements_model(statements@), recognizers@).0,
        final(errs_acc).deep_view() == old(errs_acc).deep_view() + spec_get_commands(
            statements_model(statements@),
            recognizers@,
        ).1,
    decreases *statements, 4nat, 0int,
{
    let mut cmds: Vec<Command> = Vec::new();
    proof {
        assert(commands_model(cmds@) =~= Seq::<CommandModel>::empty());
    }
    run_recognizers(statements, recognizers, 0, &mut cmds, errs_acc);
    proof {
        assert(Seq::<CommandModel>::empty() + spec_get_commands(
            statements_model(statements@),
            recognizers@,
        ).0 =~= spec_get_commands(statements_model(statements@), recognizers@).0);
    }
    cmds
}

} // verus!
