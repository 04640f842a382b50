//! The statement divider. A flat token stream is split into groups at `;`,
//! `{` and `}`; the separators are matched into a brace map with a stack; and
//! the groups are rebuilt into a tree of statements, a group opening a brace
//! owning everything up to its matching close.

use vstd::prelude::*;
use std::collections::HashMap;
use crate::position::Position;
use crate::token::Token;
use crate::token::TokenModel;
use crate::token::TokenType;
use crate::statement::Statement;
use crate::statement::StatementModel;
use crate::statement::statements_model;
use crate::statement::lemma_statements_model;
use crate::error::ErrorEntry;
use crate::error::ErrorKind;
use crate::error::ErrorModel;
use crate::error::spec_new_entry;
use crate::text::str_eq;

verus! {

/// Whether a token is the `;` separator.
pub open spec fn spec_is_semicolon(t: TokenModel) -> bool {
    t.kind == TokenType::Symbol && t.text == ";"@
}

/// Whether a token is the `{` separator.
pub open spec fn spec_is_opened_brace(t: TokenModel) -> bool {
    t.kind == TokenType::Symbol && t.text == "{"@
}

/// Whether a token is the `}` separator.
pub open spec fn spec_is_closed_brace(t: TokenModel) -> bool {
    t.kind == TokenType::Symbol && t.text == "}"@
}

/// Whether a token separates statements.
pub open spec fn spec_is_separator(t: TokenModel) -> bool {
    spec_is_semicolon(t) || spec_is_opened_brace(t) || spec_is_closed_brace(t)
}

/// Tests for the `;` separator.
pub fn is_semicolon(token: &Token) -> (r: bool)
    ensures
        r == spec_is_semicolon(token@),
{
    token.token_type == TokenType::Symbol && str_eq(token.value.as_str(), ";")
}

/// Tests for the `{` separator.
pub fn is_opened_brace(token: &Token) -> (r: bool)
    ensures
        r == spec_is_opened_brace(token@),
{
    token.token_type == TokenType::Symbol && str_eq(token.value.as_str(), "{")
}

/// Tests for the `}` separator.
pub fn is_closed_brace(token: &Token) -> (r: bool)
    ensures
        r == spec_is_closed_brace(token@),
{
    token.token_type == TokenType::Symbol && str_eq(token.value.as_str(), "}")
}

/// Tests whether a token separates statements.
pub fn is_separator(token: &Token) -> (r: bool)
    ensures
        r == spec_is_separator(token@),
{
    is_semicolon(token) || is_opened_brace(token) || is_closed_brace(token)
}

/// The synthetic separator closing an unfinished final statement.
pub open spec fn spec_empty_token() -> TokenModel {
    TokenModel {
        position: Position { line: 0, line_position: 0 },
        text: Seq::empty(),
        kind: TokenType::Empty,
    }
}

/// The split of `tokens[i..]` into groups, begun with the open group `curr`:
/// the groups, the parallel separator list, and the diagnostics. Every
/// separator closes the current group; a stream that does not end in a
/// separator closes its last group with a synthetic `Empty` separator and an
/// `UnfinishedCommand` diagnostic at its last token.
pub open spec fn spec_divide(tokens: Seq<TokenModel>, i: int, curr: Seq<TokenModel>) -> (
    Seq<Seq<TokenModel>>,
    Seq<TokenModel>,
    Seq<ErrorModel>,
)
    decreases tokens.len() - i,
{
    if i < 0 || i >= tokens.len() {
        if curr.len() > 0 {
            (
                seq![curr],
                seq![spec_empty_token()],
                seq![spec_new_entry(ErrorKind::UnfinishedCommand, curr.last().position, Seq::empty())],
            )
        } else {
            (Seq::empty(), Seq::empty(), Seq::empty())
        }
    } else if spec_is_separator(tokens[i]) {
        let rest = spec_divide(tokens, i + 1, Seq::empty());
        (seq![curr] + rest.0, seq![tokens[i]] + rest.1, rest.2)
    } else {
        spec_divide(tokens, i + 1, curr.push(tokens[i]))
    }
}

/// The split of a whole token stream into groups and separators.
pub open spec fn spec_divide_tokens(tokens: Seq<TokenModel>) -> (
    Seq<Seq<TokenModel>>,
    Seq<TokenModel>,
    Seq<ErrorModel>,
) {
    spec_divide(tokens, 0, Seq::empty())
}

/// The split always yields exactly one separator per group.
pub proof fn lemma_divide_lens(tokens: Seq<TokenModel>, i: int, curr: Seq<TokenModel>)
    ensures
        spec_divide(tokens, i, curr).0.len() == spec_divide(tokens, i, curr).1.len(),
    decreases tokens.len() - i,
{
    if !(i < 0 || i >= tokens.len()) {
        if spec_is_separator(tokens[i]) {
            lemma_divide_lens(tokens, i + 1, Seq::empty());
        } else {
            lemma_divide_lens(tokens, i + 1, curr.push(tokens[i]));
        }
    }
}

/// Splits the token stream into groups at the separators, recording each
/// separator in a parallel list. A stream that does not end in a separator
/// gets an `UnfinishedCommand` diagnostic and a synthetic `Empty` separator.
pub fn divide_tokens(tokens: &Vec<Token>, errs_acc: &mut Vec<ErrorEntry>) -> (r: (
    Vec<Vec<Token>>,
    Vec<Token>,
))
    ensures
        r.0.deep_view() == spec_divide_tokens(tokens.deep_view()).0,
        r.1.deep_view() == spec_divide_tokens(tokens.deep_view()).1,
        final(errs_acc).deep_view() == old(errs_acc).deep_view() + spec_divide_tokens(
            tokens.deep_view(),
        ).2,
{
    let ghost all = tokens.deep_view();
    let mut groups: Vec<Vec<Token>> = Vec::new();
    let mut separators: Vec<Token> = Vec::new();
    let mut curr_group: Vec<Token> = Vec::new();
    let mut i: usize = 0;
    proof {
        assert(curr_group.deep_view() =~= Seq::<TokenModel>::empty());
        assert(groups.deep_view() + spec_divide(all, 0, Seq::empty()).0 =~= spec_divide(
            all,
            0,
            Seq::empty(),
        ).0);
        assert(separators.deep_view() + spec_divide(all, 0, Seq::empty()).1 =~= spec_divide(
            all,
            0,
            Seq::empty(),
        ).1);
    }
    while i < tokens.len()
        invariant
            i <= tokens.len(),
            all == tokens.deep_view(),
            spec_divide_tokens(all).0 =~= groups.deep_view() + spec_divide(
                all,
                i as int,
                curr_group.deep_view(),
            ).0,
            spec_divide_tokens(all).1 =~= separators.deep_view() + spec_divide(
                all,
                i as int,
                curr_group.deep_view(),
            ).1,
            old(errs_acc).deep_view() + spec_divide_tokens(all).2 =~= errs_acc.deep_view()
                + spec_divide(all, i as int, curr_group.deep_view()).2,
        decreases tokens.len() - i,
    {
        let ghost groups0 = groups.deep_view();
        let ghost seps0 = separators.deep_view();
        let ghost curr0 = curr_group.deep_view();
        let token = &tokens[i];
        if is_separator(token) {
            let finished = curr_group;
            curr_group = Vec::new();
            groups.push(finished);
            separators.push(token.clone());
            i = i + 1;
            proof {
                assert(curr_group.deep_view() =~= Seq::<TokenModel>::empty());
                assert(groups.deep_view() =~= groups0.push(curr0));
                assert(separators.deep_view() =~= seps0.push(all[i - 1]));
                assert(groups0 + spec_divide(all, i - 1, curr0).0 =~= groups.deep_view()
                    + spec_divide(all, i as int, curr_group.deep_view()).0);
                assert(seps0 + spec_divide(all, i - 1, curr0).1 =~= separators.deep_view()
                    + spec_divide(all, i as int, curr_group.deep_view()).1);
            }
        } else {
            curr_group.push(token.clone());
            i = i + 1;
            proof {
                assert(curr_group.deep_view() =~= curr0.push(all[i - 1]));
            }
        }
    }
    if curr_group.len() > 0 {
        let last_position = curr_group[curr_group.len() - 1].position;
        let no_args: Vec<String> = Vec::new();
        let ghost errs0 = errs_acc.deep_view();
        proof {
            assert(curr_group.deep_view().last().position == last_position);
            assert(no_args.deep_view() =~= Seq::<Seq<char>>::empty());
        }
        errs_acc.push(ErrorEntry::new(ErrorKind::UnfinishedCommand, &last_position, no_args));
        proof {
            assert(errs_acc.deep_view() =~= errs0.push(
                spec_new_entry(
                    ErrorKind::UnfinishedCommand,
                    curr_group.deep_view().last().position,
                    Seq::empty(),
                ),
            ));
        }
        let ghost groups0 = groups.deep_view();
        let ghost seps0 = separators.deep_view();
        let ghost curr0 = curr_group.deep_view();
        groups.push(curr_group);
        separators.push(
            Token {
                token_type: TokenType::Empty,
                value: String::new(),
                position: Position { line: 0, line_position: 0 },
            },
        );
        proof {
            assert(groups.deep_view() =~= groups0.push(curr0));
            assert(separators.deep_view() =~= seps0.push(spec_empty_token()));
            assert(groups.deep_view() =~= spec_divide_tokens(all).0);
            assert(separators.deep_view() =~= spec_divide_tokens(all).1);
            assert(errs_acc.deep_view() =~= old(errs_acc).deep_view() + spec_divide_tokens(all).2);
        }
    } else {
        proof {
            assert(spec_divide(all, i as int, curr_group.deep_view()).2
                =~= Seq::<ErrorModel>::empty());
            assert(errs_acc.deep_view() + Seq::<ErrorModel>::empty() =~= errs_acc.deep_view());
            assert(groups.deep_view() =~= spec_divide_tokens(all).0);
            assert(separators.deep_view() =~= spec_divide_tokens(all).1);
            assert(errs_acc.deep_view() =~= old(errs_acc).deep_view() + spec_divide_tokens(all).2);
        }
    }
    (groups, separators)
}

/// The brace matching of `seps[i..]`, begun with the open braces `stack` and
/// the matches `map`: the final map from each matched `{` group index to its
/// `}` group index, and one `OpenClosedBrackets` diagnostic per `}` that has
/// no open brace to match.
pub open spec fn spec_braces(
    seps: Seq<TokenModel>,
    i: int,
    stack: Seq<usize>,
    map: Map<usize, usize>,
) -> (Map<usize, usize>, Seq<ErrorModel>)
    decreases seps.len() - i,
{
    if i < 0 || i >= seps.len() {
        (map, Seq::empty())
    } else if seps[i].text == "{"@ {
        spec_braces(seps, i + 1, stack.push(i as usize), map)
    } else if seps[i].text == "}"@ {
        if stack.len() == 0 {
            let rest = spec_braces(seps, i + 1, stack, map);
            (
                rest.0,
                seq![spec_new_entry(ErrorKind::OpenClosedBrackets, seps[i].position, Seq::empty())]
                    + rest.1,
            )
        } else {
            spec_braces(seps, i + 1, stack.drop_last(), map.insert(stack.last(), i as usize))
        }
    } else {
        spec_braces(seps, i + 1, stack, map)
    }
}

/// The brace matching of a whole separator list.
pub open spec fn spec_braces_map(seps: Seq<TokenModel>) -> (Map<usize, usize>, Seq<ErrorModel>) {
    spec_braces(seps, 0, Seq::empty(), Map::empty())
}

/// Every match in the brace map opens before it closes and closes within the
/// separator list.
pub proof fn lemma_braces_wf(seps: Seq<TokenModel>, i: int, stack: Seq<usize>, map: Map<usize, usize>)
    requires
        forall|j: int| 0 <= j < stack.len() ==> stack[j] < i,
        forall|k: usize| map.contains_key(k) ==> k < map[k] && map[k] < i,
        0 <= i <= seps.len(),
        seps.len() <= usize::MAX,
    ensures
        forall|k: usize|
            #[trigger] spec_braces(seps, i, stack, map).0.contains_key(k) ==> k < spec_braces(
                seps,
                i,
                stack,
                map,
            ).0[k] && spec_braces(seps, i, stack, map).0[k] < seps.len(),
    decreases seps.len() - i,
{
    if i < 0 || i >= seps.len() {
    } else if seps[i].text == "{"@ {
        lemma_braces_wf(seps, i + 1, stack.push(i as usize), map);
        assert forall|k: usize|
            #[trigger] spec_braces(seps, i, stack, map).0.contains_key(k) implies k < spec_braces(
            seps,
            i,
            stack,
            map,
        ).0[k] && spec_braces(seps, i, stack, map).0[k] < seps.len() by {
            assert(spec_braces(seps, i + 1, stack.push(i as usize), map).0.contains_key(k));
        }
    } else if seps[i].text == "}"@ {
        if stack.len() == 0 {
            lemma_braces_wf(seps, i + 1, stack, map);
            assert forall|k: usize|
                #[trigger] spec_braces(seps, i, stack, map).0.contains_key(k) implies k
                < spec_braces(seps, i, stack, map).0[k] && spec_braces(seps, i, stack, map).0[k]
                < seps.len() by {
                assert(spec_braces(seps, i + 1, stack, map).0.contains_key(k));
            }
        } else {
            let stack1 = stack.drop_last();
            let map1 = map.insert(stack.last(), i as usize);
            lemma_braces_wf(seps, i + 1, stack1, map1);
            assert forall|k: usize|
                #[trigger] spec_braces(seps, i, stack, map).0.contains_key(k) implies k
                < spec_braces(seps, i, stack, map).0[k] && spec_braces(seps, i, stack, map).0[k]
                < seps.len() by {
                assert(spec_braces(seps, i + 1, stack1, map1).0.contains_key(k));
            }
        }
    } else {
        lemma_braces_wf(seps, i + 1, stack, map);
        assert forall|k: usize|
            #[trigger] spec_braces(seps, i, stack, map).0.contains_key(k) implies k < spec_braces(
            seps,
            i,
            stack,
            map,
        ).0[k] && spec_braces(seps, i, stack, map).0[k] < seps.len() by {
            assert(spec_braces(seps, i + 1, stack, map).0.contains_key(k));
        }
    }
}

/// Matches the separators' braces with a stack: each `{` pushes its group
/// index, each `}` pops and records the pair, and a `}` with nothing to pop
/// raises an `OpenClosedBrackets` diagnostic and the scan continues.
pub fn get_braces_map(separators: &Vec<Token>, errs_acc: &mut Vec<ErrorEntry>) -> (map: HashMap<
    usize,
    usize,
>)
    ensures
        map@ == spec_braces_map(separators.deep_view()).0,
        final(errs_acc).deep_view() == old(errs_acc).deep_view() + spec_braces_map(
            separators.deep_view(),
        ).1,
{
    let ghost seps = separators.deep_view();
    let mut map: HashMap<usize, usize> = HashMap::new();
    let mut stack: Vec<usize> = Vec::new();
    let mut i: usize = 0;
    while i < separators.len()
        invariant
            i <= separators.len(),
            seps == separators.deep_view(),
            spec_braces_map(seps).0 == spec_braces(seps, i as int, stack@, map@).0,
            old(errs_acc).deep_view() + spec_braces_map(seps).1 =~= errs_acc.deep_view()
                + spec_braces(seps, i as int, stack@, map@).1,
            forall|j: int| 0 <= j < stack@.len() ==> stack@[j] < i,
        decreases separators.len() - i,
    {
        let separator = &separators[i];
        let ghost errs0 = errs_acc.deep_view();
        if str_eq(separator.value.as_str(), "{") {
            stack.push(i);
        } else if str_eq(separator.value.as_str(), "}") {
            if stack.len() == 0 {
                let no_args: Vec<String> = Vec::new();
                proof {
                    assert(no_args.deep_view() =~= Seq::<Seq<char>>::empty());
                }
                errs_acc.push(
                    ErrorEntry::new(ErrorKind::OpenClosedBrackets, &separator.position, no_args),
                );
                proof {
                    assert(errs_acc.deep_view() =~= errs0.push(
                        spec_new_entry(
                            ErrorKind::OpenClosedBrackets,
                            seps[i as int].position,
                            Seq::empty(),
                        ),
                    ));
                    assert(errs0 + spec_braces(seps, i as int, stack@, map@).1
                        =~= errs_acc.deep_view() + spec_braces(seps, i + 1, stack@, map@).1);
                }
            } else {
                let ghost stack0 = stack@;
                let start = stack.pop().unwrap();
                proof {
                    assert(stack@ =~= stack0.drop_last());
                }
                map.insert(start, i);
            }
        }
        i = i + 1;
    }
    map
}

/// A token keeps its place in a statement unless it is a comment.
pub open spec fn drop_comments(tokens: Seq<TokenModel>) -> Seq<TokenModel>
    decreases tokens.len(),
{
    if tokens.len() == 0 {
        Seq::empty()
    } else if tokens.last().kind == TokenType::Comment {
        drop_comments(tokens.drop_last())
    } else {
        drop_comments(tokens.drop_last()).push(tokens.last())
    }
}

/// The comments of a group, in order, diverted out of the statement's tokens.
pub open spec fn keep_comments(tokens: Seq<TokenModel>) -> Seq<TokenModel>
    decreases tokens.len(),
{
    if tokens.len() == 0 {
        Seq::empty()
    } else if tokens.last().kind == TokenType::Comment {
        keep_comments(tokens.drop_last()).push(tokens.last())
    } else {
        keep_comments(tokens.drop_last())
    }
}

/// Splits a group into its statement tokens and its comments.
fn split_group(group: &Vec<Token>) -> (r: (Vec<Token>, Vec<Token>))
    ensures
        r.0.deep_view() == drop_comments(group.deep_view()),
        r.1.deep_view() == keep_comments(group.deep_view()),
{
    let ghost all = group.deep_view();
    let mut toks: Vec<Token> = Vec::new();
    let mut comments: Vec<Token> = Vec::new();
    let mut j: usize = 0;
    proof {
        assert(all.take(0) =~= Seq::<TokenModel>::empty());
    }
    while j < group.len()
        invariant
            j <= group.len(),
            all == group.deep_view(),
            toks.deep_view() =~= drop_comments(all.take(j as int)),
            comments.deep_view() =~= keep_comments(all.take(j as int)),
        decreases group.len() - j,
    {
        let ghost toks0 = toks.deep_view();
        let ghost comments0 = comments.deep_view();
        if group[j].token_type == TokenType::Comment {
            comments.push(group[j].clone());
        } else {
            toks.push(group[j].clone());
        }
        j = j + 1;
        proof {
            assert(all.take(j as int).drop_last() =~= all.take(j - 1));
            assert(all.take(j as int).last() == all[j - 1]);
            if all[j - 1].kind == TokenType::Comment {
                assert(comments.deep_view() =~= comments0.push(all[j - 1]));
            } else {
                assert(toks.deep_view() =~= toks0.push(all[j - 1]));
            }
        }
    }
    proof {
        assert(all.take(group.len() as int) =~= all);
    }
    (toks, comments)
}

/// The statement tree built from the groups `[i, end)`. A group opening a
/// registered brace owns, as substatements, the tree of the groups strictly
/// between it and its matching close; a group with neither tokens nor
/// substatements is dropped.
pub open spec fn spec_statements_rec(
    groups: Seq<Seq<TokenModel>>,
    map: Map<usize, usize>,
    i: int,
    end: int,
) -> Seq<StatementModel>
    decreases groups.len() - i,
{
    if !(0 <= i && i < end && i < groups.len()) {
        Seq::empty()
    } else {
        let toks = drop_comments(groups[i]);
        let comments = keep_comments(groups[i]);
        let descend = map.contains_key(i as usize) && i < map[i as usize] && map[i as usize]
            < groups.len();
        let subs = if descend {
            spec_statements_rec(groups, map, i + 1, map[i as usize] + 1)
        } else {
            Seq::empty()
        };
        let next = if descend {
            map[i as usize] + 1
        } else {
            i + 1
        };
        let stmt = StatementModel { tokens: toks, substatements: subs, comments };
        let rest = spec_statements_rec(groups, map, next, end);
        if toks.len() > 0 || subs.len() > 0 {
            seq![stmt] + rest
        } else {
            rest
        }
    }
}

/// Builds the statements of the groups `[i, end)` onto `out`.
fn build_statements(
    groups: &Vec<Vec<Token>>,
    map: &HashMap<usize, usize>,
    i: usize,
    end: usize,
    out: &mut Vec<Statement>,
)
    requires
        end <= groups@.len(),
        forall|k: usize| #[trigger] map@.contains_key(k) ==> k < map@[k] && map@[k] < groups@.len(),
    ensures
        statements_model(final(out)@) == statements_model(old(out)@) + spec_statements_rec(
            groups.deep_view(),
            map@,
            i as int,
            end as int,
        ),
    decreases groups@.len() - i,
{
    broadcast use lemma_statements_model;

    let ghost g = groups.deep_view();
    if i >= end {
        proof {
            assert(statements_model(out@) =~= statements_model(out@) + spec_statements_rec(
                g,
                map@,
                i as int,
                end as int,
            ));
        }
        return ;
    }
    let n = groups.len();
    let (toks, comments) = split_group(&groups[i]);
    let mut substatements: Vec<Statement> = Vec::new();
    let mut next: usize = i + 1;
    match map.get(&i) {
        Some(close) => {
            let close = *close;
            proof {
                assert(map@.contains_key(i) && map@[i] == close && close < n);
            }
            build_statements(groups, map, i + 1, close + 1, &mut substatements);
            next = close + 1;
        },
        None => {},
    }
    proof {
        assert(statements_model(substatements@) =~= (if (map@.contains_key(i) && i < map@[i]
            && map@[i] < g.len()) {
            spec_statements_rec(g, map@, i as int + 1, map@[i] + 1)
        } else {
            Seq::<StatementModel>::empty()
        }));
    }
    let keep = toks.len() > 0 || substatements.len() > 0;
    let ghost out0 = statements_model(out@);
    if keep {
        let stmt = Statement { tokens: toks, substatements, comments };
        proof {
            assert(stmt.model() == StatementModel {
                tokens: drop_comments(g[i as int]),
                substatements: stmt.model().substatements,
                comments: keep_comments(g[i as int]),
            });
        }
        out.push(stmt);
    }
    build_statements(groups, map, next, end, out);
    proof {
        assert(statements_model(final(out)@) =~= statements_model(old(out)@) + spec_statements_rec(
            g,
            map@,
            i as int,
            end as int,
        ));
    }
}

/// Rebuilds the recursive statement tree of the groups `[start, end)`.
pub fn get_statements_rec(
    groups: &Vec<Vec<Token>>,
    map: &HashMap<usize, usize>,
    start: usize,
    end: usize,
) -> (r: Vec<Statement>)
    requires
        end <= groups@.len(),
        forall|k: usize| #[trigger] map@.contains_key(k) ==> k < map@[k] && map@[k] < groups@.len(),
    ensures
        statements_model(r@) == spec_statements_rec(
            groups.deep_view(),
            map@,
            start as int,
            end as int,
        ),
{
    let mut out: Vec<Statement> = Vec::new();
    proof {
        assert(statements_model(out@) =~= Seq::<StatementModel>::empty());
    }
    build_statements(groups, map, start, end, &mut out);
    proof {
        assert(Seq::<StatementModel>::empty() + spec_statements_rec(
            groups.deep_view(),
            map@,
            start as int,
            end as int,
        ) =~= spec_statements_rec(groups.deep_view(), map@, start as int, end as int));
    }
    out
}

/// The statement tree and the diagnostics of a whole token stream: the
/// stream is split into groups, the braces are matched, and the tree is
/// rebuilt from the top-level range.
pub open spec fn spec_get_statements(tokens: Seq<TokenModel>) -> (Seq<StatementModel>, Seq<ErrorModel>) {
    let d = spec_divide_tokens(tokens);
    let b = spec_braces_map(d.1);
    (spec_statements_rec(d.0, b.0, 0, d.0.len() as int), d.2 + b.1)
}

/// Divides a token stream into the recursive statement tree, accumulating
/// the structural diagnostics.
pub fn get_statements(tokens: &Vec<Token>, errs_acc: &mut Vec<ErrorEntry>) -> (r: Vec<Statement>)
    ensures
        statements_model(r@) == spec_get_statements(tokens.deep_view()).0,
        final(errs_acc).deep_view() == old(errs_acc).deep_view() + spec_get_statements(
            tokens.deep_view(),
        ).1,
{
    let (groups, separators) = divide_tokens(tokens, errs_acc);
    let braces_map = get_braces_map(&separators, errs_acc);
    let sep_count = separators.len();
    proof {
        assert(separators.deep_view().len() == sep_count);
        lemma_divide_lens(tokens.deep_view(), 0, Seq::empty());
        lemma_braces_wf(separators.deep_view(), 0, Seq::empty(), Map::empty());
        assert(errs_acc.deep_view() =~= old(errs_acc).deep_view() + spec_get_statements(
            tokens.deep_view(),
        ).1);
    }
    let n = groups.len();
    get_statements_rec(&groups, &braces_map, 0, n)
}

} // verus!

verus! {

/// Whether a separator opens a brace group in the matcher's sense.
pub open spec fn opens(t: TokenModel) -> bool {
    t.text == "{"@
}

/// Whether a separator closes a brace group in the matcher's sense.
pub open spec fn closes(t: TokenModel) -> bool {
    t.text == "}"@
}

/// The number of unmatched closing braces in `seps[i..]`, scanned with
/// `depth` braces currently open.
pub open spec fn count_unmatched_from(seps: Seq<TokenModel>, i: int, depth: nat) -> nat
    decreases seps.len() - i,
{
    if !(0 <= i < seps.len()) {
        0
    } else if opens(seps[i]) {
        count_unmatched_from(seps, i + 1, depth + 1)
    } else if closes(seps[i]) {
        if depth == 0 {
            1 + count_unmatched_from(seps, i + 1, 0)
        } else {
            count_unmatched_from(seps, i + 1, (depth - 1) as nat)
        }
    } else {
        count_unmatched_from(seps, i + 1, depth)
    }
}

/// The number of braces left open at the end of `seps`, scanned from `i`
/// with `depth` braces currently open.
pub open spec fn open_surplus_from(seps: Seq<TokenModel>, i: int, depth: nat) -> nat
    decreases seps.len() - i,
{
    if !(0 <= i < seps.len()) {
        depth
    } else if opens(seps[i]) {
        open_surplus_from(seps, i + 1, depth + 1)
    } else if closes(seps[i]) {
        if depth == 0 {
            open_surplus_from(seps, i + 1, 0)
        } else {
            open_surplus_from(seps, i + 1, (depth - 1) as nat)
        }
    } else {
        open_surplus_from(seps, i + 1, depth)
    }
}

/// A balanced separator list: no unmatched closing brace and no brace left
/// open at the end.
pub open spec fn spec_balanced(seps: Seq<TokenModel>) -> bool {
    count_unmatched_from(seps, 0, 0) == 0 && open_surplus_from(seps, 0, 0) == 0
}

/// A well-shaped brace map over `seps`: every entry pairs an opening brace
/// with a closing brace after it, both below `bound`.
pub open spec fn braces_map_shape(seps: Seq<TokenModel>, m: Map<usize, usize>, bound: int) -> bool {
    forall|k: usize|
        #[trigger] m.contains_key(k) ==> k < bound && opens(seps[k as int]) && k < m[k] && m[k]
            < bound && closes(seps[m[k] as int])
}

/// Pairs of the brace map are properly nested: an opening inside another
/// pair closes inside it too, never across it.
pub open spec fn braces_map_nested(m: Map<usize, usize>) -> bool {
    forall|k1: usize, k2: usize|
        #[trigger] m.contains_key(k1) && #[trigger] m.contains_key(k2) && k1 < k2 && k2 < m[k1]
            ==> m[k2] < m[k1]
}

/// No two openings map to the same closing.
pub open spec fn braces_map_injective(m: Map<usize, usize>) -> bool {
    forall|k1: usize, k2: usize|
        #[trigger] m.contains_key(k1) && #[trigger] m.contains_key(k2) && m[k1] == m[k2] ==> k1
            == k2
}

/// A separator cannot both open and close a brace group.
proof fn lemma_open_close_distinct(t: TokenModel)
    ensures
        !(opens(t) && closes(t)),
{
    if opens(t) && closes(t) {
        reveal_strlit("{");
        reveal_strlit("}");
        assert(t.text[0] == '{' && t.text[0] == '}');
    }
}

/// The matcher raises exactly one diagnostic per unmatched closing brace.
pub proof fn lemma_braces_errors(seps: Seq<TokenModel>, i: int, stack: Seq<usize>, map: Map<usize, usize>)
    requires
        0 <= i,
    ensures
        spec_braces(seps, i, stack, map).1.len() == count_unmatched_from(
            seps,
            i,
            stack.len() as nat,
        ),
    decreases seps.len() - i,
{
    if i >= seps.len() {
    } else if opens(seps[i]) {
        lemma_braces_errors(seps, i + 1, stack.push(i as usize), map);
    } else if closes(seps[i]) {
        if stack.len() == 0 {
            lemma_braces_errors(seps, i + 1, stack, map);
        } else {
            lemma_braces_errors(seps, i + 1, stack.drop_last(), map.insert(stack.last(), i as usize));
        }
    } else {
        lemma_braces_errors(seps, i + 1, stack, map);
    }
}

/// Whatever state the matcher starts in, the map it produces keeps the shape
/// of the entries it had plus pairs within the list, and it never maps two
/// openings to one closing.
proof fn lemma_braces_map_shape(seps: Seq<TokenModel>, i: int, stack: Seq<usize>, map: Map<usize, usize>)
    requires
        0 <= i <= seps.len(),
        seps.len() <= usize::MAX,
        forall|j: int| 0 <= j < stack.len() ==> #[trigger] stack[j] < i && opens(seps[stack[j] as int]),
        forall|j1: int, j2: int| 0 <= j1 < j2 < stack.len() ==> stack[j1] != stack[j2],
        forall|k: usize| #[trigger] map.contains_key(k) ==> !stack.contains(k),
        braces_map_shape(seps, map, i),
        braces_map_injective(map),
    ensures
        braces_map_shape(seps, spec_braces(seps, i, stack, map).0, seps.len() as int),
        braces_map_injective(spec_braces(seps, i, stack, map).0),
    decreases seps.len() - i,
{
    if i >= seps.len() {
    } else if opens(seps[i]) {
        let stack1 = stack.push(i as usize);
        assert(forall|k: usize| #[trigger] map.contains_key(k) ==> !stack1.contains(k)) by {
            assert(forall|k: usize|
                stack1.contains(k) ==> stack.contains(k) || k == i as usize);
        }
        assert(forall|j1: int, j2: int| 0 <= j1 < j2 < stack1.len() ==> stack1[j1] != stack1[j2])
            by {
            assert(forall|j: int| 0 <= j < stack.len() ==> stack1[j] == stack[j]);
            assert(stack1[stack1.len() - 1] == i as usize);
        }
        lemma_braces_map_shape(seps, i + 1, stack1, map);
    } else if closes(seps[i]) {
        if stack.len() == 0 {
            lemma_braces_map_shape(seps, i + 1, stack, map);
        } else {
            let stack1 = stack.drop_last();
            let map1 = map.insert(stack.last(), i as usize);
            assert(stack.contains(stack.last()));
            assert(!map.contains_key(stack.last()));
            assert(forall|j: int|
                0 <= j < stack1.len() ==> #[trigger] stack1[j] < i && opens(
                    seps[stack1[j] as int],
                )) by {
                assert(forall|j: int| 0 <= j < stack1.len() ==> stack1[j] == stack[j]);
            }
            assert(forall|k: usize| #[trigger] map1.contains_key(k) ==> !stack1.contains(k)) by {
                assert forall|k: usize| #[trigger] map1.contains_key(k) implies !stack1.contains(
                    k,
                ) by {
                    if stack1.contains(k) {
                        let j = choose|j: int| 0 <= j < stack1.len() && stack1[j] == k;
                        assert(stack[j] == k);
                        assert(k != stack.last());
                        assert(stack.contains(k));
                    }
                }
            }
            assert(braces_map_shape(seps, map1, i + 1));
            assert(braces_map_injective(map1));
            lemma_braces_map_shape(seps, i + 1, stack1, map1);
        }
    } else {
        lemma_braces_map_shape(seps, i + 1, stack, map);
    }
}

/// Whatever state the matcher starts in, if its open braces are increasing
/// and no brace pair surrounds a brace still open, the map it produces is
/// properly nested.
proof fn lemma_braces_map_nesting(seps: Seq<TokenModel>, i: int, stack: Seq<usize>, map: Map<usize, usize>)
    requires
        0 <= i <= seps.len(),
        seps.len() <= usize::MAX,
        forall|j: int| 0 <= j < stack.len() ==> #[trigger] stack[j] < i && opens(seps[stack[j] as int]),
        forall|j1: int, j2: int| 0 <= j1 < j2 < stack.len() ==> stack[j1] < stack[j2],
        forall|k: usize| #[trigger] map.contains_key(k) ==> !stack.contains(k),
        braces_map_shape(seps, map, i),
        braces_map_nested(map),
        forall|k: usize, j: int|
            #![trigger map.contains_key(k), stack[j]]
            map.contains_key(k) && 0 <= j < stack.len() ==> stack[j] < k || stack[j] > map[k],
    ensures
        braces_map_nested(spec_braces(seps, i, stack, map).0),
    decreases seps.len() - i,
{
    if i >= seps.len() {
    } else if opens(seps[i]) {
        let stack1 = stack.push(i as usize);
        assert(forall|j: int| 0 <= j < stack.len() ==> stack1[j] == stack[j]);
        assert(stack1[stack1.len() - 1] == i as usize);
        assert(forall|k: usize| #[trigger] map.contains_key(k) ==> !stack1.contains(k)) by {
            assert(forall|k: usize|
                stack1.contains(k) ==> stack.contains(k) || k == i as usize);
        }
        lemma_braces_map_nesting(seps, i + 1, stack1, map);
    } else if closes(seps[i]) {
        if stack.len() == 0 {
            lemma_braces_map_nesting(seps, i + 1, stack, map);
        } else {
            let top = stack.last();
            let stack1 = stack.drop_last();
            let map1 = map.insert(top, i as usize);
            assert(stack.contains(top));
            assert(!map.contains_key(top));
            assert(forall|j: int| 0 <= j < stack1.len() ==> stack1[j] == stack[j]);
            assert(forall|k: usize| #[trigger] map1.contains_key(k) ==> !stack1.contains(k)) by {
                assert forall|k: usize| #[trigger] map1.contains_key(k) implies !stack1.contains(
                    k,
                ) by {
                    if stack1.contains(k) {
                        let j = choose|j: int| 0 <= j < stack1.len() && stack1[j] == k;
                        assert(stack[j] == k);
                        assert(k != top);
                        assert(stack.contains(k));
                    }
                }
            }
            assert(braces_map_shape(seps, map1, i + 1));
            assert(braces_map_nested(map1)) by {
                assert forall|k1: usize, k2: usize|
                    #[trigger] map1.contains_key(k1) && #[trigger] map1.contains_key(k2) && k1
                        < k2 && k2 < map1[k1] implies map1[k2] < map1[k1] by {
                    if k1 == top {
                        assert(map.contains_key(k2) && map[k2] < i);
                    } else if k2 == top {
                        assert(map.contains_key(k1));
                        assert(stack[stack.len() - 1] == top);
                        assert(top < k1 || top > map[k1]);
                    } else {
                        assert(map.contains_key(k1) && map.contains_key(k2));
                    }
                }
            }
            assert(forall|k: usize, j: int|
                #![trigger map1.contains_key(k), stack1[j]]
                map1.contains_key(k) && 0 <= j < stack1.len() ==> stack1[j] < k || stack1[j]
                    > map1[k]) by {
                assert forall|k: usize, j: int|
                    #![trigger map1.contains_key(k), stack1[j]]
                    map1.contains_key(k) && 0 <= j < stack1.len() implies stack1[j] < k
                    || stack1[j] > map1[k] by {
                    assert(stack1[j] == stack[j]);
                    if k == top {
                        assert(stack[j] < stack[stack.len() - 1]);
                    } else {
                        assert(map.contains_key(k));
                        assert(stack[j] < k || stack[j] > map[k]);
                    }
                }
            }
            lemma_braces_map_nesting(seps, i + 1, stack1, map1);
        }
    } else {
        lemma_braces_map_nesting(seps, i + 1, stack, map);
    }
}

/// The brace map of any separator list is properly nested: a pair opening
/// inside another pair closes inside it.
pub proof fn lemma_braces_nested(seps: Seq<TokenModel>)
    requires
        seps.len() <= usize::MAX,
    ensures
        braces_map_nested(spec_braces_map(seps).0),
{
    lemma_braces_map_nesting(seps, 0, Seq::empty(), Map::empty());
}

/// On input whose remainder balances the braces now open, the matcher's map
/// covers everything: every opening brace becomes a key and every closing
/// brace the value of some key.
proof fn lemma_braces_map_complete(seps: Seq<TokenModel>, i: int, stack: Seq<usize>, map: Map<usize, usize>)
    requires
        0 <= i <= seps.len(),
        seps.len() <= usize::MAX,
        forall|j: int| 0 <= j < stack.len() ==> #[trigger] stack[j] < i && opens(seps[stack[j] as int]),
        forall|j1: int, j2: int| 0 <= j1 < j2 < stack.len() ==> stack[j1] != stack[j2],
        forall|k: usize| #[trigger] map.contains_key(k) ==> !stack.contains(k),
        braces_map_shape(seps, map, i),
        count_unmatched_from(seps, i, stack.len() as nat) == 0,
        open_surplus_from(seps, i, stack.len() as nat) == 0,
        forall|j: int|
            0 <= j < i && opens(seps[j]) ==> stack.contains(j as usize) || map.contains_key(
                j as usize,
            ),
        forall|j: int|
            0 <= j < i && closes(seps[j]) ==> exists|k: usize|
                #[trigger] map.contains_key(k) && map[k] == j as usize,
    ensures
        forall|j: int|
            0 <= j < seps.len() && opens(seps[j]) ==> spec_braces(
                seps,
                i,
                stack,
                map,
            ).0.contains_key(j as usize),
        forall|j: int|
            0 <= j < seps.len() && closes(seps[j]) ==> exists|k: usize|
                #[trigger] spec_braces(seps, i, stack, map).0.contains_key(k) && spec_braces(
                    seps,
                    i,
                    stack,
                    map,
                ).0[k] == j as usize,
    decreases seps.len() - i,
{
    if i >= seps.len() {
        assert(stack.len() == 0);
        assert forall|j: int| 0 <= j < seps.len() && opens(seps[j]) implies spec_braces(
            seps,
            i,
            stack,
            map,
        ).0.contains_key(j as usize) by {
            assert(!stack.contains(j as usize));
        }
        assert forall|j: int| 0 <= j < seps.len() && closes(seps[j]) implies exists|k: usize|
            #[trigger] spec_braces(seps, i, stack, map).0.contains_key(k) && spec_braces(
            seps,
            i,
            stack,
            map,
        ).0[k] == j as usize by {
            let k = choose|k: usize| #[trigger] map.contains_key(k) && map[k] == j as usize;
            assert(spec_braces(seps, i, stack, map).0.contains_key(k) && spec_braces(
                seps,
                i,
                stack,
                map,
            ).0[k] == j as usize);
        }
    } else if opens(seps[i]) {
        let stack1 = stack.push(i as usize);
        assert(forall|k: usize| #[trigger] map.contains_key(k) ==> !stack1.contains(k)) by {
            assert(forall|k: usize|
                stack1.contains(k) ==> stack.contains(k) || k == i as usize);
        }
        assert(forall|j1: int, j2: int| 0 <= j1 < j2 < stack1.len() ==> stack1[j1] != stack1[j2])
            by {
            assert(forall|j: int| 0 <= j < stack.len() ==> stack1[j] == stack[j]);
            assert(stack1[stack1.len() - 1] == i as usize);
        }
        assert(forall|j: int|
            0 <= j < i + 1 && opens(seps[j]) ==> stack1.contains(j as usize) || map.contains_key(
                j as usize,
            )) by {
            assert(stack1[stack1.len() - 1] == i as usize);
            assert(stack1.contains(i as usize));
            assert(forall|j: int|
                0 <= j < stack.len() ==> stack1[j] == stack[j] && stack1.contains(stack[j]));
        }
        assert(forall|j: int|
            0 <= j < i + 1 && closes(seps[j]) ==> exists|k: usize|
                #[trigger] map.contains_key(k) && map[k] == j as usize) by {
            lemma_open_close_distinct(seps[i]);
        }
        lemma_braces_map_complete(seps, i + 1, stack1, map);
        assert(spec_braces(seps, i, stack, map).0 == spec_braces(seps, i + 1, stack1, map).0);
        assert forall|j: int| 0 <= j < seps.len() && closes(seps[j]) implies exists|k: usize|
            #[trigger] spec_braces(seps, i, stack, map).0.contains_key(k) && spec_braces(
            seps,
            i,
            stack,
            map,
        ).0[k] == j as usize by {
            let k = choose|k: usize|
                #[trigger] spec_braces(seps, i + 1, stack1, map).0.contains_key(k) && spec_braces(
                    seps,
                    i + 1,
                    stack1,
                    map,
                ).0[k] == j as usize;
            assert(spec_braces(seps, i, stack, map).0.contains_key(k) && spec_braces(
                seps,
                i,
                stack,
                map,
            ).0[k] == j as usize);
        }
    } else if closes(seps[i]) {
        if stack.len() == 0 {
            assert(count_unmatched_from(seps, i, 0) >= 1);
            assert(false);
        } else {
            let stack1 = stack.drop_last();
            let map1 = map.insert(stack.last(), i as usize);
            assert(stack.contains(stack.last()));
            assert(!map.contains_key(stack.last()));
            assert(forall|j: int|
                0 <= j < stack1.len() ==> #[trigger] stack1[j] < i && opens(
                    seps[stack1[j] as int],
                )) by {
                assert(forall|j: int| 0 <= j < stack1.len() ==> stack1[j] == stack[j]);
            }
            assert(forall|k: usize| #[trigger] map1.contains_key(k) ==> !stack1.contains(k)) by {
                assert forall|k: usize| #[trigger] map1.contains_key(k) implies !stack1.contains(
                    k,
                ) by {
                    if stack1.contains(k) {
                        let j = choose|j: int| 0 <= j < stack1.len() && stack1[j] == k;
                        assert(stack[j] == k);
                        assert(k != stack.last());
                        assert(stack.contains(k));
                    }
                }
            }
            assert(forall|j1: int, j2: int|
                0 <= j1 < j2 < stack1.len() ==> stack1[j1] != stack1[j2]) by {
                assert(forall|j: int| 0 <= j < stack1.len() ==> stack1[j] == stack[j]);
            }
            assert(braces_map_shape(seps, map1, i + 1));
            assert(forall|j: int|
                0 <= j < i + 1 && opens(seps[j]) ==> stack1.contains(j as usize)
                    || map1.contains_key(j as usize)) by {
                assert forall|j: int| 0 <= j < i + 1 && opens(seps[j]) implies stack1.contains(
                    j as usize,
                ) || map1.contains_key(j as usize) by {
                    if j < i {
                        if stack.contains(j as usize) {
                            let x = choose|x: int| 0 <= x < stack.len() && stack[x] == j as usize;
                            if x < stack.len() - 1 {
                                assert(stack1[x] == j as usize);
                                assert(stack1.contains(j as usize));
                            } else {
                                assert(j as usize == stack.last());
                            }
                        }
                    } else {
                        assert(opens(seps[i]) && closes(seps[i]));
                        assert(seps[i].text.len() == 1);
                        assert(seps[i].text[0] == '{' && seps[i].text[0] == '}') by {
                            reveal_strlit("{");
                            reveal_strlit("}");
                        }
                    }
                }
            }
            assert(forall|j: int|
                0 <= j < i + 1 && closes(seps[j]) ==> exists|k: usize|
                    #[trigger] map1.contains_key(k) && map1[k] == j as usize) by {
                assert forall|j: int| 0 <= j < i + 1 && closes(seps[j]) implies exists|k: usize|
                    #[trigger] map1.contains_key(k) && map1[k] == j as usize by {
                    if j < i {
                        let k = choose|k: usize|
                            #[trigger] map.contains_key(k) && map[k] == j as usize;
                        assert(k != stack.last());
                        assert(map1.contains_key(k) && map1[k] == j as usize);
                    } else {
                        assert(map1.contains_key(stack.last()) && map1[stack.last()]
                            == i as usize);
                    }
                }
            }
            lemma_braces_map_complete(seps, i + 1, stack1, map1);
            assert(spec_braces(seps, i, stack, map).0 == spec_braces(seps, i + 1, stack1, map1).0);
            assert forall|j: int| 0 <= j < seps.len() && closes(seps[j]) implies exists|k: usize|
                #[trigger] spec_braces(seps, i, stack, map).0.contains_key(k) && spec_braces(
                seps,
                i,
                stack,
                map,
            ).0[k] == j as usize by {
                let k = choose|k: usize|
                    #[trigger] spec_braces(seps, i + 1, stack1, map1).0.contains_key(k) && spec_braces(
                        seps,
                        i + 1,
                        stack1,
                        map1,
                    ).0[k] == j as usize;
                assert(spec_braces(seps, i, stack, map).0.contains_key(k) && spec_braces(
                    seps,
                    i,
                    stack,
                    map,
                ).0[k] == j as usize);
            }
        }
    } else {
        lemma_braces_map_complete(seps, i + 1, stack, map);
        assert(spec_braces(seps, i, stack, map).0 == spec_braces(seps, i + 1, stack, map).0);
        assert forall|j: int| 0 <= j < seps.len() && closes(seps[j]) implies exists|k: usize|
            #[trigger] spec_braces(seps, i, stack, map).0.contains_key(k) && spec_braces(
            seps,
            i,
            stack,
            map,
        ).0[k] == j as usize by {
            let k = choose|k: usize|
                #[trigger] spec_braces(seps, i + 1, stack, map).0.contains_key(k) && spec_braces(
                    seps,
                    i + 1,
                    stack,
                    map,
                ).0[k] == j as usize;
            assert(spec_braces(seps, i, stack, map).0.contains_key(k) && spec_braces(
                seps,
                i,
                stack,
                map,
            ).0[k] == j as usize);
        }
    }
}

/// Brace matching is a bijection on balanced input: the map's keys are
/// exactly the opening braces, each maps to one closing brace after it,
/// every closing brace is the image of exactly one opening brace, the pairs
/// are properly nested, and no diagnostic is raised. On any input, the
/// matcher raises exactly one diagnostic per unmatched closing brace.
pub proof fn lemma_braces_bijection(seps: Seq<TokenModel>)
    requires
        seps.len() <= usize::MAX,
        spec_balanced(seps),
    ensures
        forall|j: int|
            0 <= j < seps.len() ==> (opens(seps[j]) <==> spec_braces_map(seps).0.contains_key(
                j as usize,
            )),
        forall|k: usize|
            #[trigger] spec_braces_map(seps).0.contains_key(k) ==> k < spec_braces_map(seps).0[k]
                && spec_braces_map(seps).0[k] < seps.len() && closes(
                seps[spec_braces_map(seps).0[k] as int],
            ),
        forall|j: int|
            0 <= j < seps.len() && closes(seps[j]) ==> exists|k: usize|
                #[trigger] spec_braces_map(seps).0.contains_key(k) && spec_braces_map(seps).0[k]
                    == j as usize,
        braces_map_injective(spec_braces_map(seps).0),
        braces_map_nested(spec_braces_map(seps).0),
        spec_braces_map(seps).1.len() == 0,
{
    lemma_braces_nested(seps);
    lemma_braces_map_shape(seps, 0, Seq::empty(), Map::empty());
    lemma_braces_map_complete(seps, 0, Seq::empty(), Map::empty());
    lemma_braces_errors(seps, 0, Seq::empty(), Map::empty());
    assert forall|j: int| 0 <= j < seps.len() && closes(seps[j]) implies exists|k: usize|
        #[trigger] spec_braces_map(seps).0.contains_key(k) && spec_braces_map(seps).0[k]
        == j as usize by {
        let k = choose|k: usize|
            #[trigger] spec_braces(seps, 0, Seq::empty(), Map::empty()).0.contains_key(k)
                && spec_braces(seps, 0, Seq::empty(), Map::empty()).0[k] == j as usize;
        assert(spec_braces_map(seps).0.contains_key(k) && spec_braces_map(seps).0[k]
            == j as usize);
    }
}

} // verus!
