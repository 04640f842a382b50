//! The expression parser. A flat token slice is structured into elements —
//! plain tokens and parenthesized or call sub-spans — the element order is
//! validated, and a precedence-correct tree is built by splitting at binary
//! operators in descending priority tiers. One sub-expression's error never
//! stops its siblings; a failed sub-expression stands as the zero literal.

use vstd::prelude::*;
use crate::position::Position;
use crate::token::Token;
use crate::token::TokenModel;
use crate::token::TokenType;
use crate::token::clone_tokens;
use crate::error::ErrorEntry;
use crate::error::ErrorKind;
use crate::error::ErrorModel;
use crate::error::spec_new_entry;
use crate::text::str_eq;
use crate::text::push_char;
use vstd::string::StringExecFns;
use vstd::string::StrSliceExecFns;

verus! {

/// One node of an expression tree: a raw literal or name, or an operator or
/// function applied to operands.
#[derive(Debug)]
pub enum Node {
    Number(String),
    Operator(OperatorNode),
}

/// An operator or function application: its name and its operands in order.
#[derive(Debug)]
pub struct OperatorNode {
    pub name: String,
    pub nodes: Vec<Node>,
}

/// The mathematical content of an expression node.
#[verifier::ext_equal]
pub enum NodeModel {
    Number(Seq<char>),
    Operator(Seq<char>, Seq<NodeModel>),
}

impl Node {
    /// The mathematical content of this node and everything below it.
    pub open spec fn model(&self) -> NodeModel
        decreases *self, 0nat,
    {
        match self {
            Node::Number(num) => NodeModel::Number(num@),
            Node::Operator(op) => NodeModel::Operator(op.name@, nodes_model(op.nodes@)),
        }
    }
}

/// The models of a sequence of nodes, in order.
pub open spec fn nodes_model(nodes: Seq<Node>) -> Seq<NodeModel>
    decreases nodes, 1nat,
{
    if nodes.len() == 0 {
        Seq::empty()
    } else {
        nodes_model(nodes.drop_last()).push(nodes.last().model())
    }
}

/// The model of a node list is the list of the nodes' models.
pub broadcast proof fn lemma_nodes_model(nodes: Seq<Node>)
    ensures
        (#[trigger] nodes_model(nodes)).len() == nodes.len(),
        forall|i: int| 0 <= i < nodes.len() ==> nodes_model(nodes)[i] == nodes[i].model(),
    decreases nodes.len(),
{
    if nodes.len() > 0 {
        lemma_nodes_model(nodes.drop_last());
    }
}

/// A parsed expression: the tokens it came from and the tree built from
/// them, absent only for an empty token range.
#[derive(Debug)]
pub struct Expression {
    pub tokens: Vec<Token>,
    pub root: Option<Node>,
}

/// The mathematical content of a parsed expression.
#[verifier::ext_equal]
pub struct ExpressionModel {
    pub tokens: Seq<TokenModel>,
    pub root: Option<NodeModel>,
}

impl Expression {
    /// The mathematical content of this expression.
    pub open spec fn model(&self) -> ExpressionModel {
        ExpressionModel {
            tokens: self.tokens.deep_view(),
            root: match self.root {
                Some(n) => Some(n.model()),
                None => None,
            },
        }
    }
}

/// One element of the structuring pass: a parenthesized sub-span with an
/// optional call name, or a single plain token.
#[derive(Debug)]
pub enum ExpressionElement {
    Postfix(Vec<Token>, Option<Token>),
    Common(Token),
}

/// The mathematical content of a structuring element.
#[verifier::ext_equal]
pub enum ElemModel {
    Postfix(Seq<TokenModel>, Option<TokenModel>),
    Common(TokenModel),
}

impl ExpressionElement {
    /// The mathematical content of this element.
    pub open spec fn model(&self) -> ElemModel {
        match self {
            ExpressionElement::Postfix(tokens, fn_call) => ElemModel::Postfix(
                tokens.deep_view(),
                match fn_call {
                    Some(t) => Some(t@),
                    None => None,
                },
            ),
            ExpressionElement::Common(token) => ElemModel::Common(token@),
        }
    }
}

/// The models of a sequence of elements, in order.
pub open spec fn elems_model(elems: Seq<ExpressionElement>) -> Seq<ElemModel> {
    Seq::new(elems.len(), |i: int| elems[i].model())
}

impl Clone for ExpressionElement {
    fn clone(&self) -> (r: Self)
        ensures
            r.model() == self.model(),
    {
        match self {
            ExpressionElement::Postfix(tokens, fn_call) => ExpressionElement::Postfix(
                clone_tokens(tokens),
                match fn_call {
                    Some(t) => Some(t.clone()),
                    None => None,
                },
            ),
            ExpressionElement::Common(token) => ExpressionElement::Common(token.clone()),
        }
    }
}

/// The token that speaks for an element in a diagnostic: a plain token
/// itself, a call's name, or the first token of a plain parenthesized span.
pub open spec fn spec_first_token(e: ElemModel) -> Option<TokenModel> {
    match e {
        ElemModel::Common(token) => Some(token),
        ElemModel::Postfix(tokens, fn_call) => match fn_call {
            Some(t) => Some(t),
            None => if tokens.len() > 0 {
                Some(tokens.first())
            } else {
                None
            },
        },
    }
}

impl ExpressionElement {
    /// The token that speaks for this element in a diagnostic.
    pub fn get_first_token(&self) -> (r: Option<Token>)
        ensures
            match spec_first_token(self.model()) {
                Some(tm) => r matches Some(t) && t@ == tm,
                None => r is None,
            },
    {
        match self {
            ExpressionElement::Common(token) => Some(token.clone()),
            ExpressionElement::Postfix(tokens, fn_call) => match fn_call {
                Some(token) => Some(token.clone()),
                None => {
                    if tokens.len() > 0 {
                        Some(tokens[0].clone())
                    } else {
                        None
                    }
                },
            },
        }
    }
}

/// The position a diagnostic about an element points at: its speaking
/// token's position, or the origin when it has none.
pub open spec fn spec_elem_position(e: ElemModel) -> Position {
    match spec_first_token(e) {
        Some(t) => t.position,
        None => Position { line: 0, line_position: 0 },
    }
}

/// The termination weight of an element: parenthesized spans outweigh what
/// their tokens can expand to.
pub open spec fn elem_weight(e: ElemModel) -> nat {
    match e {
        ElemModel::Common(_) => 1,
        ElemModel::Postfix(tokens, _) => tokens.len() + 2,
    }
}

/// The termination weight of an element sequence.
pub open spec fn elems_weight(elems: Seq<ElemModel>) -> nat
    decreases elems.len(),
{
    if elems.len() == 0 {
        0
    } else {
        elem_weight(elems.first()) + elems_weight(elems.drop_first())
    }
}

/// Weight splits over any cut of the sequence.
pub proof fn lemma_weight_split(elems: Seq<ElemModel>, k: int)
    requires
        0 <= k <= elems.len(),
    ensures
        elems_weight(elems) == elems_weight(elems.take(k)) + elems_weight(elems.skip(k)),
    decreases k,
{
    if k == 0 {
        assert(elems.take(0) =~= Seq::empty());
        assert(elems.skip(0) =~= elems);
    } else {
        lemma_weight_split(elems.drop_first(), k - 1);
        assert(elems.take(k).drop_first() =~= elems.drop_first().take(k - 1));
        assert(elems.take(k).first() == elems.first());
        assert(elems.skip(k) =~= elems.drop_first().skip(k - 1));
    }
}

/// A single element's weight.
pub proof fn lemma_weight_singleton(e: ElemModel)
    ensures
        elems_weight(seq![e]) == elem_weight(e),
{
    let single = seq![e];
    assert(single.first() == e);
    assert(single.drop_first() =~= Seq::<ElemModel>::empty());
    assert(elems_weight(Seq::<ElemModel>::empty()) == 0);
    assert(elems_weight(single) == elem_weight(single.first()) + elems_weight(single.drop_first()));
}

/// Appending an element adds its weight.
pub proof fn lemma_weight_push(s: Seq<ElemModel>, e: ElemModel)
    ensures
        elems_weight(s.push(e)) == elems_weight(s) + elem_weight(e),
{
    lemma_weight_split(s.push(e), s.len() as int);
    assert(s.push(e).take(s.len() as int) =~= s);
    assert(s.push(e).skip(s.len() as int) =~= seq![e]);
    lemma_weight_singleton(e);
}

/// Taking the first element off takes its weight off.
pub proof fn lemma_weight_unfold(s: Seq<ElemModel>)
    requires
        s.len() > 0,
    ensures
        elems_weight(s) == elem_weight(s.first()) + elems_weight(s.drop_first()),
{
}

/// The element an index points at is part of the weight.
pub proof fn lemma_weight_element(elems: Seq<ElemModel>, i: int)
    requires
        0 <= i < elems.len(),
    ensures
        elems_weight(elems) >= elems_weight(elems.take(i)) + elem_weight(elems[i]) + elems_weight(
            elems.skip(i + 1),
        ),
{
    lemma_weight_split(elems, i);
    let rest = elems.skip(i);
    assert(rest.first() == elems[i]);
    assert(rest.drop_first() =~= elems.skip(i + 1));
}

} // verus!

verus! {

/// The model of an optional token.
pub open spec fn opt_model(o: Option<Token>) -> Option<TokenModel> {
    match o {
        Some(t) => Some(t@),
        None => None,
    }
}

/// The structuring pass over `tokens[i..]`, carried out with the current
/// parenthesis `level`, the buffered span `level_tokens`, the pending call
/// name `fn_call`, and the elements built so far: the final element list and
/// the diagnostics raised from `i` on. At depth zero a `(` directly after a
/// word turns that word into a call name; buffered content becomes one
/// `Postfix` element when its `)` returns to depth zero; a negative depth
/// raises one `OpenClosedBrackets` diagnostic at every token where the depth
/// is negative, starting at the `)` that makes it so.
pub open spec fn spec_elems_rec(
    tokens: Seq<TokenModel>,
    i: int,
    level: int,
    level_tokens: Seq<TokenModel>,
    fn_call: Option<TokenModel>,
    exprs: Seq<ElemModel>,
) -> (Seq<ElemModel>, Seq<ErrorModel>)
    decreases tokens.len() - i,
{
    if !(0 <= i < tokens.len()) {
        (exprs, Seq::empty())
    } else {
        let t = tokens[i];
        let errs0: Seq<ErrorModel> = if level < 0 || (level == 0 && t.kind == TokenType::Symbol
            && t.text == ")"@) {
            seq![spec_new_entry(ErrorKind::OpenClosedBrackets, t.position, Seq::empty())]
        } else {
            Seq::empty()
        };
        if t.kind == TokenType::Symbol && t.text == "("@ {
            if level > 0 {
                let r = spec_elems_rec(tokens, i + 1, level + 1, level_tokens.push(t), fn_call, exprs);
                (r.0, errs0 + r.1)
            } else if level == 0 {
                let prev_word = i > 0 && tokens[i - 1].kind == TokenType::Word;
                let fn2 = if prev_word {
                    Some(tokens[i - 1])
                } else {
                    None
                };
                let exprs2 = if prev_word && exprs.len() > 0 {
                    exprs.drop_last()
                } else {
                    exprs
                };
                let r = spec_elems_rec(tokens, i + 1, level + 1, level_tokens, fn2, exprs2);
                (r.0, errs0 + r.1)
            } else {
                let r = spec_elems_rec(tokens, i + 1, level + 1, level_tokens, fn_call, exprs);
                (r.0, errs0 + r.1)
            }
        } else if t.kind == TokenType::Symbol && t.text == ")"@ {
            let lt2 = if level > 1 {
                level_tokens.push(t)
            } else {
                level_tokens
            };
            if level == 1 {
                let r = spec_elems_rec(
                    tokens,
                    i + 1,
                    0,
                    Seq::empty(),
                    None,
                    exprs.push(ElemModel::Postfix(lt2, fn_call)),
                );
                (r.0, errs0 + r.1)
            } else {
                let r = spec_elems_rec(tokens, i + 1, level - 1, lt2, fn_call, exprs);
                (r.0, errs0 + r.1)
            }
        } else {
            if level > 0 {
                let r = spec_elems_rec(tokens, i + 1, level, level_tokens.push(t), fn_call, exprs);
                (r.0, errs0 + r.1)
            } else {
                let r = spec_elems_rec(
                    tokens,
                    i + 1,
                    level,
                    level_tokens,
                    fn_call,
                    exprs.push(ElemModel::Common(t)),
                );
                (r.0, errs0 + r.1)
            }
        }
    }
}

/// The structuring pass over a whole token slice.
pub open spec fn spec_get_expression_elems(tokens: Seq<TokenModel>) -> (
    Seq<ElemModel>,
    Seq<ErrorModel>,
) {
    spec_elems_rec(tokens, 0, 0, Seq::empty(), None, Seq::empty())
}

/// The weight still owed by an unfinished parenthesized span.
pub open spec fn pending_weight(level: int, level_tokens: Seq<TokenModel>) -> nat {
    level_tokens.len() + (if level >= 1 {
        1nat
    } else {
        0nat
    })
}

/// The structuring pass never produces more weight than it is given tokens,
/// counting what its open span still owes.
pub proof fn lemma_elems_weight(
    tokens: Seq<TokenModel>,
    i: int,
    level: int,
    level_tokens: Seq<TokenModel>,
    fn_call: Option<TokenModel>,
    exprs: Seq<ElemModel>,
)
    requires
        0 <= i <= tokens.len(),
    ensures
        elems_weight(spec_elems_rec(tokens, i, level, level_tokens, fn_call, exprs).0)
            <= elems_weight(exprs) + pending_weight(level, level_tokens) + (tokens.len()
            - i),
    decreases tokens.len() - i,
{
    if !(0 <= i < tokens.len()) {
    } else {
        let t = tokens[i];
        if t.kind == TokenType::Symbol && t.text == "("@ {
            if level > 0 {
                lemma_elems_weight(tokens, i + 1, level + 1, level_tokens.push(t), fn_call, exprs);
            } else if level == 0 {
                let prev_word = i > 0 && tokens[i - 1].kind == TokenType::Word;
                let fn2 = if prev_word {
                    Some(tokens[i - 1])
                } else {
                    None
                };
                let exprs2 = if prev_word && exprs.len() > 0 {
                    exprs.drop_last()
                } else {
                    exprs
                };
                lemma_elems_weight(tokens, i + 1, level + 1, level_tokens, fn2, exprs2);
                if prev_word && exprs.len() > 0 {
                    lemma_weight_split(exprs, exprs.len() - 1);
                    assert(exprs.take(exprs.len() - 1) =~= exprs.drop_last());
                }
            } else {
                lemma_elems_weight(tokens, i + 1, level + 1, level_tokens, fn_call, exprs);
            }
        } else if t.kind == TokenType::Symbol && t.text == ")"@ {
            let lt2 = if level > 1 {
                level_tokens.push(t)
            } else {
                level_tokens
            };
            if level == 1 {
                let exprs2 = exprs.push(ElemModel::Postfix(lt2, fn_call));
                lemma_elems_weight(tokens, i + 1, 0, Seq::empty(), None, exprs2);
                lemma_weight_push(exprs, ElemModel::Postfix(lt2, fn_call));
            } else {
                lemma_elems_weight(tokens, i + 1, level - 1, lt2, fn_call, exprs);
            }
        } else {
            if level > 0 {
                lemma_elems_weight(tokens, i + 1, level, level_tokens.push(t), fn_call, exprs);
            } else {
                let exprs2 = exprs.push(ElemModel::Common(t));
                lemma_elems_weight(tokens, i + 1, level, level_tokens, fn_call, exprs2);
                lemma_weight_push(exprs, ElemModel::Common(t));
            }
        }
    }
}

/// Structures a token slice into elements, tracking parenthesis depth; an
/// `OpenClosedBrackets` diagnostic is raised at each token where the depth
/// is negative, starting at the `)` that makes it so.
pub fn get_expression_elems(tokens: &Vec<Token>, errs_acc: &mut Vec<ErrorEntry>) -> (r: Vec<
    ExpressionElement,
>)
    ensures
        elems_model(r@) == spec_get_expression_elems(tokens.deep_view()).0,
        final(errs_acc).deep_view() == old(errs_acc).deep_view() + spec_get_expression_elems(
            tokens.deep_view(),
        ).1,
{
    let ghost all = tokens.deep_view();
    let mut level: i128 = 0;
    let mut level_tokens: Vec<Token> = Vec::new();
    let mut exprs: Vec<ExpressionElement> = Vec::new();
    let mut fn_call: Option<Token> = None;
    let mut i: usize = 0;
    proof {
        assert(level_tokens.deep_view() =~= Seq::<TokenModel>::empty());
        assert(elems_model(exprs@) =~= Seq::<ElemModel>::empty());
        assert(errs_acc.deep_view() + spec_get_expression_elems(all).1 =~= old(
            errs_acc,
        ).deep_view() + spec_get_expression_elems(all).1);
    }
    while i < tokens.len()
        invariant
            i <= tokens.len(),
            all == tokens.deep_view(),
            -(i as int) <= level <= i as int,
            spec_get_expression_elems(all).0 == spec_elems_rec(
                all,
                i as int,
                level as int,
                level_tokens.deep_view(),
                opt_model(fn_call),
                elems_model(exprs@),
            ).0,
            old(errs_acc).deep_view() + spec_get_expression_elems(all).1 =~= errs_acc.deep_view()
                + spec_elems_rec(
                all,
                i as int,
                level as int,
                level_tokens.deep_view(),
                opt_model(fn_call),
                elems_model(exprs@),
            ).1,
        decreases tokens.len() - i,
    {
        let ghost lt0 = level_tokens.deep_view();
        let ghost ex0 = elems_model(exprs@);
        let ghost fc0 = opt_model(fn_call);
        let ghost level0 = level as int;
        let token = &tokens[i];
        let goes_negative = level == 0 && token.token_type == TokenType::Symbol && str_eq(
            token.value.as_str(),
            ")",
        );
        if level < 0 || goes_negative {
            let mut args: Vec<String> = Vec::new();
            proof {
                assert(args.deep_view() =~= Seq::<Seq<char>>::empty());
            }
            errs_acc.push(ErrorEntry::new(ErrorKind::OpenClosedBrackets, &token.position, args));
        }
        if token.token_type == TokenType::Symbol && str_eq(token.value.as_str(), "(") {
            if level > 0 {
                level_tokens.push(token.clone());
                proof {
                    assert(level_tokens.deep_view() =~= lt0.push(all[i as int]));
                }
            } else if level == 0 {
                let prev_word = i > 0 && tokens[i - 1].token_type == TokenType::Word;
                if prev_word {
                    fn_call = Some(tokens[i - 1].clone());
                    if exprs.len() > 0 {
                        let _ = exprs.pop();
                        proof {
                            assert(elems_model(exprs@) =~= ex0.drop_last());
                        }
                    }
                } else {
                    fn_call = None;
                }
            }
            level = level + 1;
        } else if token.token_type == TokenType::Symbol && str_eq(token.value.as_str(), ")") {
            if level > 1 {
                level_tokens.push(token.clone());
                proof {
                    assert(level_tokens.deep_view() =~= lt0.push(all[i as int]));
                }
            }
            if level == 1 {
                let finished = level_tokens;
                level_tokens = Vec::new();
                exprs.push(ExpressionElement::Postfix(finished, fn_call));
                fn_call = None;
                level = 0;
                proof {
                    assert(level_tokens.deep_view() =~= Seq::<TokenModel>::empty());
                    assert(elems_model(exprs@) =~= ex0.push(ElemModel::Postfix(lt0, fc0)));
                }
            } else {
                level = level - 1;
            }
        } else {
            if level > 0 {
                level_tokens.push(token.clone());
                proof {
                    assert(level_tokens.deep_view() =~= lt0.push(all[i as int]));
                }
            } else {
                exprs.push(ExpressionElement::Common(token.clone()));
                proof {
                    assert(elems_model(exprs@) =~= ex0.push(ElemModel::Common(all[i as int])));
                }
            }
        }
        i = i + 1;
    }
    exprs
}

/// The comma split of `exprs[i..]`, begun with the open group `curr`: the
/// groups cut at each top-level comma, a last group kept only when
/// non-empty.
pub open spec fn spec_comma_rec(exprs: Seq<ElemModel>, i: int, curr: Seq<ElemModel>) -> Seq<
    Seq<ElemModel>,
>
    decreases exprs.len() - i,
{
    if !(0 <= i < exprs.len()) {
        if curr.len() > 0 {
            seq![curr]
        } else {
            Seq::empty()
        }
    } else {
        match exprs[i] {
            ElemModel::Common(t) => {
                if t.kind == TokenType::Symbol && t.text == ","@ {
                    seq![curr] + spec_comma_rec(exprs, i + 1, Seq::empty())
                } else {
                    spec_comma_rec(exprs, i + 1, curr.push(exprs[i]))
                }
            },
            ElemModel::Postfix(_, _) => spec_comma_rec(exprs, i + 1, curr.push(exprs[i])),
        }
    }
}

/// The comma split of a whole element list.
pub open spec fn spec_comma_divide(exprs: Seq<ElemModel>) -> Seq<Seq<ElemModel>> {
    spec_comma_rec(exprs, 0, Seq::empty())
}

/// The combined weight of a list of groups.
pub open spec fn groups_weight(groups: Seq<Seq<ElemModel>>) -> nat
    decreases groups.len(),
{
    if groups.len() == 0 {
        0
    } else {
        elems_weight(groups.first()) + groups_weight(groups.drop_first())
    }
}

/// A group never outweighs its list.
pub proof fn lemma_groups_weight_element(groups: Seq<Seq<ElemModel>>, k: int)
    requires
        0 <= k < groups.len(),
    ensures
        elems_weight(groups[k]) <= groups_weight(groups),
    decreases k,
{
    if k == 0 {
    } else {
        lemma_groups_weight_element(groups.drop_first(), k - 1);
    }
}

/// The comma split never produces more weight than it is given.
pub proof fn lemma_comma_weight(exprs: Seq<ElemModel>, i: int, curr: Seq<ElemModel>)
    requires
        0 <= i <= exprs.len(),
    ensures
        groups_weight(spec_comma_rec(exprs, i, curr)) <= elems_weight(curr) + elems_weight(
            exprs.skip(i),
        ),
    decreases exprs.len() - i,
{
    if !(0 <= i < exprs.len()) {
        assert(exprs.skip(i) =~= Seq::<ElemModel>::empty());
        assert(elems_weight(Seq::<ElemModel>::empty()) == 0);
        if curr.len() > 0 {
            assert(groups_weight(seq![curr]) == elems_weight(curr)) by {
                assert(seq![curr].first() == curr);
                assert(seq![curr].drop_first() =~= Seq::<Seq<ElemModel>>::empty());
                assert(groups_weight(Seq::<Seq<ElemModel>>::empty()) == 0);
                assert(groups_weight(seq![curr]) == elems_weight(seq![curr].first())
                    + groups_weight(seq![curr].drop_first()));
            }
        } else {
            assert(groups_weight(Seq::<Seq<ElemModel>>::empty()) == 0);
        }
    } else {
        let rest = exprs.skip(i);
        assert(rest.first() == exprs[i]);
        assert(rest.drop_first() =~= exprs.skip(i + 1));
        lemma_weight_unfold(rest);
        let is_comma = exprs[i] matches ElemModel::Common(t) && t.kind == TokenType::Symbol
            && t.text == ","@;
        if is_comma {
            lemma_comma_weight(exprs, i + 1, Seq::empty());
            let tail = spec_comma_rec(exprs, i + 1, Seq::empty());
            assert(groups_weight(seq![curr] + tail) == elems_weight(curr) + groups_weight(tail))
                by {
                assert((seq![curr] + tail).first() == curr);
                assert((seq![curr] + tail).drop_first() =~= tail);
                assert(groups_weight(seq![curr] + tail) == elems_weight((seq![curr] + tail).first())
                    + groups_weight((seq![curr] + tail).drop_first()));
            }
        } else {
            let curr2 = curr.push(exprs[i]);
            lemma_comma_weight(exprs, i + 1, curr2);
            lemma_weight_push(curr, exprs[i]);
        }
    }
}

/// Splits a list of elements at its top-level commas.
pub fn comma_divide(exprs: &Vec<ExpressionElement>) -> (r: Vec<Vec<ExpressionElement>>)
    ensures
        groups_model(r@) == spec_comma_divide(elems_model(exprs@)),
{
    let ghost all = elems_model(exprs@);
    let mut res: Vec<Vec<ExpressionElement>> = Vec::new();
    let mut curr: Vec<ExpressionElement> = Vec::new();
    let mut i: usize = 0;
    proof {
        assert(elems_model(curr@) =~= Seq::<ElemModel>::empty());
        assert(groups_model(res@) =~= Seq::<Seq<ElemModel>>::empty());
        assert(groups_model(res@) + spec_comma_rec(all, 0, Seq::empty()) =~= spec_comma_rec(
            all,
            0,
            Seq::empty(),
        ));
    }
    while i < exprs.len()
        invariant
            i <= exprs.len(),
            all == elems_model(exprs@),
            spec_comma_divide(all) =~= groups_model(res@) + spec_comma_rec(
                all,
                i as int,
                elems_model(curr@),
            ),
        decreases exprs.len() - i,
    {
        let ghost res0 = groups_model(res@);
        let ghost curr0 = elems_model(curr@);
        let mut is_comma = false;
        match &exprs[i] {
            ExpressionElement::Common(token) => {
                if token.token_type == TokenType::Symbol && str_eq(token.value.as_str(), ",") {
                    is_comma = true;
                }
            },
            ExpressionElement::Postfix(_, _) => {},
        }
        if is_comma {
            let finished = curr;
            curr = Vec::new();
            res.push(finished);
            proof {
                assert(elems_model(curr@) =~= Seq::<ElemModel>::empty());
                assert(groups_model(res@) =~= res0.push(curr0));
                assert(res0 + (seq![curr0] + spec_comma_rec(all, i + 1, Seq::empty()))
                    =~= groups_model(res@) + spec_comma_rec(all, i + 1, Seq::empty()));
            }
        } else {
            curr.push(exprs[i].clone());
            proof {
                assert(elems_model(curr@) =~= curr0.push(all[i as int]));
            }
        }
        i = i + 1;
    }
    if curr.len() > 0 {
        let ghost res0 = groups_model(res@);
        let ghost curr0 = elems_model(curr@);
        res.push(curr);
        proof {
            assert(groups_model(res@) =~= res0.push(curr0));
            assert(res0 + seq![curr0] =~= groups_model(res@));
            assert(groups_model(res@) =~= spec_comma_divide(all));
        }
    } else {
        proof {
            assert(groups_model(res@) + Seq::<Seq<ElemModel>>::empty() =~= groups_model(res@));
            assert(groups_model(res@) =~= spec_comma_divide(all));
        }
    }
    res
}

/// The models of a list of element groups.
pub open spec fn groups_model(groups: Seq<Vec<ExpressionElement>>) -> Seq<Seq<ElemModel>> {
    Seq::new(groups.len(), |i: int| elems_model(groups[i]@))
}

} // verus!

verus! {

/// The text that speaks for an element in a diagnostic: its speaking
/// token's text, or nothing when it has none.
pub open spec fn spec_elem_text(e: ElemModel) -> Seq<char> {
    match spec_first_token(e) {
        Some(t) => t.text,
        None => Seq::empty(),
    }
}

/// The order validation of `elems[i..]`, with `init` the parity offset fixed
/// by the first element and `first` whether no element has been seen yet: a
/// symbol must sit in an operator slot and anything else in an operand slot;
/// a leading symbol must be a unary `+` or `-`; and a trailing symbol is a
/// violation found after the walk. Returns the index of the first violation,
/// if any, beside the diagnostics.
pub open spec fn spec_check_order_rec(elems: Seq<ElemModel>, i: int, init: int, first: bool) -> (
    Option<int>,
    Seq<ErrorModel>,
)
    decreases elems.len() - i,
{
    if !(0 <= i < elems.len()) {
        if elems.len() > 0 && (elems.last() matches ElemModel::Common(t) && t.kind
            == TokenType::Symbol) {
            (
                Some(elems.len() - 1),
                seq![
                    spec_new_entry(
                        ErrorKind::ExpressionLastSymbol,
                        spec_elem_position(elems.last()),
                        Seq::empty(),
                    ),
                ],
            )
        } else {
            (None, Seq::empty())
        }
    } else {
        match elems[i] {
            ElemModel::Common(t) => {
                if t.kind == TokenType::Symbol {
                    let init2: int = if first {
                        1
                    } else {
                        init
                    };
                    let errs0: Seq<ErrorModel> = if first && !(t.text == "+"@ || t.text == "-"@) {
                        seq![
                            spec_new_entry(
                                ErrorKind::UndefinedUnaryOperator,
                                t.position,
                                seq![t.text],
                            ),
                        ]
                    } else {
                        Seq::empty()
                    };
                    if (init2 + i) % 2 != 1 {
                        (
                            Some(i),
                            errs0 + seq![
                                spec_new_entry(
                                    ErrorKind::ExpectedBinaryOperator,
                                    t.position,
                                    seq![t.text],
                                ),
                            ],
                        )
                    } else {
                        let r = spec_check_order_rec(elems, i + 1, init2, false);
                        (r.0, errs0 + r.1)
                    }
                } else {
                    if (init + i) % 2 != 0 {
                        (
                            Some(i),
                            seq![
                                spec_new_entry(ErrorKind::ExpectedNumVar, t.position, seq![t.text]),
                            ],
                        )
                    } else {
                        spec_check_order_rec(elems, i + 1, init, false)
                    }
                }
            },
            ElemModel::Postfix(_, _) => {
                if (init + i) % 2 != 0 {
                    (
                        Some(i),
                        seq![
                            spec_new_entry(
                                ErrorKind::ExpectedNumVar,
                                spec_elem_position(elems[i]),
                                seq![spec_elem_text(elems[i])],
                            ),
                        ],
                    )
                } else {
                    spec_check_order_rec(elems, i + 1, init, false)
                }
            },
        }
    }
}

/// The order validation of a whole element list; an empty list reports a
/// violation at index zero without a diagnostic.
pub open spec fn spec_check_order(elems: Seq<ElemModel>) -> (Option<int>, Seq<ErrorModel>) {
    if elems.len() == 0 {
        (Some(0), Seq::empty())
    } else {
        spec_check_order_rec(elems, 0, 0, true)
    }
}

/// Validates that the elements alternate operand and operator correctly,
/// reporting the first violation's index and accumulating its diagnostics.
pub fn check_expressions_order(elems: &Vec<ExpressionElement>, errs_acc: &mut Vec<ErrorEntry>) -> (r:
    Option<usize>)
    ensures
        match r {
            Some(u) => spec_check_order(elems_model(elems@)).0 == Some(u as int),
            None => spec_check_order(elems_model(elems@)).0 is None,
        },
        final(errs_acc).deep_view() == old(errs_acc).deep_view() + spec_check_order(
            elems_model(elems@),
        ).1,
{
    let ghost all = elems_model(elems@);
    if elems.len() == 0 {
        proof {
            assert(errs_acc.deep_view() + Seq::<ErrorModel>::empty() =~= errs_acc.deep_view());
        }
        return Some(0);
    }
    let mut i: usize = 0;
    let mut init: usize = 0;
    let mut first: bool = true;
    while i < elems.len()
        invariant
            0 <= i <= elems.len(),
            elems@.len() > 0,
            all == elems_model(elems@),
            init == 0 || init == 1,
            spec_check_order(all).0 == spec_check_order_rec(
                all,
                i as int,
                init as int,
                first,
            ).0,
            old(errs_acc).deep_view() + spec_check_order(all).1 =~= errs_acc.deep_view()
                + spec_check_order_rec(all, i as int, init as int, first).1,
        decreases elems.len() - i,
    {
        let ghost errs0 = errs_acc.deep_view();
        match &elems[i] {
            ExpressionElement::Common(token) => {
                if token.token_type == TokenType::Symbol {
                    if first {
                        first = false;
                        init = 1;
                        if !(str_eq(token.value.as_str(), "+") || str_eq(token.value.as_str(), "-"))
                        {
                            let mut args: Vec<String> = Vec::new();
                            args.push(token.value.clone());
                            proof {
                                assert(args.deep_view() =~= seq![all[i as int]->Common_0.text]);
                            }
                            errs_acc.push(
                                ErrorEntry::new(
                                    ErrorKind::UndefinedUnaryOperator,
                                    &token.position,
                                    args,
                                ),
                            );
                        }
                    }
                    if (init + i) % 2 != 1 {
                        let mut args: Vec<String> = Vec::new();
                        args.push(token.value.clone());
                        proof {
                            assert(args.deep_view() =~= seq![all[i as int]->Common_0.text]);
                        }
                        errs_acc.push(
                            ErrorEntry::new(ErrorKind::ExpectedBinaryOperator, &token.position, args),
                        );
                        return Some(i);
                    }
                } else {
                    if first {
                        first = false;
                    }
                    if (init + i) % 2 != 0 {
                        let mut args: Vec<String> = Vec::new();
                        args.push(token.value.clone());
                        proof {
                            assert(args.deep_view() =~= seq![all[i as int]->Common_0.text]);
                        }
                        errs_acc.push(
                            ErrorEntry::new(ErrorKind::ExpectedNumVar, &token.position, args),
                        );
                        return Some(i);
                    }
                }
            },
            ExpressionElement::Postfix(_, _) => {
                if first {
                    first = false;
                }
                if (init + i) % 2 != 0 {
                    let position = match elems[i].get_first_token() {
                        Some(token) => token.position,
                        None => Position { line: 0, line_position: 0 },
                    };
                    let text = match elems[i].get_first_token() {
                        Some(token) => token.value,
                        None => String::new(),
                    };
                    let mut args: Vec<String> = Vec::new();
                    args.push(text);
                    proof {
                        assert(args.deep_view() =~= seq![spec_elem_text(all[i as int])]);
                    }
                    errs_acc.push(ErrorEntry::new(ErrorKind::ExpectedNumVar, &position, args));
                    return Some(i);
                }
            },
        }
        i = i + 1;
    }
    let last = &elems[elems.len() - 1];
    match last {
        ExpressionElement::Common(token) => {
            if token.token_type == TokenType::Symbol {
                let args: Vec<String> = Vec::new();
                proof {
                    assert(args.deep_view() =~= Seq::<Seq<char>>::empty());
                    assert(all.last() == all[i as int - 1]);
                }
                errs_acc.push(
                    ErrorEntry::new(ErrorKind::ExpressionLastSymbol, &token.position, args),
                );
                return Some(elems.len() - 1);
            }
        },
        ExpressionElement::Postfix(_, _) => {},
    }
    None
}

} // verus!

verus! {

/// Every element weighs at least one.
pub proof fn lemma_elem_weight_pos(e: ElemModel)
    ensures
        elem_weight(e) >= 1,
{
}

/// The binary operators in the order they are tried: descending priority
/// tier, array order within a tier.
pub open spec fn spec_bin_ops() -> Seq<Seq<char>> {
    seq!["=="@, "!="@, "<="@, "<"@, ">="@, ">"@, "+"@, "-"@, "*"@, "/"@]
}

/// The first index at or after `i` holding the symbol `op` as a plain
/// element.
pub open spec fn spec_find_symbol_from(elems: Seq<ElemModel>, op: Seq<char>, i: int) -> Option<int>
    decreases elems.len() - i,
{
    if !(0 <= i < elems.len()) {
        None
    } else if elems[i] matches ElemModel::Common(t) && t.kind == TokenType::Symbol && t.text == op {
        Some(i)
    } else {
        spec_find_symbol_from(elems, op, i + 1)
    }
}

/// What a symbol search returns points inside the list, after the start, at
/// that very symbol.
pub proof fn lemma_find_symbol(elems: Seq<ElemModel>, op: Seq<char>, i: int)
    ensures
        spec_find_symbol_from(elems, op, i) matches Some(idx) ==> i <= idx < elems.len()
            && (elems[idx] matches ElemModel::Common(t) && t.kind == TokenType::Symbol && t.text
            == op),
    decreases elems.len() - i,
{
    if 0 <= i < elems.len() {
        lemma_find_symbol(elems, op, i + 1);
    }
}

/// The first binary operator split: operators are tried in their fixed
/// order, each searched left to right from index one; the first hit wins.
pub open spec fn spec_find_bin_from(elems: Seq<ElemModel>, k: int) -> Option<(Seq<char>, int)>
    decreases spec_bin_ops().len() - k,
{
    if !(0 <= k < spec_bin_ops().len()) {
        None
    } else {
        match spec_find_symbol_from(elems, spec_bin_ops()[k], 1) {
            Some(idx) => Some((spec_bin_ops()[k], idx)),
            None => spec_find_bin_from(elems, k + 1),
        }
    }
}

/// The binary operator the tree builder splits at, if any.
pub open spec fn spec_find_bin(elems: Seq<ElemModel>) -> Option<(Seq<char>, int)> {
    spec_find_bin_from(elems, 0)
}

/// What the operator search returns points inside the list, after index
/// zero, at that operator symbol.
pub proof fn lemma_find_bin(elems: Seq<ElemModel>, k: int)
    requires
        0 <= k,
    ensures
        spec_find_bin_from(elems, k) matches Some(hit) ==> 1 <= hit.1 < elems.len()
            && (elems[hit.1] matches ElemModel::Common(t) && t.kind == TokenType::Symbol && t.text
            == hit.0),
    decreases spec_bin_ops().len() - k,
{
    if 0 <= k < spec_bin_ops().len() {
        lemma_find_symbol(elems, spec_bin_ops()[k], 1);
        lemma_find_bin(elems, k + 1);
    }
}

/// The zero literal standing in for a failed sub-expression.
pub open spec fn spec_zero_node() -> NodeModel {
    NodeModel::Number("0"@)
}

/// The split of `elems` at the binary operator `op` standing at `idx`: the
/// tree applies `op` to the trees of the left and right parts.
pub open spec fn spec_divide_bin(elems: Seq<ElemModel>, op: Seq<char>, idx: int) -> (
    NodeModel,
    Seq<ErrorModel>,
)
    decreases elems_weight(elems), 0nat, 0nat,
    via spec_divide_bin_decreases
{
    if !(0 <= idx < elems.len()) {
        (spec_zero_node(), Seq::empty())
    } else {
        let left = spec_divide_first(elems.take(idx));
        let right = spec_divide_first(elems.skip(idx + 1));
        (NodeModel::Operator(op, seq![left.0, right.0]), left.1 + right.1)
    }
}

#[via_fn]
proof fn spec_divide_bin_decreases(elems: Seq<ElemModel>, op: Seq<char>, idx: int) {
    if 0 <= idx < elems.len() {
        lemma_weight_element(elems, idx);
        lemma_elem_weight_pos(elems[idx]);
    }
}

/// The split of `elems` at a leading unary operator `op`: the tree applies
/// `op` to the tree of the rest, absent when nothing follows the operator.
pub open spec fn spec_divide_un(elems: Seq<ElemModel>, op: Seq<char>) -> Option<
    (NodeModel, Seq<ErrorModel>),
>
    decreases elems_weight(elems), 0nat, 0nat,
    via spec_divide_un_decreases
{
    if elems.len() == 0 {
        None
    } else {
        let right = elems.skip(1);
        if right.len() == 0 {
            None
        } else {
            let d = spec_divide_first(right);
            Some((NodeModel::Operator(op, seq![d.0]), d.1))
        }
    }
}

#[via_fn]
proof fn spec_divide_un_decreases(elems: Seq<ElemModel>, op: Seq<char>) {
    if elems.len() > 0 {
        lemma_weight_unfold(elems);
        lemma_elem_weight_pos(elems.first());
        assert(elems.drop_first() =~= elems.skip(1));
    }
}

/// The tree of an element list: split at the first binary operator by
/// descending priority, else at a leading unary `+`/`-`, else a lone word or
/// number stands as a leaf and a lone parenthesized or call span is expanded;
/// anything else is flagged and stands as the zero literal.
pub open spec fn spec_divide_first(elems: Seq<ElemModel>) -> (NodeModel, Seq<ErrorModel>)
    decreases elems_weight(elems), 1nat, 0nat,
    via spec_divide_first_decreases
{
    if elems.len() == 0 {
        (
            spec_zero_node(),
            seq![
                spec_new_entry(
                    ErrorKind::ExpressionShouldRetNumber,
                    Position { line: 0, line_position: 0 },
                    Seq::empty(),
                ),
            ],
        )
    } else {
        match spec_find_bin(elems) {
            Some(hit) => spec_divide_bin(elems, hit.0, hit.1),
            None => {
                if elems[0] matches ElemModel::Common(t) && t.kind == TokenType::Symbol && (t.text
                    == "+"@ || t.text == "-"@) {
                    let t = elems[0]->Common_0;
                    match spec_divide_un(elems, t.text) {
                        Some(d) => d,
                        None => (
                            spec_zero_node(),
                            seq![
                                spec_new_entry(
                                    ErrorKind::NoVarAfterUnary,
                                    t.position,
                                    Seq::empty(),
                                ),
                            ],
                        ),
                    }
                } else {
                    let errs0: Seq<ErrorModel> = if elems.len() > 1 {
                        seq![
                            spec_new_entry(
                                ErrorKind::ExpressionShouldRetNumber,
                                spec_elem_position(elems[0]),
                                Seq::empty(),
                            ),
                        ]
                    } else {
                        Seq::empty()
                    };
                    match elems[0] {
                        ElemModel::Common(t) => {
                            if t.kind == TokenType::Word || t.kind == TokenType::Number {
                                (NodeModel::Number(t.text), errs0)
                            } else {
                                (
                                    spec_zero_node(),
                                    errs0 + seq![
                                        spec_new_entry(
                                            ErrorKind::ExpectedNumVar,
                                            t.position,
                                            seq![t.text],
                                        ),
                                    ],
                                )
                            }
                        },
                        ElemModel::Postfix(toks, fnc) => {
                            let inner = spec_get_expression_elems(toks);
                            let p = spec_process_postfix(inner.0, fnc);
                            (p.0, errs0 + inner.1 + p.1)
                        },
                    }
                }
            },
        }
    }
}

#[via_fn]
proof fn spec_divide_first_decreases(elems: Seq<ElemModel>) {
    if elems.len() > 0 {
        lemma_find_bin(elems, 0);
        if elems[0] is Postfix {
            lemma_elems_weight(elems[0]->Postfix_0, 0, 0, Seq::empty(), None, Seq::empty());
            lemma_weight_unfold(elems);
        }
    }
}

/// The argument trees of a call: one tree per comma group, in order.
pub open spec fn spec_build_args(groups: Seq<Seq<ElemModel>>, k: int) -> (
    Seq<NodeModel>,
    Seq<ErrorModel>,
)
    decreases groups_weight(groups), 2nat, groups.len() - k,
    via spec_build_args_decreases
{
    if !(0 <= k < groups.len()) {
        (Seq::empty(), Seq::empty())
    } else {
        let d = spec_divide_first(groups[k]);
        let r = spec_build_args(groups, k + 1);
        (seq![d.0] + r.0, d.1 + r.1)
    }
}

#[via_fn]
proof fn spec_build_args_decreases(groups: Seq<Seq<ElemModel>>, k: int) {
    if 0 <= k < groups.len() {
        lemma_groups_weight_element(groups, k);
    }
}

/// The tree of one parenthesized or call span. A call builds one operand per
/// top-level comma group; a plain span is order-validated and must come to a
/// single value, standing as the zero literal otherwise.
pub open spec fn spec_process_postfix(exprs: Seq<ElemModel>, func_call: Option<TokenModel>) -> (
    NodeModel,
    Seq<ErrorModel>,
)
    decreases elems_weight(exprs), 3nat, 0nat,
    via spec_process_postfix_decreases
{
    match func_call {
        None => {
            let ord = spec_check_order(exprs);
            if ord.0 is Some {
                (spec_zero_node(), ord.1)
            } else {
                let div = spec_comma_divide(exprs);
                if div.len() == 0 {
                    (spec_zero_node(), ord.1)
                } else if div.len() == 1 {
                    let d = spec_divide_first(exprs);
                    (d.0, ord.1 + d.1)
                } else {
                    (
                        spec_zero_node(),
                        ord.1 + seq![
                            spec_new_entry(
                                ErrorKind::ExpressionShouldRetNumber,
                                spec_elem_position(exprs[0]),
                                Seq::empty(),
                            ),
                        ],
                    )
                }
            }
        },
        Some(fc) => {
            let div = spec_comma_divide(exprs);
            let b = spec_build_args(div, 0);
            (NodeModel::Operator(fc.text, b.0), b.1)
        },
    }
}

#[via_fn]
proof fn spec_process_postfix_decreases(exprs: Seq<ElemModel>, func_call: Option<TokenModel>) {
    lemma_comma_weight(exprs, 0, Seq::empty());
    assert(exprs.skip(0) =~= exprs);
    assert(elems_weight(Seq::<ElemModel>::empty()) == 0);
}

/// The parse of a token slice: nothing only for an empty slice; otherwise
/// the slice is structured, order-validated, and built into a tree, the zero
/// literal standing in for the whole tree when the order validation found a
/// violation.
pub open spec fn spec_get_expression(tokens: Seq<TokenModel>) -> (
    Option<ExpressionModel>,
    Seq<ErrorModel>,
) {
    if tokens.len() == 0 {
        (None, Seq::empty())
    } else {
        let e = spec_get_expression_elems(tokens);
        let ord = spec_check_order(e.0);
        if ord.0 is Some {
            (Some(ExpressionModel { tokens, root: Some(spec_zero_node()) }), e.1 + ord.1)
        } else {
            let d = spec_divide_first(e.0);
            (Some(ExpressionModel { tokens, root: Some(d.0) }), e.1 + ord.1 + d.1)
        }
    }
}

} // verus!

verus! {

/// The zero literal standing in for a failed sub-expression.
fn zero_node() -> (r: Node)
    ensures
        r.model() == spec_zero_node(),
{
    Node::Number(String::from_str("0"))
}

/// Clones the elements `[a, b)` of a list.
fn elems_slice(elems: &Vec<ExpressionElement>, a: usize, b: usize) -> (r: Vec<ExpressionElement>)
    requires
        a <= b <= elems@.len(),
    ensures
        elems_model(r@) == elems_model(elems@).subrange(a as int, b as int),
{
    let mut out: Vec<ExpressionElement> = Vec::new();
    let mut i: usize = a;
    proof {
        assert(elems_model(out@) =~= elems_model(elems@).subrange(a as int, a as int));
    }
    while i < b
        invariant
            a <= i <= b <= elems@.len(),
            elems_model(out@) =~= elems_model(elems@).subrange(a as int, i as int),
        decreases b - i,
    {
        let ghost out0 = elems_model(out@);
        out.push(elems[i].clone());
        i = i + 1;
        proof {
            assert(elems_model(out@) =~= out0.push(elems_model(elems@)[i - 1]));
            assert(elems_model(out@) =~= elems_model(elems@).subrange(a as int, i as int));
        }
    }
    out
}

/// Finds the symbol `op` as a plain element, searching from index one.
fn find_symbol_elem(elems: &Vec<ExpressionElement>, op: &str) -> (r: Option<usize>)
    ensures
        match r {
            Some(u) => spec_find_symbol_from(elems_model(elems@), op@, 1) == Some(u as int),
            None => spec_find_symbol_from(elems_model(elems@), op@, 1) is None,
        },
{
    let ghost all = elems_model(elems@);
    let mut i: usize = 1;
    while i < elems.len()
        invariant
            1 <= i,
            all == elems_model(elems@),
            spec_find_symbol_from(all, op@, 1) == spec_find_symbol_from(all, op@, i as int),
        decreases elems.len() - i,
    {
        match &elems[i] {
            ExpressionElement::Common(token) => {
                if token.token_type == TokenType::Symbol && str_eq(token.value.as_str(), op) {
                    return Some(i);
                }
            },
            ExpressionElement::Postfix(_, _) => {},
        }
        i = i + 1;
    }
    None
}

/// Finds the binary operator the tree builder splits at: operators in their
/// fixed order, each searched left to right, the first hit winning.
fn find_bin_op(elems: &Vec<ExpressionElement>) -> (r: Option<(&'static str, usize)>)
    ensures
        match r {
            Some(hit) => spec_find_bin(elems_model(elems@)) == Some((hit.0@, hit.1 as int)),
            None => spec_find_bin(elems_model(elems@)) is None,
        },
{
    let ghost all = elems_model(elems@);
    proof {
        assert(spec_bin_ops()[0] == "=="@);
        assert(spec_bin_ops()[1] == "!="@);
        assert(spec_bin_ops()[2] == "<="@);
        assert(spec_bin_ops()[3] == "<"@);
        assert(spec_bin_ops()[4] == ">="@);
        assert(spec_bin_ops()[5] == ">"@);
        assert(spec_bin_ops()[6] == "+"@);
        assert(spec_bin_ops()[7] == "-"@);
        assert(spec_bin_ops()[8] == "*"@);
        assert(spec_bin_ops()[9] == "/"@);
    }
    match find_symbol_elem(elems, "==") {
        Some(i) => {
            return Some(("==", i));
        },
        None => {},
    }
    proof {
        assert(spec_find_bin_from(all, 0) == spec_find_bin_from(all, 1));
    }
    match find_symbol_elem(elems, "!=") {
        Some(i) => {
            return Some(("!=", i));
        },
        None => {},
    }
    proof {
        assert(spec_find_bin_from(all, 1) == spec_find_bin_from(all, 2));
    }
    match find_symbol_elem(elems, "<=") {
        Some(i) => {
            return Some(("<=", i));
        },
        None => {},
    }
    proof {
        assert(spec_find_bin_from(all, 2) == spec_find_bin_from(all, 3));
    }
    match find_symbol_elem(elems, "<") {
        Some(i) => {
            return Some(("<", i));
        },
        None => {},
    }
    proof {
        assert(spec_find_bin_from(all, 3) == spec_find_bin_from(all, 4));
    }
    match find_symbol_elem(elems, ">=") {
        Some(i) => {
            return Some((">=", i));
        },
        None => {},
    }
    proof {
        assert(spec_find_bin_from(all, 4) == spec_find_bin_from(all, 5));
    }
    match find_symbol_elem(elems, ">") {
        Some(i) => {
            return Some((">", i));
        },
        None => {},
    }
    proof {
        assert(spec_find_bin_from(all, 5) == spec_find_bin_from(all, 6));
    }
    match find_symbol_elem(elems, "+") {
        Some(i) => {
            return Some(("+", i));
        },
        None => {},
    }
    proof {
        assert(spec_find_bin_from(all, 6) == spec_find_bin_from(all, 7));
    }
    match find_symbol_elem(elems, "-") {
        Some(i) => {
            return Some(("-", i));
        },
        None => {},
    }
    proof {
        assert(spec_find_bin_from(all, 7) == spec_find_bin_from(all, 8));
    }
    match find_symbol_elem(elems, "*") {
        Some(i) => {
            return Some(("*", i));
        },
        None => {},
    }
    proof {
        assert(spec_find_bin_from(all, 8) == spec_find_bin_from(all, 9));
    }
    match find_symbol_elem(elems, "/") {
        Some(i) => {
            return Some(("/", i));
        },
        None => {},
    }
    proof {
        assert(spec_find_bin_from(all, 9) == spec_find_bin_from(all, 10));
    }
    None
}

/// Splits the elements at the binary operator standing at `operators_index`
/// and applies it to the trees of the two sides.
pub fn divide_elems_by_bin_operator(
    elems: &Vec<ExpressionElement>,
    operator: &str,
    operators_index: usize,
    errs_acc: &mut Vec<ErrorEntry>,
) -> (r: Node)
    ensures
        r.model() == spec_divide_bin(elems_model(elems@), operator@, operators_index as int).0,
        final(errs_acc).deep_view() == old(errs_acc).deep_view() + spec_divide_bin(
            elems_model(elems@),
            operator@,
            operators_index as int,
        ).1,
    decreases elems_weight(elems_model(elems@)), 0nat, 0nat,
{
    broadcast use lemma_nodes_model;

    let ghost all = elems_model(elems@);
    if operators_index >= elems.len() {
        proof {
            assert(errs_acc.deep_view() + Seq::<ErrorModel>::empty() =~= errs_acc.deep_view());
        }
        return zero_node();
    }
    proof {
        lemma_weight_element(all, operators_index as int);
        lemma_elem_weight_pos(all[operators_index as int]);
        assert(all.take(operators_index as int) =~= all.subrange(0, operators_index as int));
        assert(all.skip(operators_index + 1) =~= all.subrange(
            operators_index + 1,
            all.len() as int,
        ));
    }
    let left = elems_slice(elems, 0, operators_index);
    let right = elems_slice(elems, operators_index + 1, elems.len());
    let left_node = divide_elems_by_first_priority_operator(&left, errs_acc);
    let right_node = divide_elems_by_first_priority_operator(&right, errs_acc);
    let mut nodes: Vec<Node> = Vec::new();
    nodes.push(left_node);
    nodes.push(right_node);
    let r = Node::Operator(OperatorNode { name: String::from_str(operator), nodes });
    proof {
        assert(nodes_model(r->Operator_0.nodes@) =~= seq![
            spec_divide_first(all.take(operators_index as int)).0,
            spec_divide_first(all.skip(operators_index + 1)).0,
        ]);
        assert(errs_acc.deep_view() =~= old(errs_acc).deep_view() + spec_divide_bin(
            all,
            operator@,
            operators_index as int,
        ).1);
    }
    r
}

/// Applies a leading unary operator to the tree of what follows it; nothing
/// when nothing follows.
pub fn divide_elems_by_un_operator(
    elems: &Vec<ExpressionElement>,
    operator: &str,
    errs_acc: &mut Vec<ErrorEntry>,
) -> (r: Option<Node>)
    ensures
        match spec_divide_un(elems_model(elems@), operator@) {
            Some(d) => r matches Some(n) && n.model() == d.0 && final(errs_acc).deep_view() == old(
                errs_acc,
            ).deep_view() + d.1,
            None => r is None && final(errs_acc).deep_view() == old(errs_acc).deep_view(),
        },
    decreases elems_weight(elems_model(elems@)), 0nat, 0nat,
{
    broadcast use lemma_nodes_model;

    let ghost all = elems_model(elems@);
    if elems.len() == 0 {
        return None;
    }
    proof {
        lemma_weight_unfold(all);
        lemma_elem_weight_pos(all.first());
        assert(all.drop_first() =~= all.skip(1));
        assert(all.skip(1) =~= all.subrange(1, all.len() as int));
    }
    let right = elems_slice(elems, 1, elems.len());
    if right.len() == 0 {
        return None;
    }
    let node = divide_elems_by_first_priority_operator(&right, errs_acc);
    let mut nodes: Vec<Node> = Vec::new();
    nodes.push(node);
    let r = Node::Operator(OperatorNode { name: String::from_str(operator), nodes });
    proof {
        assert(nodes_model(r->Operator_0.nodes@) =~= seq![spec_divide_first(all.skip(1)).0]);
    }
    Some(r)
}

/// Builds the argument trees of the groups `[k, ...)` onto `out`.
fn build_arg_nodes(
    groups: &Vec<Vec<ExpressionElement>>,
    k: usize,
    out: &mut Vec<Node>,
    errs_acc: &mut Vec<ErrorEntry>,
)
    ensures
        nodes_model(final(out)@) == nodes_model(old(out)@) + spec_build_args(
            groups_model(groups@),
            k as int,
        ).0,
        final(errs_acc).deep_view() == old(errs_acc).deep_view() + spec_build_args(
            groups_model(groups@),
            k as int,
        ).1,
    decreases groups_weight(groups_model(groups@)), 2nat, groups@.len() - k,
{
    broadcast use lemma_nodes_model;

    let ghost gs = groups_model(groups@);
    if k >= groups.len() {
        proof {
            assert(nodes_model(out@) + Seq::<NodeModel>::empty() =~= nodes_model(out@));
            assert(errs_acc.deep_view() + Seq::<ErrorModel>::empty() =~= errs_acc.deep_view());
        }
        return ;
    }
    proof {
        lemma_groups_weight_element(gs, k as int);
        assert(gs[k as int] == elems_model(groups@[k as int]@));
    }
    let node = divide_elems_by_first_priority_operator(&groups[k], errs_acc);
    let ghost out0 = nodes_model(out@);
    out.push(node);
    proof {
        assert(nodes_model(out@) =~= out0.push(spec_divide_first(gs[k as int]).0));
    }
    build_arg_nodes(groups, k + 1, out, errs_acc);
    proof {
        assert(nodes_model(final(out)@) =~= nodes_model(old(out)@) + spec_build_args(
            gs,
            k as int,
        ).0);
        assert(final(errs_acc).deep_view() =~= old(errs_acc).deep_view() + spec_build_args(
            gs,
            k as int,
        ).1);
    }
}

/// Builds the tree of one parenthesized or call span: a call gets one
/// operand per top-level comma group; a plain span is order-validated and
/// must come to a single value.
pub fn process_postfix(
    exprs: &Vec<ExpressionElement>,
    func_call: Option<Token>,
    errs_acc: &mut Vec<ErrorEntry>,
) -> (r: Node)
    ensures
        r.model() == spec_process_postfix(elems_model(exprs@), opt_model(func_call)).0,
        final(errs_acc).deep_view() == old(errs_acc).deep_view() + spec_process_postfix(
            elems_model(exprs@),
            opt_model(func_call),
        ).1,
    decreases elems_weight(elems_model(exprs@)), 3nat, 0nat,
{
    let ghost all = elems_model(exprs@);
    proof {
        lemma_comma_weight(all, 0, Seq::empty());
        assert(all.skip(0) =~= all);
        assert(elems_weight(Seq::<ElemModel>::empty()) == 0);
    }
    let ghost errs_in = errs_acc.deep_view();
    match func_call {
        None => {
            let ord = check_expressions_order(exprs, errs_acc);
            match ord {
                Some(_) => zero_node(),
                None => {
                    let div = comma_divide(exprs);
                    if div.len() == 0 {
                        zero_node()
                    } else if div.len() == 1 {
                        let node = divide_elems_by_first_priority_operator(exprs, errs_acc);
                        proof {
                            assert(errs_acc.deep_view() =~= errs_in + (spec_check_order(all).1
                                + spec_divide_first(all).1));
                        }
                        node
                    } else {
                        proof {
                            if all.len() == 0 {
                                assert(spec_comma_divide(all).len() == 0);
                            }
                            assert(all[0] == exprs@[0].model());
                        }
                        let position = match exprs[0].get_first_token() {
                            Some(token) => token.position,
                            None => Position { line: 0, line_position: 0 },
                        };
                        proof {
                            assert(position == spec_elem_position(all[0]));
                        }
                        let args: Vec<String> = Vec::new();
                        let ghost before = errs_acc.deep_view();
                        proof {
                            assert(args.deep_view() =~= Seq::<Seq<char>>::empty());
                        }
                        errs_acc.push(
                            ErrorEntry::new(ErrorKind::ExpressionShouldRetNumber, &position, args),
                        );
                        proof {
                            let e_entry = spec_new_entry(
                                ErrorKind::ExpressionShouldRetNumber,
                                spec_elem_position(all[0]),
                                Seq::empty(),
                            );
                            assert(errs_acc.deep_view() =~= before.push(e_entry));
                            assert(before == errs_in + spec_check_order(all).1);
                            assert(errs_acc.deep_view() =~= errs_in + (spec_check_order(all).1
                                + seq![e_entry]));
                        }
                        zero_node()
                    }
                },
            }
        },
        Some(fc) => {
            let div = comma_divide(exprs);
            let mut nodes: Vec<Node> = Vec::new();
            proof {
                assert(nodes_model(nodes@) =~= Seq::<NodeModel>::empty());
            }
            build_arg_nodes(&div, 0, &mut nodes, errs_acc);
            proof {
                assert(Seq::<NodeModel>::empty() + spec_build_args(groups_model(div@), 0).0
                    =~= spec_build_args(groups_model(div@), 0).0);
                assert(errs_acc.deep_view() =~= errs_in + spec_build_args(
                    groups_model(div@),
                    0,
                ).1);
            }
            Node::Operator(OperatorNode { name: fc.value, nodes })
        },
    }
}

/// Builds the tree of an element list: split at the first binary operator by
/// descending priority, else at a leading unary `+`/`-`, else a lone word or
/// number is a leaf and a lone parenthesized or call span is expanded;
/// anything else is flagged and stands as the zero literal.
pub fn divide_elems_by_first_priority_operator(
    elems: &Vec<ExpressionElement>,
    errs_acc: &mut Vec<ErrorEntry>,
) -> (r: Node)
    ensures
        r.model() == spec_divide_first(elems_model(elems@)).0,
        final(errs_acc).deep_view() == old(errs_acc).deep_view() + spec_divide_first(
            elems_model(elems@),
        ).1,
    decreases elems_weight(elems_model(elems@)), 1nat, 0nat,
{
    let ghost all = elems_model(elems@);
    if elems.len() == 0 {
        let position = Position { line: 0, line_position: 0 };
        let args: Vec<String> = Vec::new();
        proof {
            assert(args.deep_view() =~= Seq::<Seq<char>>::empty());
        }
        errs_acc.push(ErrorEntry::new(ErrorKind::ExpressionShouldRetNumber, &position, args));
        return zero_node();
    }
    proof {
        lemma_find_bin(all, 0);
    }
    match find_bin_op(elems) {
        Some((operator, index)) => {
            return divide_elems_by_bin_operator(elems, operator, index, errs_acc);
        },
        None => {},
    }
    let mut unary: Option<&'static str> = None;
    match &elems[0] {
        ExpressionElement::Common(token) => {
            if token.token_type == TokenType::Symbol {
                if str_eq(token.value.as_str(), "+") {
                    unary = Some("+");
                } else if str_eq(token.value.as_str(), "-") {
                    unary = Some("-");
                }
            }
        },
        ExpressionElement::Postfix(_, _) => {},
    }
    match unary {
        Some(operator) => {
            let position = match &elems[0] {
                ExpressionElement::Common(token) => token.position,
                ExpressionElement::Postfix(_, _) => Position { line: 0, line_position: 0 },
            };
            match divide_elems_by_un_operator(elems, operator, errs_acc) {
                Some(node) => {
                    return node;
                },
                None => {
                    let args: Vec<String> = Vec::new();
                    proof {
                        assert(args.deep_view() =~= Seq::<Seq<char>>::empty());
                    }
                    errs_acc.push(
                        ErrorEntry::new(ErrorKind::NoVarAfterUnary, &position, args),
                    );
                    return zero_node();
                },
            }
        },
        None => {},
    }
    let ghost errs_before_extra = errs_acc.deep_view();
    if elems.len() > 1 {
        let position = match elems[0].get_first_token() {
            Some(token) => token.position,
            None => Position { line: 0, line_position: 0 },
        };
        let args: Vec<String> = Vec::new();
        proof {
            assert(args.deep_view() =~= Seq::<Seq<char>>::empty());
        }
        errs_acc.push(ErrorEntry::new(ErrorKind::ExpressionShouldRetNumber, &position, args));
    }
    match &elems[0] {
        ExpressionElement::Common(token) => {
            if token.token_type == TokenType::Word || token.token_type == TokenType::Number {
                Node::Number(token.value.clone())
            } else {
                let mut args: Vec<String> = Vec::new();
                args.push(token.value.clone());
                proof {
                    assert(args.deep_view() =~= seq![all[0]->Common_0.text]);
                }
                errs_acc.push(ErrorEntry::new(ErrorKind::ExpectedNumVar, &token.position, args));
                zero_node()
            }
        },
        ExpressionElement::Postfix(tokens, fn_call) => {
            proof {
                lemma_elems_weight(all[0]->Postfix_0, 0, 0, Seq::empty(), None, Seq::empty());
                lemma_weight_unfold(all);
                assert(tokens.deep_view() == all[0]->Postfix_0);
            }
            let inner = get_expression_elems(tokens, errs_acc);
            let fc = match fn_call {
                Some(t) => Some(t.clone()),
                None => None,
            };
            proof {
                assert(opt_model(fc) == all[0]->Postfix_1);
            }
            let node = process_postfix(&inner, fc, errs_acc);
            node
        },
    }
}

/// Parses a token slice into an expression tree, accumulating the
/// diagnostics; no expression comes back only for an empty slice, and a
/// slice whose element order is invalid comes back as the zero literal.
pub fn get_expression(tokens: &Vec<Token>, errs_acc: &mut Vec<ErrorEntry>) -> (r: Option<Expression>)
    ensures
        match spec_get_expression(tokens.deep_view()).0 {
            Some(m) => r matches Some(e) && e.model() == m,
            None => r is None,
        },
        final(errs_acc).deep_view() == old(errs_acc).deep_view() + spec_get_expression(
            tokens.deep_view(),
        ).1,
{
    let ghost all = tokens.deep_view();
    if tokens.len() == 0 {
        proof {
            assert(errs_acc.deep_view() + Seq::<ErrorModel>::empty() =~= errs_acc.deep_view());
        }
        return None;
    }
    let elems = get_expression_elems(tokens, errs_acc);
    let ord = check_expressions_order(&elems, errs_acc);
    match ord {
        Some(_) => {
            proof {
                assert(errs_acc.deep_view() =~= old(errs_acc).deep_view() + spec_get_expression(
                    all,
                ).1);
            }
            Some(Expression { tokens: clone_tokens(tokens), root: Some(zero_node()) })
        },
        None => {
            let root = divide_elems_by_first_priority_operator(&elems, errs_acc);
            proof {
                assert(errs_acc.deep_view() =~= old(errs_acc).deep_view() + spec_get_expression(
                    all,
                ).1);
            }
            Some(Expression { tokens: clone_tokens(tokens), root: Some(root) })
        },
    }
}

} // verus!

verus! {

/// The textual form of a node: a leaf is its own text; an application is its
/// name, then its operands bracketed and separated by single blanks.
pub open spec fn spec_node_text(n: NodeModel) -> Seq<char>
    decreases n, 0nat,
{
    match n {
        NodeModel::Number(t) => t,
        NodeModel::Operator(name, nodes) => name + seq!['['] + spec_nodes_join(nodes) + seq![']'],
    }
}

/// The operand texts joined by single blanks.
pub open spec fn spec_nodes_join(nodes: Seq<NodeModel>) -> Seq<char>
    decreases nodes, 2nat,
{
    if nodes.len() == 0 {
        Seq::empty()
    } else {
        spec_node_text(nodes.first()) + spec_nodes_rest(nodes.drop_first())
    }
}

/// The blank-prefixed texts of the operands after the first.
pub open spec fn spec_nodes_rest(nodes: Seq<NodeModel>) -> Seq<char>
    decreases nodes, 1nat,
{
    if nodes.len() == 0 {
        Seq::empty()
    } else {
        seq![' '] + spec_node_text(nodes.first()) + spec_nodes_rest(nodes.drop_first())
    }
}

/// The blank-prefixed texts of the operands from index `i` on.
fn nodes_rest_text(nodes: &Vec<Node>, i: usize) -> (r: String)
    requires
        i <= nodes@.len(),
    ensures
        r@ == spec_nodes_rest(nodes_model(nodes@).skip(i as int)),
    decreases nodes, 1nat, nodes@.len() - i,
{
    broadcast use lemma_nodes_model;

    let ghost all = nodes_model(nodes@);
    if i >= nodes.len() {
        proof {
            assert(all.skip(i as int) =~= Seq::<NodeModel>::empty());
        }
        return String::new();
    }
    proof {
        assert(all.skip(i as int).first() == all[i as int]);
        assert(all.skip(i as int).drop_first() =~= all.skip(i as int + 1));
    }
    let mut s = String::new();
    push_char(&mut s, ' ');
    let head = node_to_str(&nodes[i]);
    s.append(head.as_str());
    let rest = nodes_rest_text(nodes, i + 1);
    s.append(rest.as_str());
    proof {
        assert(s@ =~= spec_nodes_rest(all.skip(i as int)));
    }
    s
}

/// Renders a node: a leaf as its own text, an application as
/// `name[operand operand ...]`.
pub fn node_to_str(node: &Node) -> (r: String)
    ensures
        r@ == spec_node_text(node.model()),
    decreases *node, 0nat, 0nat,
{
    broadcast use lemma_nodes_model;

    match node {
        Node::Number(num) => num.clone(),
        Node::Operator(op) => {
            let mut s = op.name.clone();
            push_char(&mut s, '[');
            if op.nodes.len() > 0 {
                proof {
                    assert(nodes_model(op.nodes@).first() == nodes_model(op.nodes@)[0]);
                    assert(nodes_model(op.nodes@).drop_first() =~= nodes_model(op.nodes@).skip(1));
                }
                let head = node_to_str(&op.nodes[0]);
                s.append(head.as_str());
                let rest = nodes_rest_text(&op.nodes, 1);
                s.append(rest.as_str());
            }
            push_char(&mut s, ']');
            proof {
                if op.nodes@.len() == 0 {
                    assert(spec_nodes_join(nodes_model(op.nodes@)) =~= Seq::<char>::empty());
                }
                assert(s@ =~= spec_node_text(node.model()));
            }
            s
        },
    }
}

/// Clones a node tree, keeping its content.
pub fn clone_node(node: &Node) -> (r: Node)
    ensures
        r.model() == node.model(),
    decreases *node, 0nat, 0nat,
{
    broadcast use lemma_nodes_model;

    match node {
        Node::Number(num) => Node::Number(num.clone()),
        Node::Operator(op) => {
            let mut nodes: Vec<Node> = Vec::new();
            proof {
                assert(nodes_model(nodes@) =~= Seq::<NodeModel>::empty());
            }
            clone_nodes_from(&op.nodes, 0, &mut nodes);
            proof {
                assert(nodes_model(op.nodes@).skip(0) =~= nodes_model(op.nodes@));
                assert(Seq::<NodeModel>::empty() + nodes_model(op.nodes@) =~= nodes_model(
                    op.nodes@,
                ));
            }
            Node::Operator(OperatorNode { name: op.name.clone(), nodes })
        },
    }
}

/// Clones the nodes from index `i` on onto `out`.
fn clone_nodes_from(nodes: &Vec<Node>, i: usize, out: &mut Vec<Node>)
    requires
        i <= nodes@.len(),
    ensures
        nodes_model(final(out)@) == nodes_model(old(out)@) + nodes_model(nodes@).skip(i as int),
    decreases nodes, 1nat, nodes@.len() - i,
{
    broadcast use lemma_nodes_model;

    let ghost all = nodes_model(nodes@);
    if i >= nodes.len() {
        proof {
            assert(all.skip(i as int) =~= Seq::<NodeModel>::empty());
            assert(nodes_model(out@) + Seq::<NodeModel>::empty() =~= nodes_model(out@));
        }
        return ;
    }
    let ghost out0 = nodes_model(out@);
    let cloned = clone_node(&nodes[i]);
    out.push(cloned);
    proof {
        assert(nodes_model(out@) =~= out0.push(all[i as int]));
    }
    clone_nodes_from(nodes, i + 1, out);
    proof {
        assert(out0.push(all[i as int]) + all.skip(i as int + 1) =~= out0 + all.skip(i as int));
    }
}

impl Clone for Node {
    fn clone(&self) -> (r: Self)
        ensures
            r.model() == self.model(),
    {
        clone_node(self)
    }
}

impl Clone for Expression {
    fn clone(&self) -> (r: Self)
        ensures
            r.model() == self.model(),
    {
        Expression {
            tokens: clone_tokens(&self.tokens),
            root: match &self.root {
                Some(n) => Some(clone_node(n)),
                None => None,
            },
        }
    }
}

/// Clones a list of expressions, keeping its content.
pub fn clone_expressions(items: &Vec<Expression>) -> (r: Vec<Expression>)
    ensures
        expressions_model(r@) == expressions_model(items@),
{
    let mut out: Vec<Expression> = Vec::new();
    let mut i: usize = 0;
    while i < items.len()
        invariant
            i <= items.len(),
            expressions_model(out@) =~= expressions_model(items@).take(i as int),
        decreases items.len() - i,
    {
        let ghost out0 = expressions_model(out@);
        out.push(items[i].clone());
        i = i + 1;
        proof {
            assert(expressions_model(out@) =~= out0.push(expressions_model(items@)[i - 1]));
            assert(expressions_model(out@) =~= expressions_model(items@).take(i as int));
        }
    }
    proof {
        assert(expressions_model(items@).take(items@.len() as int) =~= expressions_model(items@));
    }
    out
}

/// The models of a list of expressions.
pub open spec fn expressions_model(items: Seq<Expression>) -> Seq<ExpressionModel> {
    Seq::new(items.len(), |i: int| items[i].model())
}

} // verus!
