//! Statements: one command's tokens, its diverted comments, and its nested
//! substatements. A parent owns its substatements outright; the tree has no
//! sharing.

use vstd::prelude::*;
use crate::token::Token;
use crate::token::TokenModel;
use crate::token::clone_tokens;

verus! {

/// One statement of the source: its tokens (comments excluded), the comments
/// that sat among them, and the substatements of its brace block.
#[derive(Debug)]
pub struct Statement {
    pub tokens: Vec<Token>,
    pub substatements: Vec<Statement>,
    pub comments: Vec<Token>,
}

/// The mathematical content of a statement tree.
#[verifier::ext_equal]
pub struct StatementModel {
    pub tokens: Seq<TokenModel>,
    pub substatements: Seq<StatementModel>,
    pub comments: Seq<TokenModel>,
}

impl Statement {
    /// The mathematical content of this statement and everything below it.
    pub open spec fn model(&self) -> StatementModel
        decreases *self, 0nat,
    {
        StatementModel {
            tokens: self.tokens.deep_view(),
            substatements: statements_model(self.substatements@),
            comments: self.comments.deep_view(),
        }
    }
}

/// The models of a sequence of statements, in order.
pub open spec fn statements_model(statements: Seq<Statement>) -> Seq<StatementModel>
    decreases statements, 1nat,
{
    if statements.len() == 0 {
        Seq::empty()
    } else {
        statements_model(statements.drop_last()).push(statements.last().model())
    }
}

/// The model of a statement list is the list of the statements' models.
pub broadcast proof fn lemma_statements_model(statements: Seq<Statement>)
    ensures
        (#[trigger] statements_model(statements)).len() == statements.len(),
        forall|i: int|
            0 <= i < statements.len() ==> statements_model(statements)[i] == statements[i].model(),
    decreases statements.len(),
{
    if statements.len() > 0 {
        lemma_statements_model(statements.drop_last());
    }
}

/// Clones a statement tree, keeping its content.
pub fn clone_statement(statement: &Statement) -> (r: Statement)
    ensures
        r.model() == statement.model(),
    decreases *statement,
{
    broadcast use lemma_statements_model;

    let mut substatements: Vec<Statement> = Vec::new();
    let mut i: usize = 0;
    while i < statement.substatements.len()
        invariant
            i <= statement.substatements.len(),
            statements_model(substatements@) =~= statement.model().substatements.take(i as int),
        decreases statement.substatements.len() - i,
    {
        let ghost olds = substatements@;
        let sub = clone_statement(&statement.substatements[i]);
        substatements.push(sub);
        i = i + 1;
        proof {
            lemma_statements_model(statement.substatements@);
            lemma_statements_model(olds);
            lemma_statements_model(substatements@);
            assert(statements_model(substatements@) =~= statement.model().substatements.take(
                i as int,
            ));
        }
    }
    let r = Statement {
        tokens: clone_tokens(&statement.tokens),
        substatements,
        comments: clone_tokens(&statement.comments),
    };
    proof {
        lemma_statements_model(statement.substatements@);
        assert(statement.model().substatements.take(statement.substatements@.len() as int)
            =~= statement.model().substatements);
        assert(r.model() =~= statement.model());
    }
    r
}

impl Clone for Statement {
    fn clone(&self) -> (r: Self)
        ensures
            r.model() == self.model(),
    {
        clone_statement(self)
    }
}

} // verus!
