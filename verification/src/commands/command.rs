//! The closed command variants and the recognizer capability.

use vstd::prelude::*;
use crate::statement::Statement;
use crate::statement::StatementModel;
use crate::statement::clone_statement;
use crate::expression::Expression;
use crate::expression::ExpressionModel;
use crate::expression::clone_expressions;
use crate::expression::expressions_model;
use crate::error::ErrorEntry;
use crate::error::ErrorModel;
use crate::error::clone_strings;

verus! {

/// A validated `package` declaration.
#[derive(Debug)]
pub struct PackageCommand {
    pub statement: Statement,
    pub name: String,
}

/// A validated `import` declaration.
#[derive(Debug)]
pub struct ImportCommand {
    pub statement: Statement,
    pub package_name: String,
}

/// A validated `circuit` definition.
#[derive(Debug)]
pub struct CircleCommand {
    pub name: String,
    pub param_names: Vec<String>,
    pub statement: Statement,
    pub element_entries: Vec<ElementEntryCommand>,
}

/// A validated `element` definition.
#[derive(Debug)]
pub struct ElementCommand {
    pub name: String,
    pub param_names: Vec<String>,
    pub nodes: Vec<String>,
    pub element_entries: Vec<ElementEntryCommand>,
    pub statement: Statement,
}

/// A validated element instantiation inside a circuit or element body.
#[derive(Debug)]
pub struct ElementEntryCommand {
    pub entry_name: String,
    pub element_name: String,
    pub nodes: Vec<String>,
    pub param_expressions: Vec<Expression>,
    pub statement: Statement,
}

/// A validated `function` definition.
#[derive(Debug)]
pub struct FunctionCommand {
    pub name: String,
    pub param_names: Vec<String>,
    pub statement: Statement,
    pub expression: Expression,
}

/// A typed command, or `Unclaimed` when a recognizer does not claim a
/// statement; `Unclaimed` never stands in a final command list.
#[derive(Debug)]
pub enum Command {
    Unclaimed,
    Circle(CircleCommand),
    Element(ElementCommand),
    ElementEntry(ElementEntryCommand),
    Import(ImportCommand),
    Package(PackageCommand),
    Function(FunctionCommand),
}

/// The mathematical content of a `package` command.
#[verifier::ext_equal]
pub struct PackageModel {
    pub statement: StatementModel,
    pub name: Seq<char>,
}

/// The mathematical content of an `import` command.
#[verifier::ext_equal]
pub struct ImportModel {
    pub statement: StatementModel,
    pub package_name: Seq<char>,
}

/// The mathematical content of a `circuit` command.
#[verifier::ext_equal]
pub struct CircleModel {
    pub name: Seq<char>,
    pub param_names: Seq<Seq<char>>,
    pub statement: StatementModel,
    pub element_entries: Seq<ElementEntryModel>,
}

/// The mathematical content of an `element` command.
#[verifier::ext_equal]
pub struct ElementModel {
    pub name: Seq<char>,
    pub param_names: Seq<Seq<char>>,
    pub nodes: Seq<Seq<char>>,
    pub element_entries: Seq<ElementEntryModel>,
    pub statement: StatementModel,
}

/// The mathematical content of an element instantiation.
#[verifier::ext_equal]
pub struct ElementEntryModel {
    pub entry_name: Seq<char>,
    pub element_name: Seq<char>,
    pub nodes: Seq<Seq<char>>,
    pub param_expressions: Seq<ExpressionModel>,
    pub statement: StatementModel,
}

/// The mathematical content of a `function` command.
#[verifier::ext_equal]
pub struct FunctionModel {
    pub name: Seq<char>,
    pub param_names: Seq<Seq<char>>,
    pub statement: StatementModel,
    pub expression: ExpressionModel,
}

/// The mathematical content of a command.
#[verifier::ext_equal]
pub enum CommandModel {
    Unclaimed,
    Circle(CircleModel),
    Element(ElementModel),
    ElementEntry(ElementEntryModel),
    Import(ImportModel),
    Package(PackageModel),
    Function(FunctionModel),
}

impl ElementEntryCommand {
    /// The mathematical content of this entry.
    pub open spec fn model(&self) -> ElementEntryModel {
        ElementEntryModel {
            entry_name: self.entry_name@,
            element_name: self.element_name@,
            nodes: self.nodes.deep_view(),
            param_expressions: expressions_model(self.param_expressions@),
            statement: self.statement.model(),
        }
    }
}

/// The models of a list of element entries.
pub open spec fn entries_model(entries: Seq<ElementEntryCommand>) -> Seq<ElementEntryModel> {
    Seq::new(entries.len(), |i: int| entries[i].model())
}

impl Command {
    /// The mathematical content of this command.
    pub open spec fn model(&self) -> CommandModel {
        match self {
            Command::Unclaimed => CommandModel::Unclaimed,
            Command::Circle(c) => CommandModel::Circle(
                CircleModel {
                    name: c.name@,
                    param_names: c.param_names.deep_view(),
                    statement: c.statement.model(),
                    element_entries: entries_model(c.element_entries@),
                },
            ),
            Command::Element(c) => CommandModel::Element(
                ElementModel {
                    name: c.name@,
                    param_names: c.param_names.deep_view(),
                    nodes: c.nodes.deep_view(),
                    element_entries: entries_model(c.element_entries@),
                    statement: c.statement.model(),
                },
            ),
            Command::ElementEntry(c) => CommandModel::ElementEntry(c.model()),
            Command::Import(c) => CommandModel::Import(
                ImportModel { statement: c.statement.model(), package_name: c.package_name@ },
            ),
            Command::Package(c) => CommandModel::Package(
                PackageModel { statement: c.statement.model(), name: c.name@ },
            ),
            Command::Function(c) => CommandModel::Function(
                FunctionModel {
                    name: c.name@,
                    param_names: c.param_names.deep_view(),
                    statement: c.statement.model(),
                    expression: c.expression.model(),
                },
            ),
        }
    }
}

/// The models of a list of commands.
pub open spec fn commands_model(cmds: Seq<Command>) -> Seq<CommandModel> {
    Seq::new(cmds.len(), |i: int| cmds[i].model())
}

impl Clone for ElementEntryCommand {
    fn clone(&self) -> (r: Self)
        ensures
            r.model() == self.model(),
    {
        let r = ElementEntryCommand {
            entry_name: self.entry_name.clone(),
            element_name: self.element_name.clone(),
            nodes: clone_strings(&self.nodes),
            param_expressions: clone_expressions(&self.param_expressions),
            statement: clone_statement(&self.statement),
        };
        proof {
            assert(r.model() =~= self.model());
        }
        r
    }
}

/// A command recognizer: it claims a statement, producing a typed command
/// and appending its diagnostics, or it declines by returning the
/// `Unclaimed` command without touching the accumulator.
pub trait CommandRecognizer {
    /// The command and the diagnostics this recognizer produces for a
    /// statement.
    spec fn spec_from_statement(&self, stmt: StatementModel) -> (CommandModel, Seq<ErrorModel>);

    /// Tries to turn one statement into a command.
    fn from_statement(&self, statement: &Statement, errs_acc: &mut Vec<ErrorEntry>) -> (c: Command)
        ensures
            c.model() == self.spec_from_statement(statement.model()).0,
            final(errs_acc).deep_view() == old(errs_acc).deep_view() + self.spec_from_statement(
                statement.model(),
            ).1,
    ;
}

/// One construct-specific recognizer, named so that an ordered list of
/// recognizers can be passed around by value.
#[derive(Clone, Copy, PartialEq, Eq, Structural, Debug)]
pub enum RecognizerKind {
    Circle,
    Element,
    ElementEntry,
    Import,
    Package,
    Function,
}

} // verus!
