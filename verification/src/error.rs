//! Position-tagged diagnostics. Every stage appends to a shared accumulator
//! and keeps producing a best-effort result; entries are never mutated after
//! creation.

use vstd::prelude::*;
use vstd::string::StringExecFns;
use crate::position::Position;
use crate::text::push_char;
use crate::text::decimal_text;
use crate::text::spec_decimal;
use crate::text::replace_all;
use crate::text::spec_replace;

verus! {

/// The closed set of diagnostics the pipeline can report.
#[derive(Clone, Copy, PartialEq, Eq, Structural, Debug)]
pub enum ErrorKind {
    UndefinedSymbol,
    UnfinishedCommand,
    OpenClosedBrackets,
    UndefinedStatement,
    NameKeyword,
    NoSubstatements,
    AreSubstatements,
    WrongCommandSemantic,
    InvalidName,
    UnexpectedSymbol,
    SymbolNotFound,
    UndefinedUnaryOperator,
    ExpressionLastSymbol,
    ExpectedBinaryOperator,
    ExpectedNumVar,
    ExpressionShouldRetNumber,
    NoVarAfterUnary,
}

/// A diagnostic's stable code and its message template. Placeholders
/// `~1~, ~2~, ...` in the template are substituted positionally.
pub struct Error {
    pub code: &'static str,
    pub message: &'static str,
}

impl ErrorKind {
    /// The stable code of this diagnostic.
    pub open spec fn spec_code(self) -> Seq<char> {
        match self {
            ErrorKind::UndefinedSymbol => "STX001"@,
            ErrorKind::UnfinishedCommand => "STX002"@,
            ErrorKind::OpenClosedBrackets => "STX003"@,
            ErrorKind::UndefinedStatement => "STX004"@,
            ErrorKind::NameKeyword => "STX005"@,
            ErrorKind::NoSubstatements => "STX006"@,
            ErrorKind::AreSubstatements => "STX007"@,
            ErrorKind::WrongCommandSemantic => "STX008"@,
            ErrorKind::InvalidName => "STX009"@,
            ErrorKind::UnexpectedSymbol => "STX010"@,
            ErrorKind::SymbolNotFound => "STX011"@,
            ErrorKind::UndefinedUnaryOperator => "STX012"@,
            ErrorKind::ExpressionLastSymbol => "STX013"@,
            ErrorKind::ExpectedBinaryOperator => "STX014"@,
            ErrorKind::ExpectedNumVar => "STX015"@,
            ErrorKind::ExpressionShouldRetNumber => "STX016"@,
            ErrorKind::NoVarAfterUnary => "STX017"@,
        }
    }

    /// The message template of this diagnostic.
    pub open spec fn spec_message(self) -> Seq<char> {
        match self {
            ErrorKind::UndefinedSymbol => "Undefined symbol: '~1~'. "@,
            ErrorKind::UnfinishedCommand => "Unfinished command. Missing separator. "@,
            ErrorKind::OpenClosedBrackets => "Discrepancy in the number of open and closed brackets. "@,
            ErrorKind::UndefinedStatement => "Undefined statement: '~1~'. "@,
            ErrorKind::NameKeyword => "Expected unqualified-id, found '~1~'. "@,
            ErrorKind::NoSubstatements => "This statement should have substatements. "@,
            ErrorKind::AreSubstatements => "This statement shouldn't have substatements. "@,
            ErrorKind::WrongCommandSemantic => "Wrong statement semantic. Expected: '~1~'. "@,
            ErrorKind::InvalidName => "Invalid name: '~1~'. "@,
            ErrorKind::UnexpectedSymbol => "Expected '~1~', found '~2~'. "@,
            ErrorKind::SymbolNotFound => "Symbol '~1~' not found. "@,
            ErrorKind::UndefinedUnaryOperator => "Undefined unary operator '~1~'. "@,
            ErrorKind::ExpressionLastSymbol => "Last element of expression can't be an operator. "@,
            ErrorKind::ExpectedBinaryOperator => "Expected binary operator, found '~1~'. "@,
            ErrorKind::ExpectedNumVar => "Expected number or variable, found '~1~'. "@,
            ErrorKind::ExpressionShouldRetNumber => "Expression should return a number. "@,
            ErrorKind::NoVarAfterUnary => "No statement after unary operator. "@,
        }
    }

    /// The code and message template that belong to this diagnostic kind.
    pub fn info(&self) -> (r: Error)
        ensures
            r.code@ == self.spec_code(),
            r.message@ == self.spec_message(),
    {
        match self {
            ErrorKind::UndefinedSymbol => Error {
                code: "STX001",
                message: "Undefined symbol: '~1~'. ",
            },
            ErrorKind::UnfinishedCommand => Error {
                code: "STX002",
                message: "Unfinished command. Missing separator. ",
            },
            ErrorKind::OpenClosedBrackets => Error {
                code: "STX003",
                message: "Discrepancy in the number of open and closed brackets. ",
            },
            ErrorKind::UndefinedStatement => Error {
                code: "STX004",
                message: "Undefined statement: '~1~'. ",
            },
            ErrorKind::NameKeyword => Error {
                code: "STX005",
                message: "Expected unqualified-id, found '~1~'. ",
            },
            ErrorKind::NoSubstatements => Error {
                code: "STX006",
                message: "This statement should have substatements. ",
            },
            ErrorKind::AreSubstatements => Error {
                code: "STX007",
                message: "This statement shouldn't have substatements. ",
            },
            ErrorKind::WrongCommandSemantic => Error {
                code: "STX008",
                message: "Wrong statement semantic. Expected: '~1~'. ",
            },
            ErrorKind::InvalidName => Error { code: "STX009", message: "Invalid name: '~1~'. " },
            ErrorKind::UnexpectedSymbol => Error {
                code: "STX010",
                message: "Expected '~1~', found '~2~'. ",
            },
            ErrorKind::SymbolNotFound => Error {
                code: "STX011",
                message: "Symbol '~1~' not found. ",
            },
            ErrorKind::UndefinedUnaryOperator => Error {
                code: "STX012",
                message: "Undefined unary operator '~1~'. ",
            },
            ErrorKind::ExpressionLastSymbol => Error {
                code: "STX013",
                message: "Last element of expression can't be an operator. ",
            },
            ErrorKind::ExpectedBinaryOperator => Error {
                code: "STX014",
                message: "Expected binary operator, found '~1~'. ",
            },
            ErrorKind::ExpectedNumVar => Error {
                code: "STX015",
                message: "Expected number or variable, found '~1~'. ",
            },
            ErrorKind::ExpressionShouldRetNumber => Error {
                code: "STX016",
                message: "Expression should return a number. ",
            },
            ErrorKind::NoVarAfterUnary => Error {
                code: "STX017",
                message: "No statement after unary operator. ",
            },
        }
    }
}

/// One recorded diagnostic: its kind, the position it points at, its
/// positional arguments, and the source label applied for display.
#[derive(Debug)]
pub struct ErrorEntry {
    pub kind: ErrorKind,
    pub position: Position,
    pub args: Vec<String>,
    pub file_name: String,
}

/// The mathematical content of a recorded diagnostic.
#[verifier::ext_equal]
pub struct ErrorModel {
    pub kind: ErrorKind,
    pub position: Position,
    pub args: Seq<Seq<char>>,
    pub file_name: Seq<char>,
}

impl View for ErrorEntry {
    type V = ErrorModel;

    open spec fn view(&self) -> ErrorModel {
        ErrorModel {
            kind: self.kind,
            position: self.position,
            args: self.args.deep_view(),
            file_name: self.file_name@,
        }
    }
}

impl DeepView for ErrorEntry {
    type V = ErrorModel;

    open spec fn deep_view(&self) -> ErrorModel {
        self.view()
    }
}

impl Clone for ErrorEntry {
    fn clone(&self) -> (r: Self)
        ensures
            r@ == self@,
    {
        let r = ErrorEntry {
            kind: self.kind,
            position: self.position,
            args: clone_strings(&self.args),
            file_name: self.file_name.clone(),
        };
        proof {
            assert(r@ =~= self@);
        }
        r
    }
}

/// Clones a list of strings, keeping its content.
pub fn clone_strings(items: &Vec<String>) -> (r: Vec<String>)
    ensures
        r.deep_view() == items.deep_view(),
{
    let mut out: Vec<String> = Vec::new();
    let mut i: usize = 0;
    while i < items.len()
        invariant
            i <= items.len(),
            out.deep_view() =~= items.deep_view().take(i as int),
        decreases items.len() - i,
    {
        let ghost prev = out.deep_view();
        out.push(items[i].clone());
        i = i + 1;
        proof {
            assert(out.deep_view() =~= prev.push(items@[i - 1]@));
            assert(prev.push(items@[i - 1]@) =~= items.deep_view().take(i as int));
        }
    }
    proof {
        assert(items.deep_view().take(items.len() as int) =~= items.deep_view());
    }
    out
}

/// The model of a freshly created entry: no source label yet.
pub open spec fn spec_new_entry(kind: ErrorKind, position: Position, args: Seq<Seq<char>>) -> ErrorModel {
    ErrorModel { kind, position, args, file_name: Seq::empty() }
}

impl ErrorEntry {
    /// Records a diagnostic of the given kind at the given position, with no
    /// source label yet.
    pub fn new(kind: ErrorKind, position: &Position, args: Vec<String>) -> (r: ErrorEntry)
        ensures
            r@ == spec_new_entry(kind, *position, args.deep_view()),
    {
        let r = ErrorEntry { kind, position: *position, args, file_name: String::new() };
        proof {
            assert(r@ =~= spec_new_entry(kind, *position, r.args.deep_view()));
        }
        r
    }

    /// Substitutes the entry's arguments into its message template,
    /// `~k~` standing for the k-th argument.
    pub fn render_message(&self) -> (r: String)
        ensures
            r@ == spec_substitute(self.kind.spec_message(), self@.args, 0),
    {
        let info = self.kind.info();
        let mut msg = String::from_str(info.message);
        let mut i: usize = 0;
        while i < self.args.len()
            invariant
                i <= self.args.len(),
                spec_substitute(self.kind.spec_message(), self@.args, 0) == spec_substitute(
                    msg@,
                    self@.args,
                    i as int,
                ),
            decreases self.args.len() - i,
        {
            let mut pattern = String::new();
            push_char(&mut pattern, '~');
            let number = decimal_text(i as u128 + 1);
            pattern.append(number.as_str());
            push_char(&mut pattern, '~');
            proof {
                assert(pattern@ =~= spec_placeholder(i as int + 1));
                assert(pattern@.len() >= 1);
            }
            msg = replace_all(msg.as_str(), pattern.as_str(), self.args[i].as_str());
            i = i + 1;
        }
        msg
    }
}

/// The placeholder `~k~`.
pub open spec fn spec_placeholder(k: int) -> Seq<char> {
    seq!['~'] + spec_decimal(k as nat) + seq!['~']
}

/// The message after substituting arguments `i, i+1, ...` (zero-based) for
/// their placeholders, in order.
pub open spec fn spec_substitute(msg: Seq<char>, args: Seq<Seq<char>>, i: int) -> Seq<char>
    decreases args.len() - i,
{
    if 0 <= i < args.len() {
        spec_substitute(spec_replace(msg, spec_placeholder(i + 1), args[i]), args, i + 1)
    } else {
        msg
    }
}

/// The same entries with the given source label applied; everything else is
/// kept.
pub open spec fn spec_apply_file_name(errs: Seq<ErrorModel>, file_name: Seq<char>) -> Seq<ErrorModel> {
    errs.map_values(
        |e: ErrorModel|
            ErrorModel { kind: e.kind, position: e.position, args: e.args, file_name },
    )
}

/// Returns a new list in which every entry carries the given source label;
/// the entries themselves are not mutated.
pub fn apply_file_name(errs: &Vec<ErrorEntry>, file_name: &String) -> (r: Vec<ErrorEntry>)
    ensures
        r.deep_view() == spec_apply_file_name(errs.deep_view(), file_name@),
{
    let mut out: Vec<ErrorEntry> = Vec::new();
    let mut i: usize = 0;
    while i < errs.len()
        invariant
            i <= errs.len(),
            out.deep_view() =~= spec_apply_file_name(errs.deep_view(), file_name@).take(i as int),
        decreases errs.len() - i,
    {
        let e = &errs[i];
        let ghost prev = out.deep_view();
        out.push(
            ErrorEntry {
                kind: e.kind,
                position: e.position,
                args: clone_strings(&e.args),
                file_name: file_name.clone(),
            },
        );
        i = i + 1;
        proof {
            assert(out.deep_view() =~= prev.push(
                spec_apply_file_name(errs.deep_view(), file_name@)[i - 1],
            ));
            assert(out.deep_view() =~= spec_apply_file_name(errs.deep_view(), file_name@).take(
                i as int,
            ));
        }
    }
    proof {
        let ghost full = spec_apply_file_name(errs.deep_view(), file_name@);
        assert(full.take(full.len() as int) =~= full);
    }
    out
}

} // verus!
