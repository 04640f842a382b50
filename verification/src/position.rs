//! Zero-based source positions, rendered one-based for humans.

use vstd::prelude::*;
use vstd::string::StringExecFns;
use crate::text::push_char;
use crate::text::decimal_text;
use crate::text::spec_decimal;

verus! {

/// A zero-based line and column in the source text.
#[derive(Clone, Copy, PartialEq, Eq, Structural, Debug)]
pub struct Position {
    pub line: usize,
    pub line_position: usize,
}

/// The one-based rendering of a position, `(line, column)`.
pub open spec fn spec_position_text(p: Position) -> Seq<char> {
    seq!['('] + spec_decimal((p.line + 1) as nat) + seq![',', ' '] + spec_decimal(
        (p.line_position + 1) as nat,
    ) + seq![')']
}

impl Position {
    /// Renders the position one-based, as `(line, column)`.
    pub fn to_text(&self) -> (r: String)
        ensures
            r@ == spec_position_text(*self),
    {
        let mut s = String::new();
        push_char(&mut s, '(');
        let line_text = decimal_text(self.line as u128 + 1);
        s.append(line_text.as_str());
        push_char(&mut s, ',');
        push_char(&mut s, ' ');
        let column_text = decimal_text(self.line_position as u128 + 1);
        s.append(column_text.as_str());
        push_char(&mut s, ')');
        proof {
            assert(s@ =~= spec_position_text(*self));
        }
        s
    }
}

} // verus!
