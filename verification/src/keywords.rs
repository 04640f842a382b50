//! The closed set of reserved words of the language.

use vstd::prelude::*;
use crate::text::str_eq;

verus! {

/// Whether `w` is one of the reserved words
/// `import`, `package`, `circuit`, `element`, `function`.
pub open spec fn spec_is_keyword(w: Seq<char>) -> bool {
    ||| w == "circuit"@
    ||| w == "element"@
    ||| w == "import"@
    ||| w == "package"@
    ||| w == "function"@
}

/// Tests membership in the reserved-word set.
pub fn is_keyword(word: &str) -> (r: bool)
    ensures
        r == spec_is_keyword(word@),
{
    str_eq(word, "circuit") || str_eq(word, "element") || str_eq(word, "import") || str_eq(
        word,
        "package",
    ) || str_eq(word, "function")
}

} // verus!
