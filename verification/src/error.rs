//! The error taxonomy of template expansion. Every error aborts the whole
//! expansion: there is no partial-result mode.

use vstd::prelude::*;

verus! {

/// A structured expansion failure.
#[derive(Debug, Clone, Copy, PartialEq, Eq, Structural)]
pub enum ExpansionError {
    /// A character not permitted in its current parse position: a reserved
    /// punctuation character inside a variable name, or a non-digit inside
    /// a max-length modifier. Carries the character and its column.
    InvalidCharacter(char, usize),
    /// An unterminated `{...}` group, a stray `}` with no matching open,
    /// or an empty variable specification inside a token.
    InvalidToken,
    /// The digits of a `:N` modifier do not fit in `usize`. Carries the
    /// column of the character that closed the token.
    InvalidMaxChars(usize),
    /// A bound value's shape is none of scalar, list or map. The core never
    /// produces this: its substitution values form a closed union. It is
    /// part of the taxonomy for adapter layers that convert open-ended
    /// structured data at the boundary.
    InvalidSubstitutionType,
    /// A max-length modifier was applied to a non-empty map value; value
    /// trimming is not allowed on maps.
    TrimNotAllowedOnMap,
}

} // verus!
