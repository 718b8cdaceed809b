//! The eight operators and their semantics: prefix character, separator
//! character, name form, and whether previously percent-encoded triples in
//! a value are preserved.

use crate::classify::spec_is_reserved_in_name;
use vstd::prelude::*;

verus! {

/// The operator of a token, fixed by the first character after `{`.
#[derive(Debug, Clone, Copy, PartialEq, Eq, Structural)]
pub enum Operator {
    NoOp,
    Plus,
    Hash,
    Dot,
    Slash,
    Semicolon,
    QuestionMark,
    Amp,
}

/// The operator selected by a character in the first position of a token,
/// if that character is one of the seven operator characters.
pub open spec fn spec_operator_of(c: char) -> Option<Operator> {
    if c == '+' {
        Some(Operator::Plus)
    } else if c == '#' {
        Some(Operator::Hash)
    } else if c == '.' {
        Some(Operator::Dot)
    } else if c == '/' {
        Some(Operator::Slash)
    } else if c == ';' {
        Some(Operator::Semicolon)
    } else if c == '?' {
        Some(Operator::QuestionMark)
    } else if c == '&' {
        Some(Operator::Amp)
    } else {
        None
    }
}

/// The prefix emitted before the first successfully expanded token of a
/// token group. `NoOp` and `Plus` have none.
pub open spec fn spec_prefix(op: Operator) -> Seq<char> {
    match op {
        Operator::NoOp => Seq::empty(),
        Operator::Plus => Seq::empty(),
        Operator::Hash => seq!['#'],
        Operator::Dot => seq!['.'],
        Operator::Slash => seq!['/'],
        Operator::Semicolon => seq![';'],
        Operator::QuestionMark => seq!['?'],
        Operator::Amp => seq!['&'],
    }
}

/// The separator emitted before every later successfully expanded token,
/// and between the elements of a composite list or map.
pub open spec fn spec_separator(op: Operator) -> char {
    match op {
        Operator::Dot => '.',
        Operator::Slash => '/',
        Operator::Semicolon => ';',
        Operator::QuestionMark => '&',
        Operator::Amp => '&',
        _ => ',',
    }
}

/// True for the reserved-preserving operators `Plus` and `Hash`: under
/// them a `%XX` triple already present in a value is copied through
/// unchanged instead of having its `%` re-encoded.
pub open spec fn spec_preserves_encoded(op: Operator) -> bool {
    op == Operator::Plus || op == Operator::Hash
}

/// Classifies the first character of a token: one of the seven operator
/// characters selects its operator; a character reserved for operator or
/// modifier roles is an error; anything else starts a variable name under
/// `NoOp`.
pub fn get_operator(c: char) -> (r: Option<Operator>)
    ensures
        r == spec_operator_of(c),
{
    match c {
        '+' => Some(Operator::Plus),
        '#' => Some(Operator::Hash),
        '.' => Some(Operator::Dot),
        '/' => Some(Operator::Slash),
        ';' => Some(Operator::Semicolon),
        '?' => Some(Operator::QuestionMark),
        '&' => Some(Operator::Amp),
        _ => None,
    }
}

/// Rejects a character that is reserved for an operator or modifier role
/// and therefore may not stand in a variable name.
pub fn validate_literal(c: char) -> (r: bool)
    ensures
        r == !spec_is_reserved_in_name(c),
{
    match c {
        '+' | '#' | '/' | ';' | '?' | '&' | ' ' | '!' | '=' | '$' | '|' | '*' | ':' | '~' | '-' => {
            false
        },
        _ => true,
    }
}

/// Appends the operator's prefix to the output.
pub fn add_prefix(op: Operator, result: &mut Vec<char>)
    ensures
        final(result)@ == old(result)@ + spec_prefix(op),
{
    match op {
        Operator::Hash => result.push('#'),
        Operator::Dot => result.push('.'),
        Operator::Slash => result.push('/'),
        Operator::Semicolon => result.push(';'),
        Operator::QuestionMark => result.push('?'),
        Operator::Amp => result.push('&'),
        _ => {},
    }
    proof {
        assert(result@ =~= old(result)@ + spec_prefix(op));
    }
}

/// Appends the operator's separator to the output.
pub fn add_separator(op: Operator, result: &mut Vec<char>)
    ensures
        final(result)@ == old(result)@ + seq![spec_separator(op)],
{
    match op {
        Operator::Dot => result.push('.'),
        Operator::Slash => result.push('/'),
        Operator::Semicolon => result.push(';'),
        Operator::QuestionMark | Operator::Amp => result.push('&'),
        _ => result.push(','),
    }
    proof {
        assert(result@ =~= old(result)@ + seq![spec_separator(op)]);
    }
}

} // verus!
