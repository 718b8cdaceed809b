//! The single-pass template scanner/parser and the public entry points.
//!
//! The parser walks the template once. Outside a token, characters pass
//! through verbatim. `{` opens a token group; inside one, the first
//! character fixes the operator, `*` marks the composite modifier, `:`
//! starts the max-length modifier, `,` finalizes the current variable
//! specification while staying in the group, and `}` closes the group.

use crate::classify::is_ascii_digit;
use crate::classify::spec_is_ascii_digit;
use crate::classify::spec_is_reserved_in_name;
use crate::error::ExpansionError;
use crate::operator::get_operator;
use crate::operator::spec_operator_of;
use crate::operator::validate_literal;
use crate::operator::Operator;
use crate::render::expand_token;
use crate::render::spec_token_expansion;
use crate::text::str_to_chars;
use crate::text::string_from_chars;
use crate::value::subs_view;
use crate::value::Substitutions;
use crate::value::ValueView;
use vstd::prelude::*;

verus! {

/// The numeric value of an ASCII decimal digit.
pub open spec fn spec_digit_val(c: char) -> int {
    c as u32 as int - 48
}

/// The number written by a digit string, most significant digit first.
pub open spec fn spec_digits_value(s: Seq<char>) -> int
    decreases s.len(),
{
    if s.len() == 0 {
        0
    } else {
        spec_digits_value(s.drop_last()) * 10 + spec_digit_val(s.last())
    }
}

/// The max-length modifier encoded by the digit buffer: none when the
/// buffer is empty, an error when its number does not fit in `usize`.
pub open spec fn spec_max_char(buf: Seq<char>, col: usize) -> Result<
    Option<usize>,
    ExpansionError,
> {
    if buf.len() == 0 {
        Ok(None)
    } else if spec_digits_value(buf) > usize::MAX as int {
        Err(ExpansionError::InvalidMaxChars(col))
    } else {
        Ok(Some(spec_digits_value(buf) as usize))
    }
}

proof fn lemma_digits_value_nonneg(s: Seq<char>)
    requires
        forall|k: int| 0 <= k < s.len() ==> spec_is_ascii_digit(s[k]),
    ensures
        spec_digits_value(s) >= 0,
    decreases s.len(),
{
    if s.len() > 0 {
        assert(forall|k: int|
            0 <= k < s.drop_last().len() ==> spec_is_ascii_digit(s.drop_last()[k]));
        lemma_digits_value_nonneg(s.drop_last());
    }
}

proof fn lemma_digits_value_take_le(s: Seq<char>, i: int)
    requires
        0 <= i <= s.len(),
        forall|k: int| 0 <= k < s.len() ==> spec_is_ascii_digit(s[k]),
    ensures
        spec_digits_value(s.take(i)) <= spec_digits_value(s),
    decreases s.len() - i,
{
    if i < s.len() {
        assert(s.take(i + 1).drop_last() =~= s.take(i));
        assert(s.take(i + 1).last() == s[i]);
        assert(forall|k: int| 0 <= k < s.take(i).len() ==> spec_is_ascii_digit(s.take(i)[k]));
        lemma_digits_value_nonneg(s.take(i));
        assert(spec_digits_value(s.take(i)) <= spec_digits_value(s.take(i + 1)));
        lemma_digits_value_take_le(s, i + 1);
    } else {
        assert(s.take(i) =~= s);
    }
}

/// Parses the digit buffer of a `:N` modifier. An empty buffer means the
/// modifier is absent; digits that overflow `usize` are an error carrying
/// the column of the character that closed the token.
pub fn get_max_char(buffer: &Vec<char>, col: usize) -> (r: Result<Option<usize>, ExpansionError>)
    requires
        forall|k: int| 0 <= k < buffer@.len() ==> spec_is_ascii_digit(buffer@[k]),
    ensures
        r == spec_max_char(buffer@, col),
{
    let n = buffer.len();
    if n == 0 {
        return Ok(None);
    }
    let mut acc: usize = 0;
    let mut i: usize = 0;
    proof {
        assert(buffer@.take(0) =~= Seq::<char>::empty());
    }
    while i < n
        invariant
            n == buffer@.len(),
            i <= n,
            forall|k: int| 0 <= k < buffer@.len() ==> spec_is_ascii_digit(buffer@[k]),
            acc == spec_digits_value(buffer@.take(i as int)),
        decreases n - i,
    {
        let c = buffer[i];
        let d: u32 = c as u32 - 48;
        proof {
            assert(buffer@.take(i as int + 1).drop_last() =~= buffer@.take(i as int));
            assert(buffer@.take(i as int + 1).last() == buffer@[i as int]);
        }
        let step1 = match acc.checked_mul(10) {
            Some(x) => x,
            None => {
                proof {
                    lemma_digits_value_nonneg(buffer@.take(i as int));
                    lemma_digits_value_take_le(buffer@, i as int + 1);
                }
                return Err(ExpansionError::InvalidMaxChars(col));
            },
        };
        let next = match step1.checked_add(d as usize) {
            Some(y) => y,
            None => {
                proof {
                    lemma_digits_value_take_le(buffer@, i as int + 1);
                }
                return Err(ExpansionError::InvalidMaxChars(col));
            },
        };
        acc = next;
        i = i + 1;
    }
    proof {
        assert(buffer@.take(n as int) =~= buffer@);
    }
    Ok(Some(acc))
}

/// The transient state of the scanner: the output built so far, whether a
/// token group is open, the group's operator, the name and digit buffers,
/// the composite flag, whether the max-length modifier is being read, and
/// whether the group is still waiting for its first expanded token.
pub struct ParseState {
    pub out: Seq<char>,
    pub in_token: bool,
    pub op: Option<Operator>,
    pub name: Seq<char>,
    pub composite: bool,
    pub in_max: bool,
    pub max_buf: Seq<char>,
    pub first: bool,
}

/// The state before any character is read.
pub open spec fn spec_init_state() -> ParseState {
    ParseState {
        out: Seq::empty(),
        in_token: false,
        op: None,
        name: Seq::empty(),
        composite: false,
        in_max: false,
        max_buf: Seq::empty(),
        first: true,
    }
}

/// Finalizes the current variable specification at a `,` or `}`: parses
/// the max-length buffer, then expands the token if an operator has been
/// fixed. Yields the new output and first-token flag.
pub open spec fn spec_finish_token(
    st: ParseState,
    col: usize,
    table: Seq<(Seq<char>, ValueView)>,
) -> Result<(Seq<char>, bool), ExpansionError> {
    match spec_max_char(st.max_buf, col) {
        Err(e) => Err(e),
        Ok(max_char) => match st.op {
            None => Ok((st.out, st.first)),
            Some(op) => match spec_token_expansion(
                op,
                st.name,
                st.composite,
                max_char,
                st.first,
                table,
            ) {
                Err(e) => Err(e),
                Ok(None) => Ok((st.out, st.first)),
                Ok(Some(piece)) => Ok((st.out + piece, false)),
            },
        },
    }
}

/// One scanner transition on the character at column `col`.
pub open spec fn spec_step(
    st: ParseState,
    c: char,
    col: usize,
    table: Seq<(Seq<char>, ValueView)>,
) -> Result<ParseState, ExpansionError> {
    if c == '{' {
        Ok(ParseState { in_token: true, name: Seq::empty(), first: true, ..st })
    } else if c == '}' {
        if st.in_token {
            match spec_finish_token(st, col, table) {
                Err(e) => Err(e),
                Ok((out, first)) => Ok(
                    ParseState {
                        out,
                        in_token: false,
                        op: None,
                        name: Seq::empty(),
                        composite: false,
                        in_max: false,
                        max_buf: Seq::empty(),
                        first,
                    },
                ),
            }
        } else {
            Err(ExpansionError::InvalidToken)
        }
    } else if c == ',' {
        if st.in_token {
            match spec_finish_token(st, col, table) {
                Err(e) => Err(e),
                Ok((out, first)) => Ok(
                    ParseState {
                        out,
                        name: Seq::empty(),
                        composite: false,
                        in_max: false,
                        max_buf: Seq::empty(),
                        first,
                        ..st
                    },
                ),
            }
        } else {
            Ok(ParseState { out: st.out.push(','), ..st })
        }
    } else if st.in_token {
        if st.op is None {
            match spec_operator_of(c) {
                Some(op) => Ok(ParseState { op: Some(op), ..st }),
                None => if spec_is_reserved_in_name(c) {
                    Err(ExpansionError::InvalidCharacter(c, col))
                } else {
                    Ok(ParseState { op: Some(Operator::NoOp), name: st.name.push(c), ..st })
                },
            }
        } else if st.in_max {
            if spec_is_ascii_digit(c) {
                Ok(ParseState { max_buf: st.max_buf.push(c), ..st })
            } else {
                Err(ExpansionError::InvalidCharacter(c, col))
            }
        } else if c == ':' {
            Ok(ParseState { in_max: true, max_buf: Seq::empty(), ..st })
        } else if c == '*' {
            Ok(ParseState { composite: true, ..st })
        } else if spec_is_reserved_in_name(c) {
            Err(ExpansionError::InvalidCharacter(c, col))
        } else {
            Ok(ParseState { name: st.name.push(c), ..st })
        }
    } else {
        Ok(ParseState { out: st.out.push(c), ..st })
    }
}

/// The scanner state after the first `n` characters of the template.
pub open spec fn spec_run(s: Seq<char>, n: int, table: Seq<(Seq<char>, ValueView)>) -> Result<
    ParseState,
    ExpansionError,
>
    decreases n,
{
    if n <= 0 {
        Ok(spec_init_state())
    } else {
        match spec_run(s, n - 1, table) {
            Err(e) => Err(e),
            Ok(st) => spec_step(st, s[n - 1], (n - 1) as usize, table),
        }
    }
}

/// The meaning of a whole expansion: the scanner runs over every
/// character; ending inside an unterminated token is an error, otherwise
/// the accumulated output is the result.
pub open spec fn spec_expansion(s: Seq<char>, table: Seq<(Seq<char>, ValueView)>) -> Result<
    Seq<char>,
    ExpansionError,
> {
    match spec_run(s, s.len() as int, table) {
        Err(e) => Err(e),
        Ok(st) => if st.in_token {
            Err(ExpansionError::InvalidToken)
        } else {
            Ok(st.out)
        },
    }
}

/// Once the scanner has failed, every longer run fails the same way.
pub proof fn lemma_run_err_persists(
    s: Seq<char>,
    table: Seq<(Seq<char>, ValueView)>,
    i: int,
    n: int,
)
    requires
        0 <= i <= n,
        spec_run(s, i, table) is Err,
    ensures
        spec_run(s, n, table) == spec_run(s, i, table),
    decreases n - i,
{
    if i < n {
        lemma_run_err_persists(s, table, i, n - 1);
    }
}

/// Expands the template against the substitution table in one pass.
///
/// The result is exactly what [`spec_expansion`] assigns to the views of
/// the arguments: the template's literal text with every token replaced by
/// its rendered value, or the first error the scanner or renderer meets.
pub fn expand_impl(template: &str, substitutions: &Substitutions) -> (r: Result<
    String,
    ExpansionError,
>)
    ensures
        ({
            let se = spec_expansion(template@, subs_view(substitutions));
            match r {
                Ok(out) => se == Ok::<Seq<char>, ExpansionError>(out@),
                Err(e) => se == Err::<Seq<char>, ExpansionError>(e),
            }
        }),
{
    let tchars = str_to_chars(template);
    let n = tchars.len();
    let ghost table = subs_view(substitutions);

    let mut result: Vec<char> = Vec::new();
    let mut to_token = false;
    let mut token: Vec<char> = Vec::new();
    let mut operator: Option<Operator> = None;
    let mut composite = false;
    let mut to_max_char_buffer = false;
    let mut max_char_buffer: Vec<char> = Vec::new();
    let mut first_token = true;

    let mut i: usize = 0;
    while i < n
        invariant
            n == tchars@.len(),
            tchars@ == template@,
            table == subs_view(substitutions),
            i <= n,
            forall|k: int|
                0 <= k < max_char_buffer@.len() ==> spec_is_ascii_digit(max_char_buffer@[k]),
            spec_run(template@, i as int, table) == Ok::<ParseState, ExpansionError>(
                ParseState {
                    out: result@,
                    in_token: to_token,
                    op: operator,
                    name: token@,
                    composite,
                    in_max: to_max_char_buffer,
                    max_buf: max_char_buffer@,
                    first: first_token,
                },
            ),
        decreases n - i,
    {
        let ghost st = ParseState {
            out: result@,
            in_token: to_token,
            op: operator,
            name: token@,
            composite,
            in_max: to_max_char_buffer,
            max_buf: max_char_buffer@,
            first: first_token,
        };
        let c = tchars[i];
        if c == '{' {
            to_token = true;
            token.clear();
            first_token = true;
        } else if c == '}' {
            if to_token {
                let max_char = match get_max_char(&max_char_buffer, i) {
                    Ok(m) => m,
                    Err(e) => {
                        proof {
                            lemma_run_err_persists(template@, table, i as int + 1, n as int);
                        }
                        return Err(e);
                    },
                };
                if let Some(op) = operator {
                    match expand_token(
                        op,
                        &token,
                        composite,
                        max_char,
                        first_token,
                        substitutions,
                        &mut result,
                    ) {
                        Ok(expanded) => {
                            if expanded && first_token {
                                first_token = false;
                            }
                        },
                        Err(e) => {
                            proof {
                                lemma_run_err_persists(template@, table, i as int + 1, n as int);
                            }
                            return Err(e);
                        },
                    }
                }
                to_token = false;
                token.clear();
                operator = None;
                composite = false;
                to_max_char_buffer = false;
                max_char_buffer.clear();
            } else {
                proof {
                    lemma_run_err_persists(template@, table, i as int + 1, n as int);
                }
                return Err(ExpansionError::InvalidToken);
            }
        } else if c == ',' {
            if to_token {
                let max_char = match get_max_char(&max_char_buffer, i) {
                    Ok(m) => m,
                    Err(e) => {
                        proof {
                            lemma_run_err_persists(template@, table, i as int + 1, n as int);
                        }
                        return Err(e);
                    },
                };
                if let Some(op) = operator {
                    match expand_token(
                        op,
                        &token,
                        composite,
                        max_char,
                        first_token,
                        substitutions,
                        &mut result,
                    ) {
                        Ok(expanded) => {
                            if expanded && first_token {
                                first_token = false;
                            }
                        },
                        Err(e) => {
                            proof {
                                lemma_run_err_persists(template@, table, i as int + 1, n as int);
                            }
                            return Err(e);
                        },
                    }
                }
                token.clear();
                composite = false;
                to_max_char_buffer = false;
                max_char_buffer.clear();
            } else {
                result.push(',');
            }
        } else {
            if to_token {
                if operator.is_none() {
                    match get_operator(c) {
                        Some(op) => {
                            operator = Some(op);
                        },
                        None => {
                            if validate_literal(c) {
                                operator = Some(Operator::NoOp);
                                token.push(c);
                            } else {
                                proof {
                                    lemma_run_err_persists(
                                        template@,
                                        table,
                                        i as int + 1,
                                        n as int,
                                    );
                                }
                                return Err(ExpansionError::InvalidCharacter(c, i));
                            }
                        },
                    }
                } else if to_max_char_buffer {
                    if is_ascii_digit(c) {
                        max_char_buffer.push(c);
                    } else {
                        proof {
                            lemma_run_err_persists(template@, table, i as int + 1, n as int);
                        }
                        return Err(ExpansionError::InvalidCharacter(c, i));
                    }
                } else if c == ':' {
                    to_max_char_buffer = true;
                    max_char_buffer.clear();
                } else if c == '*' {
                    composite = true;
                } else if validate_literal(c) {
                    token.push(c);
                } else {
                    proof {
                        lemma_run_err_persists(template@, table, i as int + 1, n as int);
                    }
                    return Err(ExpansionError::InvalidCharacter(c, i));
                }
            } else {
                result.push(c);
            }
        }
        proof {
            assert(spec_run(template@, i as int + 1, table) == spec_step(st, c, i, table));
            assert(spec_step(st, c, i, table) == Ok::<ParseState, ExpansionError>(
                ParseState {
                    out: result@,
                    in_token: to_token,
                    op: operator,
                    name: token@,
                    composite,
                    in_max: to_max_char_buffer,
                    max_buf: max_char_buffer@,
                    first: first_token,
                },
            ));
        }
        i = i + 1;
    }
    if !to_token {
        let out = string_from_chars(&result);
        Ok(out)
    } else {
        Err(ExpansionError::InvalidToken)
    }
}

/// Expands an RFC 6570 style URI template against a substitution table.
///
/// See [`expand_impl`]; this is the public entry point with the same
/// contract.
pub fn expand(template: &str, substitutions: &Substitutions) -> (r: Result<String, ExpansionError>)
    ensures
        ({
            let se = spec_expansion(template@, subs_view(substitutions));
            match r {
                Ok(out) => se == Ok::<Seq<char>, ExpansionError>(out@),
                Err(e) => se == Err::<Seq<char>, ExpansionError>(e),
            }
        }),
{
    expand_impl(template, substitutions)
}

} // verus!
