//! Rendering of resolved values: truncation, name forms, element joining.

use crate::encode::push_encoded_value;
use crate::encode::spec_encoded_value;
use crate::error::ExpansionError;
use crate::operator::add_prefix;
use crate::operator::add_separator;
use crate::operator::spec_prefix;
use crate::operator::spec_preserves_encoded;
use crate::operator::spec_separator;
use crate::operator::Operator;
use crate::text::push_chars;
use crate::text::str_to_chars;
use crate::value::is_empty;
use crate::value::lookup;
use crate::value::spec_is_empty;
use crate::value::spec_lookup;
use crate::value::subs_view;
use crate::value::Substitutions;
use crate::value::Value;
use crate::value::ValueView;
use vstd::prelude::*;

verus! {

/// The source value after the max-length modifier: its first `m`
/// characters, or all of it with no modifier. Truncation counts
/// characters, not bytes, and happens before encoding.
pub open spec fn spec_truncated(s: Seq<char>, max_char: Option<usize>) -> Seq<char> {
    match max_char {
        None => s,
        Some(m) => if m < s.len() {
            s.take(m as int)
        } else {
            s
        },
    }
}

/// One rendered scalar: the truncated value, encoded, with an optional
/// one-character prefix that is emitted only when the truncated value is
/// not empty. `replace_reserved` off selects the reserved-preserving mode.
pub open spec fn spec_expanded_value(
    prefix: Option<char>,
    s: Seq<char>,
    max_char: Option<usize>,
    replace_reserved: bool,
) -> Seq<char> {
    let t = spec_truncated(s, max_char);
    (if t.len() > 0 && prefix is Some {
        seq![prefix.unwrap()]
    } else {
        Seq::empty()
    }) + spec_encoded_value(t, !replace_reserved)
}

/// A value rendered in the operator's full form: bare for the unnamed
/// operators, `name=value` for `?` and `&`, and `name=value` with the `=`
/// dropped on an empty value for `;`.
pub open spec fn spec_full_value(
    op: Operator,
    name: Seq<char>,
    s: Seq<char>,
    max_char: Option<usize>,
) -> Seq<char> {
    match op {
        Operator::Plus | Operator::Hash => spec_expanded_value(None, s, max_char, false),
        Operator::QuestionMark | Operator::Amp => name + seq!['='] + spec_expanded_value(
            None,
            s,
            max_char,
            true,
        ),
        Operator::Semicolon => name + spec_expanded_value(Some('='), s, max_char, true),
        _ => spec_expanded_value(None, s, max_char, true),
    }
}

/// A bare list or map element: never `name=value`, whatever the operator.
pub open spec fn spec_element_value(op: Operator, s: Seq<char>, max_char: Option<usize>) -> Seq<
    char,
> {
    spec_expanded_value(None, s, max_char, !spec_preserves_encoded(op))
}

/// The `j`-th rendered piece of a list: the first element in full form,
/// later elements behind the operator's separator (composite) or behind a
/// literal comma as bare elements.
pub open spec fn spec_list_piece(
    op: Operator,
    name: Seq<char>,
    elems: Seq<Seq<char>>,
    max_char: Option<usize>,
    composite: bool,
    j: int,
) -> Seq<char> {
    if j == 0 {
        spec_full_value(op, name, elems[0], max_char)
    } else if composite {
        seq![spec_separator(op)] + spec_full_value(op, name, elems[j], max_char)
    } else {
        seq![','] + spec_element_value(op, elems[j], max_char)
    }
}

/// The first `n` pieces of a rendered list.
pub open spec fn spec_list_value_upto(
    op: Operator,
    name: Seq<char>,
    elems: Seq<Seq<char>>,
    max_char: Option<usize>,
    composite: bool,
    n: int,
) -> Seq<char>
    decreases n,
{
    if n <= 0 {
        Seq::empty()
    } else {
        spec_list_value_upto(op, name, elems, max_char, composite, n - 1) + spec_list_piece(
            op,
            name,
            elems,
            max_char,
            composite,
            n - 1,
        )
    }
}

/// A whole rendered list.
pub open spec fn spec_list_value(
    op: Operator,
    name: Seq<char>,
    elems: Seq<Seq<char>>,
    max_char: Option<usize>,
    composite: bool,
) -> Seq<char> {
    spec_list_value_upto(op, name, elems, max_char, composite, elems.len() as int)
}

/// The `j`-th rendered piece of a map. Composite: `key=value` pairs joined
/// by the operator's separator. Otherwise: the first key in full form and
/// everything else bare, all joined by commas. Maps are never truncated.
pub open spec fn spec_map_piece(
    op: Operator,
    name: Seq<char>,
    pairs: Seq<(Seq<char>, Seq<char>)>,
    composite: bool,
    j: int,
) -> Seq<char> {
    if composite {
        (if j > 0 {
            seq![spec_separator(op)]
        } else {
            Seq::empty()
        }) + spec_element_value(op, pairs[j].0, None) + seq!['='] + spec_element_value(
            op,
            pairs[j].1,
            None,
        )
    } else {
        (if j == 0 {
            spec_full_value(op, name, pairs[0].0, None)
        } else {
            seq![','] + spec_element_value(op, pairs[j].0, None)
        }) + seq![','] + spec_element_value(op, pairs[j].1, None)
    }
}

/// The first `n` pieces of a rendered map.
pub open spec fn spec_map_value_upto(
    op: Operator,
    name: Seq<char>,
    pairs: Seq<(Seq<char>, Seq<char>)>,
    composite: bool,
    n: int,
) -> Seq<char>
    decreases n,
{
    if n <= 0 {
        Seq::empty()
    } else {
        spec_map_value_upto(op, name, pairs, composite, n - 1) + spec_map_piece(
            op,
            name,
            pairs,
            composite,
            n - 1,
        )
    }
}

/// A whole rendered map.
pub open spec fn spec_map_value(
    op: Operator,
    name: Seq<char>,
    pairs: Seq<(Seq<char>, Seq<char>)>,
    composite: bool,
) -> Seq<char> {
    spec_map_value_upto(op, name, pairs, composite, pairs.len() as int)
}

/// What a successfully expanded token is led by: the operator's prefix for
/// the first expanded token of its group, its separator afterwards.
pub open spec fn spec_lead(op: Operator, first: bool) -> Seq<char> {
    if first {
        spec_prefix(op)
    } else {
        seq![spec_separator(op)]
    }
}

/// The outcome of expanding one token against the table: `Ok(None)` when
/// the name is unbound or bound to an empty list or map (nothing is
/// emitted and the first-token slot is kept), `Ok(Some(piece))` for the
/// emitted piece, lead included, and an error for an empty variable
/// specification or a truncated map.
pub open spec fn spec_token_expansion(
    op: Operator,
    name: Seq<char>,
    composite: bool,
    max_char: Option<usize>,
    first: bool,
    table: Seq<(Seq<char>, ValueView)>,
) -> Result<Option<Seq<char>>, ExpansionError> {
    if name.len() == 0 {
        Err(ExpansionError::InvalidToken)
    } else {
        match spec_lookup(table, name) {
            None => Ok(None),
            Some(v) => if spec_is_empty(v) {
                Ok(None)
            } else {
                match v {
                    ValueView::Scalar(s) => Ok(
                        Some(spec_lead(op, first) + spec_full_value(op, name, s, max_char)),
                    ),
                    ValueView::List(l) => Ok(
                        Some(
                            spec_lead(op, first) + spec_list_value(
                                op,
                                name,
                                l,
                                max_char,
                                composite,
                            ),
                        ),
                    ),
                    ValueView::Pairs(m) => if max_char is Some {
                        Err(ExpansionError::TrimNotAllowedOnMap)
                    } else {
                        Ok(Some(spec_lead(op, first) + spec_map_value(op, name, m, composite)))
                    },
                }
            },
        }
    }
}

/// The truncated copy of a value: its first `max` characters.
fn truncated_copy(value: &Vec<char>, max: usize) -> (r: Vec<char>)
    requires
        max <= value@.len(),
    ensures
        r@ == value@.take(max as int),
{
    let mut r: Vec<char> = Vec::with_capacity(max);
    let mut i: usize = 0;
    while i < max
        invariant
            max <= value@.len(),
            i <= max,
            r@ == value@.take(i as int),
        decreases max - i,
    {
        r.push(value[i]);
        proof {
            assert(r@ =~= value@.take(i as int + 1));
        }
        i = i + 1;
    }
    r
}

/// Appends one rendered scalar: optional prefix, truncation, encoding.
pub fn add_expanded_value(
    prefix: Option<char>,
    value: &Vec<char>,
    result: &mut Vec<char>,
    max_char: Option<usize>,
    replace_reserved: bool,
)
    ensures
        final(result)@ == old(result)@ + spec_expanded_value(
            prefix,
            value@,
            max_char,
            replace_reserved,
        ),
{
    let max: usize = match max_char {
        Some(m) => if m < value.len() {
            m
        } else {
            value.len()
        },
        None => value.len(),
    };
    proof {
        assert(value@.take(value@.len() as int) =~= value@);
        assert(value@.take(max as int) =~= spec_truncated(value@, max_char));
    }
    if max > 0 {
        if let Some(p) = prefix {
            result.push(p);
        }
    }
    let tv = truncated_copy(value, max);
    push_encoded_value(result, &tv, !replace_reserved);
    proof {
        assert(result@ =~= old(result)@ + spec_expanded_value(
            prefix,
            value@,
            max_char,
            replace_reserved,
        ));
    }
}

/// Appends a value in the operator's full form.
pub fn add_value(
    op: Operator,
    token: &Vec<char>,
    value: &Vec<char>,
    result: &mut Vec<char>,
    max_char: Option<usize>,
)
    ensures
        final(result)@ == old(result)@ + spec_full_value(op, token@, value@, max_char),
{
    match op {
        Operator::Plus | Operator::Hash => {
            add_expanded_value(None, value, result, max_char, false);
        },
        Operator::QuestionMark | Operator::Amp => {
            push_chars(result, token);
            result.push('=');
            add_expanded_value(None, value, result, max_char, true);
            proof {
                assert(result@ =~= old(result)@ + spec_full_value(op, token@, value@, max_char));
            }
        },
        Operator::Semicolon => {
            push_chars(result, token);
            add_expanded_value(Some('='), value, result, max_char, true);
            proof {
                assert(result@ =~= old(result)@ + spec_full_value(op, token@, value@, max_char));
            }
        },
        Operator::Dot | Operator::Slash | Operator::NoOp => {
            add_expanded_value(None, value, result, max_char, true);
        },
    }
}

/// Appends a value as a bare element.
pub fn add_value_element(
    op: Operator,
    value: &Vec<char>,
    result: &mut Vec<char>,
    max_char: Option<usize>,
)
    ensures
        final(result)@ == old(result)@ + spec_element_value(op, value@, max_char),
{
    match op {
        Operator::Plus | Operator::Hash => {
            add_expanded_value(None, value, result, max_char, false);
        },
        _ => {
            add_expanded_value(None, value, result, max_char, true);
        },
    }
}

/// Appends one rendered scalar value in the operator's full form.
pub fn add_string_value(
    op: Operator,
    token: &Vec<char>,
    value: &Vec<char>,
    result: &mut Vec<char>,
    max_char: Option<usize>,
)
    ensures
        final(result)@ == old(result)@ + spec_full_value(op, token@, value@, max_char),
{
    add_value(op, token, value, result, max_char);
}

/// Appends a whole rendered list.
pub fn add_list_value(
    op: Operator,
    token: &Vec<char>,
    value: &Vec<String>,
    result: &mut Vec<char>,
    max_char: Option<usize>,
    composite: bool,
)
    ensures
        final(result)@ == old(result)@ + spec_list_value(
            op,
            token@,
            value@.map_values(|e: String| e@),
            max_char,
            composite,
        ),
{
    let ghost elems = value@.map_values(|e: String| e@);
    let n = value.len();
    let mut j: usize = 0;
    while j < n
        invariant
            n == value@.len(),
            j <= n,
            elems == value@.map_values(|e: String| e@),
            result@ == old(result)@ + spec_list_value_upto(
                op,
                token@,
                elems,
                max_char,
                composite,
                j as int,
            ),
        decreases n - j,
    {
        let ev = str_to_chars(value[j].as_str());
        proof {
            assert(ev@ == elems[j as int]);
        }
        if j == 0 {
            add_value(op, token, &ev, result, max_char);
        } else if composite {
            add_separator(op, result);
            add_value(op, token, &ev, result, max_char);
        } else {
            result.push(',');
            add_value_element(op, &ev, result, max_char);
        }
        proof {
            assert(result@ =~= old(result)@ + spec_list_value_upto(
                op,
                token@,
                elems,
                max_char,
                composite,
                j as int + 1,
            ));
        }
        j = j + 1;
    }
}

/// Appends a whole rendered map. The caller has already rejected the
/// max-length modifier for maps, so pairs render untruncated.
#[verifier::rlimit(50)]
pub fn add_map_value(
    op: Operator,
    token: &Vec<char>,
    value: &Vec<(String, String)>,
    result: &mut Vec<char>,
    composite: bool,
)
    ensures
        final(result)@ == old(result)@ + spec_map_value(
            op,
            token@,
            value@.map_values(|p: (String, String)| (p.0@, p.1@)),
            composite,
        ),
{
    let ghost pairs = value@.map_values(|p: (String, String)| (p.0@, p.1@));
    let n = value.len();
    let mut j: usize = 0;
    while j < n
        invariant
            n == value@.len(),
            j <= n,
            pairs == value@.map_values(|p: (String, String)| (p.0@, p.1@)),
            result@ == old(result)@ + spec_map_value_upto(op, token@, pairs, composite, j as int),
        decreases n - j,
    {
        let kv = str_to_chars(value[j].0.as_str());
        let vv = str_to_chars(value[j].1.as_str());
        proof {
            assert(kv@ == pairs[j as int].0);
            assert(vv@ == pairs[j as int].1);
        }
        if composite {
            if j > 0 {
                add_separator(op, result);
            }
            add_value_element(op, &kv, result, None);
            result.push('=');
            add_value_element(op, &vv, result, None);
        } else {
            if j == 0 {
                add_value(op, token, &kv, result, None);
            } else {
                result.push(',');
                add_value_element(op, &kv, result, None);
            }
            result.push(',');
            add_value_element(op, &vv, result, None);
        }
        proof {
            assert(result@ =~= old(result)@ + spec_map_value_upto(
                op,
                token@,
                pairs,
                composite,
                j as int + 1,
            ));
        }
        j = j + 1;
    }
}

/// Expands one token against the table, appending its piece to the output.
/// Returns whether anything was emitted; an absent name or an empty list
/// or map emits nothing and leaves the first-token slot unconsumed.
pub fn expand_token(
    op: Operator,
    token: &Vec<char>,
    composite: bool,
    max_char: Option<usize>,
    first_token: bool,
    substitutions: &Substitutions,
    result: &mut Vec<char>,
) -> (r: Result<bool, ExpansionError>)
    ensures
        ({
            let se = spec_token_expansion(
                op,
                token@,
                composite,
                max_char,
                first_token,
                subs_view(substitutions),
            );
            match se {
                Err(e) => r == Err::<bool, ExpansionError>(e),
                Ok(None) => r == Ok::<bool, ExpansionError>(false) && final(result)@ == old(
                    result,
                )@,
                Ok(Some(piece)) => r == Ok::<bool, ExpansionError>(true) && final(result)@ == old(
                    result,
                )@ + piece,
            }
        }),
{
    if token.len() == 0 {
        return Err(ExpansionError::InvalidToken);
    }
    let value = match lookup(substitutions, token) {
        None => {
            return Ok(false);
        },
        Some(v) => v,
    };
    if is_empty(value) {
        return Ok(false);
    }
    if let Value::Pairs(_) = value {
        if max_char.is_some() {
            return Err(ExpansionError::TrimNotAllowedOnMap);
        }
    }
    if first_token {
        add_prefix(op, result);
    } else {
        add_separator(op, result);
    }
    match value {
        Value::Scalar(s) => {
            let sv = str_to_chars(s.as_str());
            add_string_value(op, token, &sv, result, max_char);
        },
        Value::List(l) => {
            add_list_value(op, token, l, result, max_char, composite);
        },
        Value::Pairs(m) => {
            add_map_value(op, token, m, result, composite);
        },
    }
    proof {
        let se = spec_token_expansion(
            op,
            token@,
            composite,
            max_char,
            first_token,
            subs_view(substitutions),
        );
        assert(se is Ok && se.unwrap() is Some);
        assert(result@ =~= old(result)@ + se.unwrap().unwrap());
    }
    Ok(true)
}

} // verus!
