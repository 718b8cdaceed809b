//! Substitution values and the substitution table.
//!
//! A bound value has one of three shapes: a scalar string, an ordered list
//! of strings, or a map from string keys to string values whose pair order
//! is the order in which the pairs were supplied. Adapters stringify
//! numbers and booleans before they reach the core.

use crate::text::str_eq_chars;
use vstd::prelude::*;

verus! {

/// A value bound to a variable name in the substitution table.
#[derive(Debug, Clone)]
pub enum Value {
    /// A single string. A scalar is never considered empty, not even `""`.
    Scalar(String),
    /// An ordered, order-preserving sequence of strings.
    List(Vec<String>),
    /// Key/value pairs, enumerated in the order supplied.
    Pairs(Vec<(String, String)>),
}

/// The mathematical shape of a [`Value`]: the same three variants over
/// sequences of characters.
pub enum ValueView {
    Scalar(Seq<char>),
    List(Seq<Seq<char>>),
    Pairs(Seq<(Seq<char>, Seq<char>)>),
}

impl View for Value {
    type V = ValueView;

    open spec fn view(&self) -> ValueView {
        match self {
            Value::Scalar(s) => ValueView::Scalar(s@),
            Value::List(l) => ValueView::List(l@.map_values(|e: String| e@)),
            Value::Pairs(m) => ValueView::Pairs(
                m@.map_values(|p: (String, String)| (p.0@, p.1@)),
            ),
        }
    }
}

/// A substitution table: variable names bound to values. Lookup takes the
/// first pair whose name matches.
pub type Substitutions = Vec<(String, Value)>;

/// The view of a substitution table.
pub open spec fn subs_view(subs: &Substitutions) -> Seq<(Seq<char>, ValueView)> {
    subs@.map_values(|p: (String, Value)| (p.0@, p.1@))
}

/// The value bound to `name`: the first pair whose name matches, if any.
pub open spec fn spec_lookup(table: Seq<(Seq<char>, ValueView)>, name: Seq<char>) -> Option<
    ValueView,
>
    decreases table.len(),
{
    if table.len() == 0 {
        None
    } else if table[0].0 == name {
        Some(table[0].1)
    } else {
        spec_lookup(table.drop_first(), name)
    }
}

/// Whether a value is treated as empty. A scalar never is; a list or map
/// is empty exactly when it has no elements. Empty values expand to
/// nothing, the same as absent names.
pub open spec fn spec_is_empty(v: ValueView) -> bool {
    match v {
        ValueView::Scalar(_) => false,
        ValueView::List(l) => l.len() == 0,
        ValueView::Pairs(m) => m.len() == 0,
    }
}

/// Looks `name` up in the table, returning the first matching binding.
pub fn lookup<'a>(subs: &'a Substitutions, name: &Vec<char>) -> (r: Option<&'a Value>)
    ensures
        match spec_lookup(subs_view(subs), name@) {
            None => r is None,
            Some(v) => r is Some && r->0@ == v,
        },
{
    let n = subs.len();
    let mut i: usize = 0;
    proof {
        assert(subs_view(subs).skip(0) =~= subs_view(subs));
    }
    while i < n
        invariant
            n == subs@.len(),
            i <= n,
            spec_lookup(subs_view(subs), name@) == spec_lookup(
                subs_view(subs).skip(i as int),
                name@,
            ),
        decreases n - i,
    {
        proof {
            assert(subs_view(subs).skip(i as int)[0] == (subs@[i as int].0@, subs@[i as int].1@));
        }
        if str_eq_chars(subs[i].0.as_str(), name) {
            return Some(&subs[i].1);
        }
        proof {
            assert(subs_view(subs).skip(i as int).drop_first() =~= subs_view(subs).skip(
                i as int + 1,
            ));
        }
        i = i + 1;
    }
    proof {
        assert(subs_view(subs).skip(n as int) =~= Seq::<(Seq<char>, ValueView)>::empty());
    }
    None
}

/// Whether this value expands to nothing.
pub fn is_empty(v: &Value) -> (r: bool)
    ensures
        r == spec_is_empty(v@),
{
    match v {
        Value::Scalar(_) => false,
        Value::List(l) => l.len() == 0,
        Value::Pairs(m) => m.len() == 0,
    }
}

} // verus!
