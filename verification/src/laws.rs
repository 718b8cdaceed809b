//! Laws of the expansion engine, stated and proved over the same spec
//! functions that the executable functions' contracts use.

use crate::error::ExpansionError;
use crate::parse::spec_expansion;
use crate::parse::spec_finish_token;
use crate::parse::spec_init_state;
use crate::parse::spec_max_char;
use crate::parse::spec_run;
use crate::parse::ParseState;
use crate::render::spec_expanded_value;
use crate::render::spec_truncated;
use crate::value::spec_is_empty;
use crate::value::spec_lookup;
use crate::value::ValueView;
use vstd::prelude::*;

verus! {

proof fn lemma_literal_run(s: Seq<char>, table: Seq<(Seq<char>, ValueView)>, i: int)
    requires
        0 <= i <= s.len(),
        forall|k: int| 0 <= k < s.len() ==> s[k] != '{' && s[k] != '}',
    ensures
        spec_run(s, i, table) == Ok::<ParseState, ExpansionError>(
            ParseState { out: s.take(i), ..spec_init_state() },
        ),
    decreases i,
{
    if i == 0 {
        assert(s.take(0) =~= Seq::<char>::empty());
    } else {
        lemma_literal_run(s, table, i - 1);
        assert(s.take(i - 1).push(s[i - 1]) =~= s.take(i));
    }
}

/// Literal passthrough: a template without `{` or `}` expands to itself,
/// whatever the substitution table holds.
pub proof fn lemma_literal_passthrough(s: Seq<char>, table: Seq<(Seq<char>, ValueView)>)
    requires
        forall|k: int| 0 <= k < s.len() ==> s[k] != '{' && s[k] != '}',
    ensures
        spec_expansion(s, table) == Ok::<Seq<char>, ExpansionError>(s),
{
    lemma_literal_run(s, table, s.len() as int);
    assert(s.take(s.len() as int) =~= s);
}

/// Idempotence of literal regions: a template without tokens expands to
/// itself, and expanding that result again, against any table, returns it
/// unchanged.
pub proof fn lemma_literal_idempotent(
    s: Seq<char>,
    table1: Seq<(Seq<char>, ValueView)>,
    table2: Seq<(Seq<char>, ValueView)>,
)
    requires
        forall|k: int| 0 <= k < s.len() ==> s[k] != '{' && s[k] != '}',
    ensures
        spec_expansion(s, table1) == Ok::<Seq<char>, ExpansionError>(s),
        spec_expansion(spec_expansion(s, table1).unwrap(), table2) == Ok::<
            Seq<char>,
            ExpansionError,
        >(s),
{
    lemma_literal_passthrough(s, table1);
    lemma_literal_passthrough(s, table2);
}

/// Referential transparency: the result of an expansion is a function of
/// the template's characters and the table's view alone, so two runs over
/// equal views agree. The contract of `expand` ties every call's result to
/// `spec_expansion` of its arguments' views, which this law equates.
pub proof fn lemma_expansion_deterministic(
    s: Seq<char>,
    table: Seq<(Seq<char>, ValueView)>,
    r1: Result<Seq<char>, ExpansionError>,
    r2: Result<Seq<char>, ExpansionError>,
)
    requires
        r1 == spec_expansion(s, table),
        r2 == spec_expansion(s, table),
    ensures
        r1 == r2,
{
}

/// Absent and empty values elide: finalizing a variable specification
/// whose name is unbound, or bound to an empty list or map, emits nothing
/// and does not consume the first-token slot.
pub proof fn lemma_elision_keeps_state(
    st: ParseState,
    col: usize,
    table: Seq<(Seq<char>, ValueView)>,
)
    requires
        st.name.len() > 0,
        spec_max_char(st.max_buf, col) is Ok,
        match spec_lookup(table, st.name) {
            None => true,
            Some(v) => spec_is_empty(v),
        },
    ensures
        spec_finish_token(st, col, table) == Ok::<(Seq<char>, bool), ExpansionError>(
            (st.out, st.first),
        ),
{
}

/// Truncation happens before percent-encoding: rendering a scalar under a
/// max-length modifier equals rendering the already-truncated source with
/// no modifier at all.
pub proof fn lemma_truncation_before_encoding(
    prefix: Option<char>,
    s: Seq<char>,
    m: usize,
    replace_reserved: bool,
)
    ensures
        spec_expanded_value(prefix, s, Some(m), replace_reserved) == spec_expanded_value(
            prefix,
            spec_truncated(s, Some(m)),
            None,
            replace_reserved,
        ),
{
}

} // verus!
