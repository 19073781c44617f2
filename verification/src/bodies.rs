//! What module bodies give back: the definitions that stand there, one behind the
//! other, all of them, up to the end of the input.

use crate::ast::SpacedView;
use crate::blankspace::space0;
use crate::combine::{more, Grammar};
use crate::grammar::{module_def, module_defs};
use crate::parts::{law_module_def_parts, with_lines};
use crate::problem::{DefsError, SyntaxError};
use crate::region::Located;
use crate::state::{MadeProgress, NoProgress, Progress, StateView};
use vstd::prelude::*;

verus! {

/// Whether `found` is the definition that stands at `s`, between blank space that
/// ends at `end`.
pub open spec fn is_def<V, X>(
    def: Grammar<V, X>,
    found: Located<SpacedView<V>>,
    s: StateView,
    end: StateView,
) -> bool {
    space0(0)(s) matches Ok((_, before, s1)) && def(s1) matches Ok((_, value, s2)) && space0(0)(
        s2,
    ) matches Ok((_, after, s3)) && {
        &&& found.region.start_line == s1.line
        &&& found.region.start_col == s1.column
        &&& found.region.end_line == s2.line
        &&& found.region.end_col == s2.column
        &&& found.value == with_lines(value, before, after)
        &&& end == s3
    }
}

/// Whether `found` are definitions that stand one behind the other: each of them
/// between the two states that it has in `stops`.
pub open spec fn are_defs<V, X>(
    def: Grammar<V, X>,
    found: Seq<Located<SpacedView<V>>>,
    stops: Seq<StateView>,
) -> bool {
    &&& stops.len() == found.len() + 1
    &&& forall|i: int|
        0 <= i < found.len() ==> is_def(def, #[trigger] found[i], stops[i], stops[i + 1])
}

/// A definition between blank space, where one stands.
proof fn lemma_module_def<V, X>(def: Grammar<V, X>, s: StateView)
    ensures
        match module_def(def)(s) {
            Ok((_, found, end)) => is_def(def, found, s, end),
            Err((_, _, end)) => end == s,
        },
{
    law_module_def_parts(def, s);
}

/// More definitions, behind some that stand one behind the other.
proof fn lemma_more_defs<V, X>(
    def: Grammar<V, X>,
    found: Seq<Located<SpacedView<V>>>,
    stops: Seq<StateView>,
    s: StateView,
) -> (all_stops: Seq<StateView>)
    requires
        are_defs(def, found, stops),
        stops.last() == s,
    ensures
        all_stops.len() > 0,
        all_stops[0] == stops[0],
        match more(module_def(def), found, s) {
            Ok((_, all, end)) => {
                &&& are_defs(def, all, all_stops)
                &&& all.len() >= found.len()
                &&& end == all_stops.last()
                &&& module_def(def)(end) is Err || (all_stops.len() > 1 && end.bytes.len()
                    >= all_stops[all_stops.len() - 2].bytes.len())
            },
            Err((progress, e, _)) => {
                &&& progress == MadeProgress
                &&& exists|all: Seq<Located<SpacedView<V>>>| #[trigger]
                    are_defs(def, all, all_stops)
                &&& module_def(def)(all_stops.last()) matches Err((MadeProgress, problem, _)) && e
                    == problem
            },
        },
    decreases s.bytes.len(),
{
    lemma_module_def(def, s);
    match module_def(def)(s) {
        Ok((_, one, s1)) => {
            let found1 = found.push(one);
            let stops1 = stops.push(s1);
            assert forall|i: int| 0 <= i < found1.len() implies is_def(
                def,
                #[trigger] found1[i],
                stops1[i],
                stops1[i + 1],
            ) by {
                if i < found.len() {
                    assert(found1[i] == found[i]);
                }
            }
            if s1.bytes.len() < s.bytes.len() {
                lemma_more_defs(def, found1, stops1, s1)
            } else {
                stops1
            }
        },
        Err((MadeProgress, _, _)) => {
            assert(are_defs(def, found, stops));
            stops
        },
        Err((NoProgress, _, _)) => stops,
    }
}

/// A module body is the definitions that stand there: the first at its start, each
/// other one where the one before it ended, and the end of the last one is the end
/// of the input. The result is the places where they end, with the start before them.
pub proof fn law_defs_each<V, X>(def: Grammar<V, X>, s: StateView) -> (stops: Seq<StateView>)
    requires
        module_defs(def)(s) is Ok,
    ensures
        module_defs(def)(s) matches Ok((progress, defs, end)) && {
            &&& are_defs(def, defs, stops)
            &&& stops[0] == s
            &&& stops.last() == end
            &&& end.bytes.len() == 0
            &&& progress == MadeProgress <==> s.bytes.len() > 0
        },
{
    lemma_module_def(def, s);
    match module_def(def)(s) {
        Ok((_, one, s1)) => {
            let stops = seq![s, s1];
            assert(are_defs(def, seq![one], stops));
            lemma_more_defs(def, seq![one], stops, s1)
        },
        Err(_) => seq![s],
    }
}

/// A module body that fails does so over the definition that stands where the ones
/// before it end, or over the place where they end short of the end of the input.
pub proof fn law_defs_failure<V, X>(def: Grammar<V, X>, s: StateView) -> (stops: Seq<StateView>)
    requires
        module_defs(def)(s) is Err,
    ensures
        stops.len() > 0,
        stops[0] == s,
        exists|found: Seq<Located<SpacedView<V>>>| #[trigger] are_defs(def, found, stops),
        module_defs(def)(s) matches Err((progress, e, end)) && end == s && {
            let at = stops.last();
            ||| module_def(def)(at) matches Err((MadeProgress, problem, _)) && progress
                == MadeProgress && e == problem
            ||| at.bytes.len() > 0 && e == DefsError::<X>::Syntax(
                SyntaxError::NotEndOfFile(at.line, at.column),
            ) && (progress == MadeProgress <==> at.bytes.len() < s.bytes.len())
        },
{
    lemma_module_def(def, s);
    match module_def(def)(s) {
        Ok((_, one, s1)) => {
            let stops = seq![s, s1];
            assert(are_defs(def, seq![one], stops));
            lemma_more_defs(def, seq![one], stops, s1)
        },
        Err(_) => {
            assert(are_defs(def, Seq::<Located<SpacedView<V>>>::empty(), seq![s]));
            seq![s]
        },
    }
}

/// What is found before more definitions stays before them.
proof fn lemma_more_behind<V, X>(
    def: Grammar<V, X>,
    first: Located<SpacedView<V>>,
    found: Seq<Located<SpacedView<V>>>,
    s: StateView,
)
    ensures
        match more(module_def(def), found, s) {
            Ok((p, all, end)) => more(module_def(def), seq![first] + found, s) == Ok::<
                _,
                (Progress, DefsError<X>, StateView),
            >((p, seq![first] + all, end)),
            Err(failure) => more(module_def(def), seq![first] + found, s) == Err::<
                (Progress, Seq<Located<SpacedView<V>>>, StateView),
                _,
            >(failure),
        },
    decreases s.bytes.len(),
{
    if let Ok((_, one, s1)) = module_def(def)(s) {
        assert((seq![first] + found).push(one) =~= seq![first] + found.push(one));
        if s1.bytes.len() < s.bytes.len() {
            lemma_more_behind(def, first, found.push(one), s1);
        }
    }
}

/// One more definition before a module body gives that definition, and behind it
/// all those of the body.
pub proof fn law_def_before_defs<V, X>(def: Grammar<V, X>, s: StateView, s1: StateView)
    requires
        module_def(def)(s) matches Ok((_, _, end)) && end == s1,
        module_def(def)(s1) matches Ok((_, _, end)) ==> end.bytes.len() < s1.bytes.len(),
    ensures
        match module_defs(def)(s1) {
            Ok((_, defs, end)) => module_defs(def)(s) matches Ok((_, all, all_end)) && {
                &&& all.len() == defs.len() + 1
                &&& is_def(def, all[0], s, s1)
                &&& forall|i: int| 0 <= i < defs.len() ==> #[trigger] all[i + 1] == defs[i]
                &&& all_end == end
            },
            Err((_, e, _)) => module_defs(def)(s) matches Err((_, problem, _)) && problem == e,
        },
{
    lemma_module_def(def, s);
    lemma_module_def(def, s1);
    let first = module_def(def)(s)->Ok_0.1;
    if let Ok((_, one, s2)) = module_def(def)(s1) {
        assert(seq![first].push(one) =~= seq![first] + seq![one]);
        lemma_more_behind(def, first, seq![one], s2);
    }
}

/// At the end of the input there are no definitions left.
pub proof fn law_no_defs<V, X>(def: Grammar<V, X>, s: StateView)
    requires
        s.bytes.len() == 0,
        def(s) matches Err((NoProgress, _, _)),
    ensures
        module_defs(def)(s) matches Ok((NoProgress, defs, end)) && defs.len() == 0 && end == s,
{
    law_module_def_parts(def, s);
}

} // verus!
