//! Placing solved shapes, and the facts a feasible solution gives about them.
use vstd::prelude::*;
use crate::expr::{Var, VarId};
use crate::solution::{Solution, feasible, lookup_spec, non_negative, vars_value, var_value};

verus! {

/// A rectangle on the drawing surface.
#[derive(Clone, Copy, Debug, PartialEq, Eq, Structural)]
pub struct Rect {
    pub x: i32,
    pub y: i32,
    pub width: i32,
    pub height: i32,
}

/// Why no geometry came out of a solution.
#[derive(Clone, Copy, Debug, PartialEq, Eq, Structural)]
pub enum LayoutError {
    /// The solution is not a feasible point of the system.
    Infeasible,
    /// A shape's width or height has no value in the solution.
    Unresolved,
}

/// The solved value of `v`, or 0 where it has none.
pub open spec fn solved(s: Seq<(VarId, i32)>, v: VarId) -> i32 {
    match lookup_spec(s, v) {
        Some(x) => x as i32,
        None => 0,
    }
}

/// Shapes `1..=n` all have a width and a height in `s`.
pub open spec fn resolved(s: Seq<(VarId, i32)>, n: nat) -> bool {
    forall|i: usize|
        1 <= i <= n ==> (#[trigger] lookup_spec(s, VarId::Width(i))) is Some && lookup_spec(
            s,
            VarId::Height(i),
        ) is Some
}

/// Shape `k + 1` drawn at `pos[k]` with its solved size.
pub open spec fn placed(s: Seq<(VarId, i32)>, pos: Seq<(i32, i32)>) -> Seq<Rect> {
    Seq::new(
        pos.len(),
        |k: int|
            Rect {
                x: pos[k].0,
                y: pos[k].1,
                width: solved(s, VarId::Width((k + 1) as usize)),
                height: solved(s, VarId::Height((k + 1) as usize)),
            },
    )
}

/// Places shape `k + 1` at `pos[k]` with the size that `sol` gives it; fails
/// as a whole where one dimension of one shape is missing.
pub fn place(sol: &Solution, pos: &Vec<(i32, i32)>) -> (r: Result<Vec<Rect>, LayoutError>)
    requires
        pos@.len() < usize::MAX,
    ensures
        match r {
            Ok(rects) => resolved(sol@, pos@.len()) && rects@ == placed(sol@, pos@),
            Err(e) => e == LayoutError::Unresolved && !resolved(sol@, pos@.len()),
        },
{
    let mut rects: Vec<Rect> = Vec::new();
    let mut k: usize = 0;
    while k < pos.len()
        invariant
            k <= pos@.len() < usize::MAX,
            resolved(sol@, k as nat),
            rects@ == placed(sol@, pos@).subrange(0, k as int),
        decreases pos@.len() - k,
    {
        let w = sol.lookup(VarId::Width(k + 1));
        let h = sol.lookup(VarId::Height(k + 1));
        match (w, h) {
            (Some(w), Some(h)) => {
                rects.push(Rect { x: pos[k].0, y: pos[k].1, width: w, height: h });
                assert(rects@ =~= placed(sol@, pos@).subrange(0, k + 1));
                k = k + 1;
            },
            _ => {
                assert(!resolved(sol@, pos@.len()) ) by {
                    assert(1 <= k + 1 <= pos@.len());
                    if lookup_spec(sol@, VarId::Width((k + 1) as usize)) is Some {
                        assert(lookup_spec(sol@, VarId::Height((k + 1) as usize)) is None);
                    }
                };
                return Err(LayoutError::Unresolved);
            },
        }
    }
    assert(rects@ =~= placed(sol@, pos@));
    Ok(rects)
}

/// A solved value is one of the solution's values.
pub proof fn lemma_lookup_non_negative(s: Seq<(VarId, i32)>, v: VarId)
    requires
        non_negative(s),
    ensures
        lookup_spec(s, v) matches Some(x) ==> 0 <= x <= i32::MAX && solved(s, v) == x,
    decreases s.len(),
{
    if s.len() > 0 && s[0].0 != v {
        assert forall|i: int| 0 <= i < s.drop_first().len() implies 0 <= #[trigger] s.drop_first()[i].1 by {
            assert(s.drop_first()[i] == s[i + 1]);
        };
        lemma_lookup_non_negative(s.drop_first(), v);
    }
}

/// Under non-negative values, a unit-weight sum bounds each of its unknowns.
pub proof fn lemma_unit_sum_bounds(s: Seq<(VarId, i32)>, xs: Seq<Var>, total: int)
    requires
        non_negative(s),
        forall|j: int| 0 <= j < xs.len() ==> (#[trigger] xs[j]).coefficient == 1,
        vars_value(s, xs) == Some(total),
    ensures
        forall|j: int|
            0 <= j < xs.len() ==> (lookup_spec(s, (#[trigger] xs[j]).id) matches Some(x) && 0 <= x
                <= total && solved(s, xs[j].id) == x),
    decreases xs.len(),
{
    if xs.len() > 0 {
        let pre = xs.drop_last();
        let last = xs.last();
        let a = vars_value(s, pre)->Some_0;
        let b = var_value(s, last)->Some_0;
        lemma_lookup_non_negative(s, last.id);
        assert forall|j: int| 0 <= j < pre.len() implies (#[trigger] pre[j]).coefficient == 1 by {
            assert(pre[j] == xs[j]);
        };
        lemma_unit_sum_bounds(s, pre, a);
        assert forall|j: int| 0 <= j < pre.len() implies (lookup_spec(s, (#[trigger] pre[j]).id) matches Some(x)
            && 0 <= x <= total && solved(s, pre[j].id) == x) by {
            lemma_lookup_non_negative(s, pre[j].id);
        };
        if a < 0 {
            // a sum of non-negative values is non-negative
            lemma_unit_sum_non_negative(s, pre, a);
        }
        assert forall|j: int| 0 <= j < xs.len() implies (lookup_spec(s, (#[trigger] xs[j]).id) matches Some(x)
            && 0 <= x <= total && solved(s, xs[j].id) == x) by {
            if j < pre.len() {
                assert(xs[j] == pre[j]);
            }
        };
    }
}

/// Under non-negative values, a unit-weight sum is non-negative.
pub proof fn lemma_unit_sum_non_negative(s: Seq<(VarId, i32)>, xs: Seq<Var>, total: int)
    requires
        non_negative(s),
        forall|j: int| 0 <= j < xs.len() ==> (#[trigger] xs[j]).coefficient == 1,
        vars_value(s, xs) == Some(total),
    ensures
        0 <= total,
    decreases xs.len(),
{
    if xs.len() > 0 {
        let pre = xs.drop_last();
        assert forall|j: int| 0 <= j < pre.len() implies (#[trigger] pre[j]).coefficient == 1 by {
            assert(pre[j] == xs[j]);
        };
        lemma_lookup_non_negative(s, xs.last().id);
        lemma_unit_sum_non_negative(s, pre, vars_value(s, pre)->Some_0);
    }
}

} // verus!
