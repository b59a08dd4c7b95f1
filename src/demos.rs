//! The fixed layouts of one, two and three shapes.
use vstd::prelude::*;
use crate::expr::{
    Constant, Constraint, ExpModel, Expression, Function, ProblemType, Relationship,
    SystemOfConstraints, Term, Var, VarId, new_const, new_reg_con, new_var, unit,
};
use crate::layout::{LayoutError, Rect, placed, solved, place, resolved, lemma_unit_sum_bounds};
use crate::solution::{
    Solution, exp_holds, feasible, lookup_spec, non_negative, rel_holds, term_value, terms_value, vars_value,
};

verus! {

/// A unit-weight reference to `id`.
pub open spec fn one(id: VarId) -> Var {
    Var { id, coefficient: 1 }
}

pub open spec fn w(i: usize) -> VarId {
    VarId::Width(i)
}

pub open spec fn h(i: usize) -> VarId {
    VarId::Height(i)
}

/// `sum(lhs) rel con<label>` where the constant is `value`.
pub open spec fn cap(lhs: Seq<Var>, rel: Relationship, label: u64, value: int) -> ExpModel {
    ExpModel { lhs, rel, rhs: seq![Term::Const(Constant { label, value: value as i64 })] }
}

/// `P = sum(ts)`.
pub open spec fn total_of(ts: Seq<Term>) -> ExpModel {
    ExpModel { lhs: seq![one(VarId::Total)], rel: Relationship::EQ, rhs: ts }
}

/// `t` is a reference to `id`.
pub open spec fn names(t: Term, id: VarId) -> bool {
    t matches Term::Var(x) && x.id == id
}

/// The unknowns that a right-hand side mentions.
pub open spec fn rhs_vars(ts: Seq<Term>) -> Set<VarId> {
    Set::new(|id: VarId| exists|j: int| 0 <= j < ts.len() && names(ts[j], id))
}

/// The widths and heights of shapes `1..=n`.
pub open spec fn shape_vars(n: nat) -> Set<VarId> {
    Set::new(
        |id: VarId|
            match id {
                VarId::Width(i) => 1 <= i <= n,
                VarId::Height(i) => 1 <= i <= n,
                VarId::Total => false,
            },
    )
}

/// `ts` lists width and height of shapes `1..=n` in turn.
pub open spec fn lists_shapes(ts: Seq<Term>, n: nat) -> bool {
    &&& ts.len() == 2 * n
    &&& forall|j: int|
        0 <= j < ts.len() ==> names(
            #[trigger] ts[j],
            if j % 2 == 0 {
                VarId::Width((j / 2 + 1) as usize)
            } else {
                VarId::Height((j / 2 + 1) as usize)
            },
        )
}

/// An objective that lists every shape in turn sums over exactly their widths
/// and heights.
pub proof fn lemma_lists_shapes_vars(ts: Seq<Term>, n: nat)
    requires
        lists_shapes(ts, n),
        n < usize::MAX,
    ensures
        rhs_vars(ts) == shape_vars(n),
{
    assert forall|id: VarId| #[trigger] shape_vars(n).contains(id) implies rhs_vars(ts).contains(id) by {
        match id {
            VarId::Width(i) => {
                let j = 2 * (i - 1);
                assert(j % 2 == 0 && j / 2 + 1 == i);
                assert(names(ts[j], id));
            },
            VarId::Height(i) => {
                let j = 2 * (i - 1) + 1;
                assert(j % 2 == 1 && j / 2 + 1 == i);
                assert(names(ts[j], id));
            },
            VarId::Total => {},
        }
    };
    assert forall|id: VarId| #[trigger] rhs_vars(ts).contains(id) implies shape_vars(n).contains(id) by {
        let j = choose|j: int| 0 <= j < ts.len() && names(ts[j], id);
        assert(names(ts[j], id));
    };
    assert(rhs_vars(ts) =~= shape_vars(n));
}

/// Builds `sum(lhs) rel con<label>`.
fn capped(lhs: Vec<Var>, rel: Relationship, label: u64, value: i64) -> (r: Constraint)
    ensures
        r@ == cap(lhs@, rel, label, value as int),
{
    let rhs = vec![new_const(label, value)];
    assert(rhs@ =~= seq![Term::Const(Constant { label, value })]);
    new_reg_con(Expression::new(lhs, rel, rhs))
}

/// A left-hand side of one unit-weight unknown.
fn single(id: VarId) -> (r: Vec<Var>)
    ensures
        r@ == seq![one(id)],
{
    let r = vec![new_var(id, 1)];
    assert(r@ =~= seq![one(id)]);
    r
}

/// Builds the objective `P = sum(terms)`, maximized.
fn maximize(terms: Vec<Term>) -> (r: Function)
    ensures
        r.exp@ == total_of(terms@),
        r.problem == ProblemType::MAX,
{
    let lhs = vec![new_var(VarId::Total, 1)];
    assert(lhs@ =~= seq![one(VarId::Total)]);
    Function::new(Expression::new(lhs, Relationship::EQ, terms), ProblemType::MAX)
}

pub open spec fn demo1_objective() -> Seq<Term> {
    seq![Term::Var(one(w(1))), Term::Var(one(h(1)))]
}

pub open spec fn demo1_system(da_width: i32, da_height: i32) -> Seq<ExpModel> {
    seq![
        cap(seq![one(w(1))], Relationship::LEQ, 1, da_width - 2 * 30),
        cap(seq![one(h(1))], Relationship::LEQ, 2, da_height - 2 * 20),
    ]
}

/// The one-shape system: the shape fills the surface less its margins.
pub fn demo1_problem(da_width: i32, da_height: i32) -> (r: (Function, SystemOfConstraints))
    ensures
        r.0.exp@ == total_of(demo1_objective()),
        r.0.problem == ProblemType::MAX,
        r.1@ == demo1_system(da_width, da_height),
        rhs_vars(r.0.exp@.rhs) == shape_vars(1),
{
    let side_margin: i64 = 30;
    let top_margin: i64 = 20;
    let f = maximize(vec![unit(VarId::Width(1)), unit(VarId::Height(1))]);
    let c1 = capped(single(VarId::Width(1)), Relationship::LEQ, 1, da_width as i64 - 2 * side_margin);
    let c2 = capped(single(VarId::Height(1)), Relationship::LEQ, 2, da_height as i64 - 2 * top_margin);
    let s = SystemOfConstraints::new(vec![c1, c2]);
    assert(f.exp@.rhs =~= demo1_objective());
    assert(s@ =~= demo1_system(da_width, da_height));
    proof {
        lemma_shapes_listed_upto(demo1_objective(), 1);
    }
    (f, s)
}

/// Where `sum(lhs) rel c` holds under non-negative values and unit weights,
/// each unknown of `lhs` is solved, at least 0 and at most the sum, which is
/// at most `c` (`LEQ`) or exactly `c` (`EQ`).
pub proof fn lemma_cap_bounds(s: Seq<(VarId, i32)>, lhs: Seq<Var>, rel: Relationship, label: u64, value: int)
    requires
        non_negative(s),
        i64::MIN <= value <= i64::MAX,
        forall|j: int| 0 <= j < lhs.len() ==> (#[trigger] lhs[j]).coefficient == 1,
        exp_holds(s, cap(lhs, rel, label, value)),
    ensures
        vars_value(s, lhs) matches Some(total) && rel_holds(rel, total, value),
        forall|j: int|
            0 <= j < lhs.len() ==> (lookup_spec(s, (#[trigger] lhs[j]).id) matches Some(x) && 0 <= x
                <= vars_value(s, lhs)->Some_0 && solved(s, lhs[j].id) == x),
{
    let rhs = cap(lhs, rel, label, value).rhs;
    assert(rhs.drop_last() =~= Seq::<Term>::empty());
    assert(terms_value(s, rhs.drop_last()) == Some(0int));
    assert(term_value(s, rhs.last()) == Some(value));
    assert(terms_value(s, rhs) == Some(value));
    lemma_unit_sum_bounds(s, lhs, vars_value(s, lhs)->Some_0);
}

/// The one-shape layout of a solution of `demo1_problem`: the shape stands
/// at (30, 20).
pub fn cal_demo1(da_width: i32, da_height: i32, sol: &Solution) -> (r: Result<Vec<Rect>, LayoutError>)
    ensures
        r matches Err(LayoutError::Infeasible) <==> !feasible(sol@, demo1_system(da_width, da_height)),
        r is Ok <==> feasible(sol@, demo1_system(da_width, da_height)) && resolved(sol@, 1),
        r matches Ok(rects) ==> rects@ == placed(sol@, seq![(30i32, 20i32)]),
        r matches Ok(rects) ==> 0 <= rects[0].width <= da_width - 2 * 30 && 0 <= rects[0].height
            <= da_height - 2 * 20,
{
    let (_f, sys) = demo1_problem(da_width, da_height);
    if !sol.is_feasible(&sys) {
        return Err(LayoutError::Infeasible);
    }
    proof {
        let d = demo1_system(da_width, da_height);
        assert(exp_holds(sol@, d[0]) && exp_holds(sol@, d[1]));
        lemma_cap_bounds(sol@, seq![one(w(1))], Relationship::LEQ, 1, da_width - 2 * 30);
        lemma_cap_bounds(sol@, seq![one(h(1))], Relationship::LEQ, 2, da_height - 2 * 20);
        assert(seq![one(w(1))][0].id == w(1));
        assert(seq![one(h(1))][0].id == h(1));
    }
    let pos = vec![(30i32, 20i32)];
    assert(pos@ =~= seq![(30i32, 20i32)]);
    place(sol, &pos)
}

/// `P = w1/2 + h1 + w2 + h2`, scaled by two to keep integer weights.
pub open spec fn demo2_objective() -> Seq<Term> {
    seq![
        Term::Var(one(w(1))),
        Term::Var(Var { id: h(1), coefficient: 2 }),
        Term::Var(Var { id: w(2), coefficient: 2 }),
        Term::Var(Var { id: h(2), coefficient: 2 }),
    ]
}

/// Two shapes side by side: shared width, each height, and each width up to
/// the next left edge (or the right margin) less the gap.
pub open spec fn demo2_system(
    x_loc1: i32,
    x_loc2: i32,
    side_margin: i32,
    mid_margin: i32,
    top_margin: i32,
    da_width: i32,
    da_height: i32,
) -> Seq<ExpModel> {
    seq![
        cap(seq![one(w(1)), one(w(2))], Relationship::LEQ, 1, da_width - 2 * side_margin - mid_margin),
        cap(seq![one(h(1))], Relationship::LEQ, 2, da_height - 2 * top_margin),
        cap(seq![one(h(2))], Relationship::LEQ, 3, da_height - 2 * top_margin),
        cap(seq![one(w(1))], Relationship::LEQ, 4, x_loc2 - x_loc1 - mid_margin),
        cap(seq![one(w(2))], Relationship::LEQ, 5, da_width - (x_loc2 + side_margin)),
    ]
}

/// A left-hand side of two unit-weight unknowns.
fn pair(a: VarId, b: VarId) -> (r: Vec<Var>)
    ensures
        r@ == seq![one(a), one(b)],
{
    let r = vec![new_var(a, 1), new_var(b, 1)];
    assert(r@ =~= seq![one(a), one(b)]);
    r
}

/// A left-hand side of three unit-weight unknowns.
fn triple(a: VarId, b: VarId, c: VarId) -> (r: Vec<Var>)
    ensures
        r@ == seq![one(a), one(b), one(c)],
{
    let r = vec![new_var(a, 1), new_var(b, 1), new_var(c, 1)];
    assert(r@ =~= seq![one(a), one(b), one(c)]);
    r
}

/// The two-shape system.
pub fn demo2_problem(
    x_loc1: i32,
    x_loc2: i32,
    side_margin: i32,
    mid_margin: i32,
    top_margin: i32,
    da_width: i32,
    da_height: i32,
) -> (r: (Function, SystemOfConstraints))
    ensures
        r.0.exp@ == total_of(demo2_objective()),
        r.0.problem == ProblemType::MAX,
        r.1@ == demo2_system(x_loc1, x_loc2, side_margin, mid_margin, top_margin, da_width, da_height),
        rhs_vars(r.0.exp@.rhs) == shape_vars(2),
{
    let (x1, x2, sm, mm, tm, dw, dh) = (
        x_loc1 as i64,
        x_loc2 as i64,
        side_margin as i64,
        mid_margin as i64,
        top_margin as i64,
        da_width as i64,
        da_height as i64,
    );
    let f = maximize(
        vec![
            unit(VarId::Width(1)),
            Term::Var(new_var(VarId::Height(1), 2)),
            Term::Var(new_var(VarId::Width(2), 2)),
            Term::Var(new_var(VarId::Height(2), 2)),
        ],
    );
    let c1 = capped(pair(VarId::Width(1), VarId::Width(2)), Relationship::LEQ, 1, dw - 2 * sm - mm);
    let c2 = capped(single(VarId::Height(1)), Relationship::LEQ, 2, dh - 2 * tm);
    let c3 = capped(single(VarId::Height(2)), Relationship::LEQ, 3, dh - 2 * tm);
    let c4 = capped(single(VarId::Width(1)), Relationship::LEQ, 4, x2 - x1 - mm);
    let c5 = capped(single(VarId::Width(2)), Relationship::LEQ, 5, dw - (x2 + sm));
    let s = SystemOfConstraints::new(vec![c1, c2, c3, c4, c5]);
    assert(f.exp@.rhs =~= demo2_objective());
    assert(s@ =~= demo2_system(x_loc1, x_loc2, side_margin, mid_margin, top_margin, da_width, da_height));
    proof {
        lemma_shapes_listed_upto(demo2_objective(), 2);
    }
    (f, s)
}

/// The two-shape layout of a solution of `demo2_problem`, with the shapes
/// at `(x_loc1, y_loc1)` and `(x_loc2, y_loc2)`.
pub fn cal_demo2(
    x_loc1: i32,
    y_loc1: i32,
    x_loc2: i32,
    y_loc2: i32,
    side_margin: i32,
    mid_margin: i32,
    top_margin: i32,
    da_width: i32,
    da_height: i32,
    sol: &Solution,
) -> (r: Result<Vec<Rect>, LayoutError>)
    ensures
        ({
            let sys = demo2_system(x_loc1, x_loc2, side_margin, mid_margin, top_margin, da_width, da_height);
            &&& (r matches Err(LayoutError::Infeasible)) <==> !feasible(sol@, sys)
            &&& (r is Ok) <==> feasible(sol@, sys) && resolved(sol@, 2)
        }),
        r matches Ok(rects) ==> rects@ == placed(sol@, seq![(x_loc1, y_loc1), (x_loc2, y_loc2)]),
        r matches Ok(rects) ==> 0 <= rects[0].width <= da_width - 2 * side_margin - mid_margin && 0
            <= rects[1].width <= da_width - 2 * side_margin - mid_margin,
        r matches Ok(rects) ==> 0 <= rects[0].height <= da_height - 2 * top_margin && 0 <= rects[1].height
            <= da_height - 2 * top_margin,
        r matches Ok(rects) ==> rects[0].width <= x_loc2 - x_loc1 - mid_margin && rects[1].width
            <= da_width - (x_loc2 + side_margin),
{
    let (_f, sys) = demo2_problem(x_loc1, x_loc2, side_margin, mid_margin, top_margin, da_width, da_height);
    if !sol.is_feasible(&sys) {
        return Err(LayoutError::Infeasible);
    }
    proof {
        let d = demo2_system(x_loc1, x_loc2, side_margin, mid_margin, top_margin, da_width, da_height);
        assert(exp_holds(sol@, d[0]) && exp_holds(sol@, d[1]) && exp_holds(sol@, d[2]));
        assert(exp_holds(sol@, d[3]) && exp_holds(sol@, d[4]));
        let ws = seq![one(w(1)), one(w(2))];
        lemma_cap_bounds(sol@, ws, Relationship::LEQ, 1, da_width - 2 * side_margin - mid_margin);
        assert(ws[0].id == w(1) && ws[1].id == w(2));
        lemma_cap_bounds(sol@, seq![one(h(1))], Relationship::LEQ, 2, da_height - 2 * top_margin);
        lemma_cap_bounds(sol@, seq![one(h(2))], Relationship::LEQ, 3, da_height - 2 * top_margin);
        lemma_cap_bounds(sol@, seq![one(w(1))], Relationship::LEQ, 4, x_loc2 - x_loc1 - mid_margin);
        lemma_cap_bounds(sol@, seq![one(w(2))], Relationship::LEQ, 5, da_width - (x_loc2 + side_margin));
        assert(seq![one(w(1))][0].id == w(1));
        assert(seq![one(w(2))][0].id == w(2));
        assert(seq![one(h(1))][0].id == h(1));
        assert(seq![one(h(2))][0].id == h(2));
    }
    let pos = vec![(x_loc1, y_loc1), (x_loc2, y_loc2)];
    assert(pos@ =~= seq![(x_loc1, y_loc1), (x_loc2, y_loc2)]);
    let r = place(sol, &pos);
    proof {
        if r is Ok {
            let rects = r->Ok_0;
            assert(rects@[0].width == solved(sol@, w(1)) && rects@[0].height == solved(sol@, h(1)));
            assert(rects@[1].width == solved(sol@, w(2)) && rects@[1].height == solved(sol@, h(2)));
        }
    }
    r
}

/// `P = w1 + h1 + w2 + h2 + w3 + h3`.
pub open spec fn demo3_objective() -> Seq<Term> {
    seq![
        Term::Var(one(w(1))),
        Term::Var(one(h(1))),
        Term::Var(one(w(2))),
        Term::Var(one(h(2))),
        Term::Var(one(w(3))),
        Term::Var(one(h(3))),
    ]
}

/// Three shapes in a row, the first of them fixed at 100 by 100.
pub open spec fn demo3_system(
    x_loc2: i32,
    x_loc3: i32,
    side_margin: i32,
    mid_margin: i32,
    top_margin: i32,
    da_width: i32,
    da_height: i32,
) -> Seq<ExpModel> {
    seq![
        cap(
            seq![one(w(1)), one(w(2)), one(w(3))],
            Relationship::LEQ,
            1,
            da_width - 2 * side_margin - 2 * mid_margin,
        ),
        cap(seq![one(h(2))], Relationship::LEQ, 2, da_height - 2 * top_margin),
        cap(seq![one(h(3))], Relationship::LEQ, 3, da_height - 2 * top_margin),
        cap(seq![one(h(1))], Relationship::EQ, 4, 100),
        cap(seq![one(w(2))], Relationship::LEQ, 5, x_loc3 - x_loc2 - mid_margin),
        cap(seq![one(w(3))], Relationship::LEQ, 6, da_width - (x_loc3 + side_margin)),
        cap(seq![one(w(1))], Relationship::EQ, 7, 100),
    ]
}

/// The three-shape system and its objective, the base that grows as shapes
/// are added.
pub fn cal_demo4_begin(
    x_loc2: i32,
    x_loc3: i32,
    side_margin: i32,
    mid_margin: i32,
    top_margin: i32,
    da_width: i32,
    da_height: i32,
) -> (r: (Function, SystemOfConstraints))
    ensures
        r.0.exp@ == total_of(demo3_objective()),
        r.0.problem == ProblemType::MAX,
        r.1@ == demo3_system(x_loc2, x_loc3, side_margin, mid_margin, top_margin, da_width, da_height),
        lists_shapes(r.0.exp@.rhs, 3),
        rhs_vars(r.0.exp@.rhs) == shape_vars(3),
{
    let (x2, x3, sm, mm, tm, dw, dh) = (
        x_loc2 as i64,
        x_loc3 as i64,
        side_margin as i64,
        mid_margin as i64,
        top_margin as i64,
        da_width as i64,
        da_height as i64,
    );
    let f = maximize(
        vec![
            unit(VarId::Width(1)),
            unit(VarId::Height(1)),
            unit(VarId::Width(2)),
            unit(VarId::Height(2)),
            unit(VarId::Width(3)),
            unit(VarId::Height(3)),
        ],
    );
    let fixed_size: i64 = 100;
    let c1 = capped(
        triple(VarId::Width(1), VarId::Width(2), VarId::Width(3)),
        Relationship::LEQ,
        1,
        dw - 2 * sm - 2 * mm,
    );
    let c2 = capped(single(VarId::Height(2)), Relationship::LEQ, 2, dh - 2 * tm);
    let c3 = capped(single(VarId::Height(3)), Relationship::LEQ, 3, dh - 2 * tm);
    let c4 = capped(single(VarId::Height(1)), Relationship::EQ, 4, fixed_size);
    let c5 = capped(single(VarId::Width(2)), Relationship::LEQ, 5, x3 - x2 - mm);
    let c6 = capped(single(VarId::Width(3)), Relationship::LEQ, 6, dw - (x3 + sm));
    let c7 = capped(single(VarId::Width(1)), Relationship::EQ, 7, fixed_size);
    let s = SystemOfConstraints::new(vec![c1, c2, c3, c4, c5, c6, c7]);
    assert(f.exp@.rhs =~= demo3_objective());
    assert(s@ =~= demo3_system(x_loc2, x_loc3, side_margin, mid_margin, top_margin, da_width, da_height));
    proof {
        lemma_shapes_listed_upto(demo3_objective(), 3);
    }
    (f, s)
}

/// The three-shape layout of a solution of `cal_demo4_begin`'s system, with
/// the shapes at the three given places.
pub fn cal_demo3(
    x_loc1: i32,
    y_loc1: i32,
    x_loc2: i32,
    y_loc2: i32,
    x_loc3: i32,
    y_loc3: i32,
    side_margin: i32,
    mid_margin: i32,
    top_margin: i32,
    da_width: i32,
    da_height: i32,
    sol: &Solution,
) -> (r: Result<Vec<Rect>, LayoutError>)
    ensures
        ({
            let sys = demo3_system(x_loc2, x_loc3, side_margin, mid_margin, top_margin, da_width, da_height);
            &&& (r matches Err(LayoutError::Infeasible)) <==> !feasible(sol@, sys)
            &&& (r is Ok) <==> feasible(sol@, sys) && resolved(sol@, 3)
        }),
        r matches Ok(rects) ==> rects@ == placed(
            sol@,
            seq![(x_loc1, y_loc1), (x_loc2, y_loc2), (x_loc3, y_loc3)],
        ),
        r matches Ok(rects) ==> rects[0].width == 100 && rects[0].height == 100,
        r matches Ok(rects) ==> 0 <= rects[1].width <= x_loc3 - x_loc2 - mid_margin && 0 <= rects[2].width
            <= da_width - (x_loc3 + side_margin),
        r matches Ok(rects) ==> rects[0].width + rects[1].width + rects[2].width <= da_width - 2
            * side_margin - 2 * mid_margin,
        r matches Ok(rects) ==> 0 <= rects[1].height <= da_height - 2 * top_margin && 0 <= rects[2].height
            <= da_height - 2 * top_margin,
{
    let (_f, sys) = cal_demo4_begin(x_loc2, x_loc3, side_margin, mid_margin, top_margin, da_width, da_height);
    if !sol.is_feasible(&sys) {
        return Err(LayoutError::Infeasible);
    }
    proof {
        let d = demo3_system(x_loc2, x_loc3, side_margin, mid_margin, top_margin, da_width, da_height);
        assert(exp_holds(sol@, d[0]) && exp_holds(sol@, d[1]) && exp_holds(sol@, d[2]));
        assert(exp_holds(sol@, d[3]) && exp_holds(sol@, d[4]) && exp_holds(sol@, d[5]));
        assert(exp_holds(sol@, d[6]));
        let ws = seq![one(w(1)), one(w(2)), one(w(3))];
        lemma_cap_bounds(sol@, ws, Relationship::LEQ, 1, da_width - 2 * side_margin - 2 * mid_margin);
        assert(ws[0].id == w(1) && ws[1].id == w(2) && ws[2].id == w(3));
        lemma_sum3(sol@, ws);
        lemma_cap_bounds(sol@, seq![one(h(2))], Relationship::LEQ, 2, da_height - 2 * top_margin);
        lemma_cap_bounds(sol@, seq![one(h(3))], Relationship::LEQ, 3, da_height - 2 * top_margin);
        lemma_cap_bounds(sol@, seq![one(h(1))], Relationship::EQ, 4, 100);
        lemma_cap_bounds(sol@, seq![one(w(2))], Relationship::LEQ, 5, x_loc3 - x_loc2 - mid_margin);
        lemma_cap_bounds(sol@, seq![one(w(3))], Relationship::LEQ, 6, da_width - (x_loc3 + side_margin));
        lemma_cap_bounds(sol@, seq![one(w(1))], Relationship::EQ, 7, 100);
        lemma_single(sol@, w(1));
        lemma_single(sol@, w(2));
        lemma_single(sol@, w(3));
        lemma_single(sol@, h(1));
        lemma_single(sol@, h(2));
        lemma_single(sol@, h(3));
    }
    let pos = vec![(x_loc1, y_loc1), (x_loc2, y_loc2), (x_loc3, y_loc3)];
    assert(pos@ =~= seq![(x_loc1, y_loc1), (x_loc2, y_loc2), (x_loc3, y_loc3)]);
    let r = place(sol, &pos);
    proof {
        if r is Ok {
            let rects = r->Ok_0;
            assert(rects@[0].width == solved(sol@, w(1)) && rects@[0].height == solved(sol@, h(1)));
            assert(rects@[1].width == solved(sol@, w(2)) && rects@[1].height == solved(sol@, h(2)));
            assert(rects@[2].width == solved(sol@, w(3)) && rects@[2].height == solved(sol@, h(3)));
        }
    }
    r
}

/// The sum of one unit-weight unknown is its value.
proof fn lemma_single(s: Seq<(VarId, i32)>, id: VarId)
    ensures
        vars_value(s, seq![one(id)]) == (match lookup_spec(s, id) {
            Some(x) => Some(x),
            None => None::<int>,
        }),
{
    assert(seq![one(id)].drop_last() =~= Seq::<Var>::empty());
    assert(vars_value(s, Seq::<Var>::empty()) == Some(0int));
}

/// The sum of three unit-weight unknowns, where all are solved.
proof fn lemma_sum3(s: Seq<(VarId, i32)>, xs: Seq<Var>)
    requires
        xs.len() == 3,
        forall|j: int| 0 <= j < 3 ==> (#[trigger] xs[j]).coefficient == 1,
        vars_value(s, xs) is Some,
    ensures
        vars_value(s, xs) == Some(
            lookup_spec(s, xs[0].id)->Some_0 + lookup_spec(s, xs[1].id)->Some_0 + lookup_spec(
                s,
                xs[2].id,
            )->Some_0,
        ),
{
    let p2 = xs.drop_last();
    let p1 = p2.drop_last();
    assert(p1.drop_last() =~= Seq::<Var>::empty());
    assert(p1[0] == xs[0] && p2[1] == xs[1]);
    assert(vars_value(s, p1.drop_last()) == Some(0int));
    assert(vars_value(s, p1) is Some && vars_value(s, p2) is Some);
}

/// A fixed objective of at most three shapes that names each width and
/// height in turn sums over exactly those unknowns.
proof fn lemma_shapes_listed_upto(ts: Seq<Term>, n: nat)
    requires
        1 <= n <= 3,
        ts.len() == 2 * n,
        names(ts[0], w(1)) && names(ts[1], h(1)),
        n >= 2 ==> names(ts[2], w(2)) && names(ts[3], h(2)),
        n >= 3 ==> names(ts[4], w(3)) && names(ts[5], h(3)),
    ensures
        lists_shapes(ts, n),
        rhs_vars(ts) == shape_vars(n),
{
    assert forall|j: int| 0 <= j < ts.len() implies names(
        #[trigger] ts[j],
        if j % 2 == 0 {
            VarId::Width((j / 2 + 1) as usize)
        } else {
            VarId::Height((j / 2 + 1) as usize)
        },
    ) by {
        if j == 0 {} else if j == 1 {} else if j == 2 {} else if j == 3 {} else if j == 4 {} else {}
    };
    lemma_lists_shapes_vars(ts, n);
}

/// A system that caps a unit-weight sum below zero has no feasible point: no
/// solution gives a negative width.
pub proof fn lemma_negative_cap_infeasible(
    s: Seq<(VarId, i32)>,
    sys: Seq<ExpModel>,
    i: int,
    lhs: Seq<Var>,
    label: u64,
    value: int,
)
    requires
        0 <= i < sys.len(),
        i64::MIN <= value < 0,
        forall|j: int| 0 <= j < lhs.len() ==> (#[trigger] lhs[j]).coefficient == 1,
        sys[i] == cap(lhs, Relationship::LEQ, label, value),
    ensures
        !feasible(s, sys),
{
    if feasible(s, sys) {
        assert(exp_holds(s, sys[i]));
        lemma_cap_bounds(s, lhs, Relationship::LEQ, label, value);
        crate::layout::lemma_unit_sum_non_negative(s, lhs, vars_value(s, lhs)->Some_0);
    }
}

} // verus!
