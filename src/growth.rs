//! Growing the three-shape system one shape at a time.
use vstd::prelude::*;
use crate::demos::{
    cal_demo4_begin, cap, demo3_system, h, lemma_lists_shapes_vars, lists_shapes, names, one,
    rhs_vars, shape_vars, total_of, w,
};
use crate::expr::{
    Constant, Constraint, ExpModel, Expression, Function, ProblemType, Relationship,
    SystemOfConstraints, Term, VarId, new_const, new_reg_con, new_var, unit,
};
use crate::solution::{exp_holds, feasible};

verus! {

/// The largest of the three constant labels of shape `k`.
pub open spec fn label_base(k: int) -> int {
    7 + 3 * (k - 3)
}

/// The constant labels of shape `k`, from four on: the three numbers up to
/// `7 + 3 * (k - 3)`, which follow the seven labels of the base system.
pub fn shape_const_labels(k: usize) -> (r: (u64, u64, u64))
    requires
        4 <= k,
        label_base(k as int) <= u64::MAX,
    ensures
        r.0 == label_base(k as int) - 2,
        r.1 == label_base(k as int) - 1,
        r.2 == label_base(k as int),
{
    let m: u64 = 7 + 3 * (k as u64 - 3);
    (m - 2, m - 1, m)
}

/// The labels that shape `k` uses.
pub open spec fn shape_labels(k: int) -> Set<int> {
    set![label_base(k) - 2, label_base(k) - 1, label_base(k)]
}

/// No two shapes from four on share a label, and none of them uses one of
/// the base system's labels `1..=7`.
pub proof fn lemma_labels_never_collide(k1: int, k2: int)
    requires
        4 <= k1,
        4 <= k2,
        k1 != k2,
    ensures
        shape_labels(k1).disjoint(shape_labels(k2)),
        forall|l: int| #[trigger] shape_labels(k1).contains(l) ==> 7 < l,
{
}

/// The objective over shapes `1..=n`, each width and height with weight 1.
pub open spec fn all_shapes_objective(n: nat) -> Seq<Term>
    decreases n,
{
    if n == 0 {
        Seq::empty()
    } else {
        all_shapes_objective((n - 1) as nat).push(Term::Var(one(w(n as usize)))).push(
            Term::Var(one(h(n as usize))),
        )
    }
}

/// The three constraints that a shape `k` adds: its size, and a cap on the
/// width of shape `mr + 1` so that it keeps a gap of 20 to the new shape.
pub open spec fn added_constraints(
    k: usize,
    new_x: i32,
    new_width: i32,
    new_height: i32,
    mr: usize,
    mr_x: i32,
) -> Seq<ExpModel> {
    let m = label_base(k as int);
    seq![
        cap(seq![one(w(k))], Relationship::EQ, (m - 2) as u64, new_width as int),
        cap(seq![one(h(k))], Relationship::EQ, (m - 1) as u64, new_height as int),
        cap(seq![one(w((mr + 1) as usize))], Relationship::LEQ, m as u64, new_x - mr_x - 20),
    ]
}

/// The system of `shape_number` shapes: the base system at its fixed places,
/// then all the constraints that later shapes added.
pub open spec fn grown_system(da_width: i32, da_height: i32, extra: Seq<ExpModel>) -> Seq<ExpModel> {
    demo3_system(150, 300, 30, 20, 20, da_width, da_height) + extra
}

pub open spec fn views(cs: Seq<Constraint>) -> Seq<ExpModel> {
    cs.map_values(|c: Constraint| c@)
}

/// Adds shape `shape_count + 1` after a release of the mouse: appends its
/// three constraints to `extra`, then rebuilds the base system, extends the
/// objective over every shape and appends the whole of `extra`.
pub fn demo4_mouse_release(
    new_x: i32,
    new_width: i32,
    new_height: i32,
    mr: usize,
    mr_x: i32,
    shape_count: usize,
    extra: &mut Vec<Constraint>,
    da_width: i32,
    da_height: i32,
) -> (r: (Function, SystemOfConstraints))
    requires
        3 <= shape_count,
        label_base(shape_count + 1) <= u64::MAX,
        shape_count + 1 < usize::MAX,
        mr < usize::MAX,
    ensures
        views(final(extra)@) == views(old(extra)@) + added_constraints(
            (shape_count + 1) as usize,
            new_x,
            new_width,
            new_height,
            mr,
            mr_x,
        ),
        r.0.exp@ == total_of(all_shapes_objective((shape_count + 1) as nat)),
        r.0.problem == ProblemType::MAX,
        rhs_vars(r.0.exp@.rhs) == shape_vars((shape_count + 1) as nat),
        r.1@ == grown_system(da_width, da_height, views(final(extra)@)),
{
    let k = shape_count + 1;
    let (l1, l2, l3) = shape_const_labels(k);
    let gap: i64 = 20;
    let e1 = Expression::new(vec![new_var(VarId::Width(k), 1)], Relationship::EQ, vec![new_const(l1, new_width as i64)]);
    let e2 = Expression::new(vec![new_var(VarId::Height(k), 1)], Relationship::EQ, vec![new_const(l2, new_height as i64)]);
    let room: i64 = new_x as i64 - mr_x as i64 - gap;
    let e3 = Expression::new(vec![new_var(VarId::Width(mr + 1), 1)], Relationship::LEQ, vec![new_const(l3, room)]);
    let ghost before = views(extra@);
    let mut to_add = vec![new_reg_con(e1), new_reg_con(e2), new_reg_con(e3)];
    let ghost added = views(to_add@);
    assert(added =~= added_constraints(k, new_x, new_width, new_height, mr, mr_x)) by {
        assert(to_add@[0]@.lhs =~= seq![one(w(k))]);
        assert(to_add@[0]@.rhs =~= seq![Term::Const(Constant { label: l1, value: new_width as i64 })]);
        assert(to_add@[1]@.lhs =~= seq![one(h(k))]);
        assert(to_add@[1]@.rhs =~= seq![Term::Const(Constant { label: l2, value: new_height as i64 })]);
        assert(to_add@[2]@.lhs =~= seq![one(w((mr + 1) as usize))]);
        assert(to_add@[2]@.rhs =~= seq![
            Term::Const(Constant { label: l3, value: (new_x - mr_x - 20) as i64 }),
        ]);
    };
    extra.append(&mut to_add);
    assert(views(extra@) =~= before + added);
    let (mut fun, mut constraints) = cal_demo4_begin(150, 300, 30, 20, 20, da_width, da_height);
    assert(all_shapes_objective(3) =~= fun.exp@.rhs) by {
        reveal_with_fuel(all_shapes_objective, 4);
    };
    let mut i: usize = 3;
    while i < k
        invariant
            3 <= i <= k,
            fun.exp@ == total_of(all_shapes_objective(i as nat)),
            fun.problem == ProblemType::MAX,
        decreases k - i,
    {
        fun.exp_max_mut().add_rhs(unit(VarId::Width(i + 1)));
        fun.exp_max_mut().add_rhs(unit(VarId::Height(i + 1)));
        i = i + 1;
    }
    constraints.extend_from(extra);
    proof {
        lemma_all_shapes_listed(k as nat);
        lemma_lists_shapes_vars(all_shapes_objective(k as nat), k as nat);
    }
    (fun, constraints)
}

/// The objective over shapes `1..=n` lists each width and height in turn.
pub proof fn lemma_all_shapes_listed(n: nat)
    ensures
        lists_shapes(all_shapes_objective(n), n),
    decreases n,
{
    if n > 0 {
        let pre = all_shapes_objective((n - 1) as nat);
        lemma_all_shapes_listed((n - 1) as nat);
        let ts = all_shapes_objective(n);
        assert forall|j: int| 0 <= j < ts.len() implies names(
            #[trigger] ts[j],
            if j % 2 == 0 {
                VarId::Width((j / 2 + 1) as usize)
            } else {
                VarId::Height((j / 2 + 1) as usize)
            },
        ) by {
            if j < pre.len() {
                assert(ts[j] == pre[j]);
            }
        };
    }
}

/// Where a solution is feasible for a system that grew by appending, it is
/// feasible for the system as it stood before: adding a shape leaves the
/// earlier constraints in place, and every point that meets the grown system
/// meets them.
pub proof fn lemma_growth_keeps_earlier(s: Seq<(VarId, i32)>, earlier: Seq<ExpModel>, added: Seq<ExpModel>)
    requires
        feasible(s, earlier + added),
    ensures
        (earlier + added).subrange(0, earlier.len() as int) == earlier,
        feasible(s, earlier),
{
    assert((earlier + added).subrange(0, earlier.len() as int) =~= earlier);
    assert forall|i: int| 0 <= i < earlier.len() implies exp_holds(s, #[trigger] earlier[i]) by {
        assert((earlier + added)[i] == earlier[i]);
    };
}

/// Adding a shape appends to the grown system: the system before is a
/// prefix of the system after, and a feasible point of the larger system is a
/// feasible point of the smaller one.
pub proof fn lemma_adding_shape_keeps_earlier(
    s: Seq<(VarId, i32)>,
    da_width: i32,
    da_height: i32,
    extra: Seq<ExpModel>,
    added: Seq<ExpModel>,
)
    requires
        feasible(s, grown_system(da_width, da_height, extra + added)),
    ensures
        grown_system(da_width, da_height, extra + added) == grown_system(da_width, da_height, extra)
            + added,
        feasible(s, grown_system(da_width, da_height, extra)),
{
    let base = demo3_system(150, 300, 30, 20, 20, da_width, da_height);
    assert(base + (extra + added) =~= (base + extra) + added);
    lemma_growth_keeps_earlier(s, base + extra, added);
}

} // verus!
