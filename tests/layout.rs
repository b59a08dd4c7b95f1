use cassowary::strength::{REQUIRED, WEAK};
use cassowary::WeightedRelation::{EQ, GE, LE};
use cassowary::{Expression as CExpr, Solver, Variable};
use cassowary_layout::demos::{cal_demo1, cal_demo2, cal_demo3, cal_demo4_begin, demo1_problem, demo2_problem};
use cassowary_layout::events::{demo2_key_release, demo3_size_change, demo4_place, redraw_region, Region};
use cassowary_layout::expr::{
    new_const, new_reg_con, new_var, Constraint, Expression, Function, ProblemType, Relationship,
    SystemOfConstraints, Term, VarId,
};
use cassowary_layout::growth::{demo4_mouse_release, shape_const_labels};
use cassowary_layout::layout::{place, LayoutError, Rect};
use cassowary_layout::solution::Solution;

fn var_for(vars: &mut Vec<(VarId, Variable)>, id: VarId) -> Variable {
    if let Some(&(_, v)) = vars.iter().find(|(i, _)| *i == id) {
        return v;
    }
    let v = Variable::new();
    vars.push((id, v));
    v
}

fn side(vars: &mut Vec<(VarId, Variable)>, terms: &[Term]) -> CExpr {
    let mut e = CExpr::from_constant(0.0);
    for t in terms {
        match t {
            Term::Var(x) => e = e + var_for(vars, x.id) * (x.coefficient as f64),
            Term::Const(c) => e = e + c.value as f64,
        }
    }
    e
}

/// Maximizes the objective under the system; `None` where it is unsatisfiable.
fn solve(f: &Function, sys: &SystemOfConstraints) -> Option<Solution> {
    let mut solver = Solver::new();
    let mut vars: Vec<(VarId, Variable)> = Vec::new();
    for c in &sys.system {
        let lhs: Vec<Term> = c.exp.lhs.iter().map(|v| Term::Var(*v)).collect();
        let l = side(&mut vars, &lhs);
        let r = side(&mut vars, &c.exp.rhs);
        let rel = match c.exp.rel {
            Relationship::EQ => EQ(REQUIRED),
            Relationship::LEQ => LE(REQUIRED),
            Relationship::GEQ => GE(REQUIRED),
        };
        solver.add_constraint(l | rel | r).ok()?;
    }
    let lhs: Vec<Term> = f.exp.lhs.iter().map(|v| Term::Var(*v)).collect();
    let total = side(&mut vars, &lhs);
    let sum = side(&mut vars, &f.exp.rhs);
    solver.add_constraint(total.clone() | EQ(REQUIRED) | sum).ok()?;
    for (_, v) in vars.clone() {
        solver.add_constraint(v | GE(REQUIRED) | 0.0).ok()?;
    }
    solver.add_constraint(total | GE(WEAK) | 1.0e6).ok()?;
    let values = vars.iter().map(|(id, v)| (*id, solver.get_value(*v).round() as i32)).collect();
    Some(Solution { values })
}

fn shape_solution(sizes: &[(i32, i32)]) -> Solution {
    let mut values = Vec::new();
    for (i, (w, h)) in sizes.iter().enumerate() {
        values.push((VarId::Width(i + 1), *w));
        values.push((VarId::Height(i + 1), *h));
    }
    Solution { values }
}

#[test]
fn two_shapes_stay_within_margins() {
    let (f, sys) = demo2_problem(30, 150, 30, 20, 20, 400, 200);
    let sol = solve(&f, &sys).expect("the two-shape system is satisfiable");
    let rects = cal_demo2(30, 20, 150, 20, 30, 20, 20, 400, 200, &sol).unwrap();
    assert_eq!(rects.len(), 2);
    assert!(rects[0].width <= 120);
    assert!(rects[0].height <= 160 && rects[1].height <= 160);
    assert_eq!((rects[0].x, rects[0].y, rects[1].x, rects[1].y), (30, 20, 150, 20));
}

#[test]
fn three_shapes_fix_the_first() {
    let (f, sys) = cal_demo4_begin(150, 300, 30, 20, 20, 400, 200);
    let sol = solve(&f, &sys).expect("the three-shape system is satisfiable");
    let rects = cal_demo3(30, 20, 150, 20, 300, 20, 30, 20, 20, 400, 200, &sol).unwrap();
    assert_eq!((rects[0].width, rects[0].height), (100, 100));
    assert!(rects[1].width <= 130 && rects[2].width <= 70);
    assert!(rects[1].height <= 160 && rects[2].height <= 160);
}

#[test]
fn one_shape_fills_the_surface() {
    let (f, sys) = demo1_problem(400, 200);
    let sol = solve(&f, &sys).unwrap();
    let rects = cal_demo1(400, 200, &sol).unwrap();
    assert_eq!(rects, vec![Rect { x: 30, y: 20, width: 340, height: 160 }]);
}

#[test]
fn labels_follow_the_base_seven() {
    assert_eq!(shape_const_labels(4), (8, 9, 10));
    assert_eq!(shape_const_labels(5), (11, 12, 13));
    assert_eq!(shape_const_labels(9), (23, 24, 25));
}

#[test]
fn negative_cap_is_infeasible() {
    let exp = Expression::new(vec![new_var(VarId::Width(1), 1)], Relationship::LEQ, vec![new_const(1, -10)]);
    let sys = SystemOfConstraints::new(vec![new_reg_con(exp)]);
    let f = Function::new(
        Expression::new(
            vec![new_var(VarId::Total, 1)],
            Relationship::EQ,
            vec![Term::Var(new_var(VarId::Width(1), 1))],
        ),
        ProblemType::MAX,
    );
    assert!(solve(&f, &sys).is_none());
    for w in [-10, 0, 5] {
        let sol = Solution { values: vec![(VarId::Width(1), w)] };
        assert!(!sol.is_feasible(&sys));
    }
}

#[test]
fn too_wide_a_shape_is_rejected() {
    let sol = shape_solution(&[(100, 100), (200, 50), (10, 10)]);
    assert_eq!(cal_demo3(30, 20, 150, 20, 300, 20, 30, 20, 20, 400, 200, &sol), Err(LayoutError::Infeasible));
    let sol = shape_solution(&[(100, 100), (130, 160), (70, 160)]);
    let rects = demo3_size_change(400, 200, &sol).unwrap();
    assert_eq!(rects[2], Rect { x: 300, y: 20, width: 70, height: 160 });
}

#[test]
fn missing_dimension_is_unresolved() {
    let sol = Solution { values: vec![(VarId::Width(1), 3)] };
    assert_eq!(place(&sol, &vec![(0, 0)]), Err(LayoutError::Unresolved));
    let sys = SystemOfConstraints::new(Vec::new());
    assert_eq!(demo4_place(&sys, &vec![(400, 20)], 4, &shape_solution(&[(1, 1), (1, 1), (1, 1)])), Err(LayoutError::Unresolved));
}

#[test]
fn first_entry_wins() {
    let sol = Solution { values: vec![(VarId::Width(1), 4), (VarId::Width(1), 9), (VarId::Height(1), 2)] };
    assert_eq!(sol.lookup(VarId::Width(1)), Some(4));
    assert_eq!(sol.lookup(VarId::Height(2)), None);
}

#[test]
fn growing_keeps_earlier_constraints() {
    let mut extra: Vec<Constraint> = Vec::new();
    let (f4, sys4) = demo4_mouse_release(420, 40, 50, 2, 300, 3, &mut extra, 600, 300);
    assert_eq!(extra.len(), 3);
    assert_eq!(sys4.system.len(), 10);
    let first = format!("{:?}", extra);
    let (f5, sys5) = demo4_mouse_release(500, 30, 30, 3, 420, 4, &mut extra, 600, 300);
    assert_eq!(extra.len(), 6);
    assert_eq!(format!("{:?}", &extra[..3]), first);
    assert_eq!(sys5.system.len(), 13);
    let names: Vec<VarId> = f5
        .exp
        .rhs
        .iter()
        .map(|t| match t {
            Term::Var(v) => v.id,
            Term::Const(_) => VarId::Total,
        })
        .collect();
    let mut want = Vec::new();
    for i in 1..=5 {
        want.push(VarId::Width(i));
        want.push(VarId::Height(i));
    }
    assert_eq!(names, want);
    assert_eq!(f4.exp.rhs.len(), 8);
    let sol5 = solve(&f5, &sys5).expect("the grown system is satisfiable");
    assert!(sol5.is_feasible(&sys4));
    let rects = demo4_place(&sys5, &vec![(420, 20), (500, 20)], 5, &sol5).unwrap();
    assert_eq!((rects[3].x, rects[3].width, rects[3].height), (420, 40, 50));
    assert_eq!((rects[4].x, rects[4].width, rects[4].height), (500, 30, 30));
    assert!(rects[2].width <= 100);
}

#[test]
fn rebuilding_gives_the_same_system_and_solution() {
    let (f1, s1) = cal_demo4_begin(150, 300, 30, 20, 20, 500, 260);
    let (f2, s2) = cal_demo4_begin(150, 300, 30, 20, 20, 500, 260);
    assert_eq!(format!("{:?}{:?}", f1, s1), format!("{:?}{:?}", f2, s2));
    let a = solve(&f1, &s1).unwrap();
    let b = solve(&f2, &s2).unwrap();
    assert_eq!(a.values, b.values);
}

#[test]
fn key_release_moves_by_five() {
    let rects = vec![Rect { x: 30, y: 20, width: 1, height: 1 }, Rect { x: 150, y: 20, width: 1, height: 1 }];
    let m = demo2_key_release(true, 0, &rects, 400, 200);
    assert_eq!((m.x_loc1, m.y_loc1, m.x_loc2, m.y_loc2), (25, 20, 150, 20));
    assert_eq!(m.region, Region { x: 19, y: 19, width: 342, height: 162 });
    let m = demo2_key_release(false, 1, &rects, 400, 200);
    assert_eq!((m.x_loc1, m.x_loc2), (30, 155));
    assert_eq!(m.region, Region { x: 29, y: 19, width: 342, height: 162 });
}

#[test]
fn redraw_region_right_of_first_shape() {
    assert_eq!(redraw_region(400, 200), Region { x: 149, y: 19, width: 252, height: 162 });
}
