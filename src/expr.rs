//! Terms, expressions, constraints and objectives over shape variables.
use vstd::prelude::*;

verus! {

/// The unknowns of a layout system. Shape indices start at 1.
#[derive(Clone, Copy, Debug, PartialEq, Eq, Structural)]
pub enum VarId {
    /// The synthetic total that the objective maximizes.
    Total,
    /// The width of shape `i`.
    Width(usize),
    /// The height of shape `i`.
    Height(usize),
}

/// A weighted reference to an unknown.
#[derive(Clone, Copy, Debug, PartialEq, Eq, Structural)]
pub struct Var {
    pub id: VarId,
    pub coefficient: i32,
}

/// A labelled constant; the label numbers the constant (`con<label>`) and
/// plays no part in the arithmetic.
#[derive(Clone, Copy, Debug, PartialEq, Eq, Structural)]
pub struct Constant {
    pub label: u64,
    pub value: i64,
}

/// One summand of a right-hand side.
#[derive(Clone, Copy, Debug, PartialEq, Eq, Structural)]
pub enum Term {
    Var(Var),
    Const(Constant),
}

#[derive(Clone, Copy, Debug, PartialEq, Eq, Structural)]
pub enum Relationship {
    EQ,
    LEQ,
    GEQ,
}

#[derive(Clone, Copy, Debug, PartialEq, Eq, Structural)]
pub enum ProblemType {
    MAX,
    MIN,
}

/// `sum(lhs) rel sum(rhs)`.
#[derive(Debug)]
pub struct Expression {
    pub lhs: Vec<Var>,
    pub rel: Relationship,
    pub rhs: Vec<Term>,
}

/// The mathematical content of an expression.
pub struct ExpModel {
    pub lhs: Seq<Var>,
    pub rel: Relationship,
    pub rhs: Seq<Term>,
}

impl View for Expression {
    type V = ExpModel;

    open spec fn view(&self) -> ExpModel {
        ExpModel { lhs: self.lhs@, rel: self.rel, rhs: self.rhs@ }
    }
}

/// A hard constraint wrapping one expression.
#[derive(Debug)]
pub struct Constraint {
    pub exp: Expression,
}

impl View for Constraint {
    type V = ExpModel;

    open spec fn view(&self) -> ExpModel {
        self.exp@
    }
}

/// An objective: an expression whose right-hand side is optimized.
#[derive(Debug)]
pub struct Function {
    pub exp: Expression,
    pub problem: ProblemType,
}

/// An append-only list of constraints.
#[derive(Debug)]
pub struct SystemOfConstraints {
    pub system: Vec<Constraint>,
}

impl View for SystemOfConstraints {
    type V = Seq<ExpModel>;

    open spec fn view(&self) -> Seq<ExpModel> {
        self.system@.map_values(|c: Constraint| c@)
    }
}

/// Builds a weighted variable reference.
pub fn new_var(id: VarId, coefficient: i32) -> (r: Var)
    ensures
        r == (Var { id, coefficient }),
{
    Var { id, coefficient }
}

/// Builds a labelled constant.
pub fn new_const(label: u64, value: i64) -> (r: Term)
    ensures
        r == Term::Const(Constant { label, value }),
{
    Term::Const(Constant { label, value })
}

/// A variable of unit weight as a right-hand-side term.
pub fn unit(id: VarId) -> (r: Term)
    ensures
        r == Term::Var(Var { id, coefficient: 1 }),
{
    Term::Var(Var { id, coefficient: 1 })
}

impl Expression {
    pub fn new(lhs: Vec<Var>, rel: Relationship, rhs: Vec<Term>) -> (r: Expression)
        ensures
            r.lhs@ == lhs@,
            r.rel == rel,
            r.rhs@ == rhs@,
    {
        Expression { lhs, rel, rhs }
    }

    /// Appends one term to the right-hand side, keeping the others.
    pub fn add_rhs(&mut self, t: Term)
        ensures
            final(self).lhs@ == old(self).lhs@,
            final(self).rel == old(self).rel,
            final(self).rhs@ == old(self).rhs@.push(t),
    {
        self.rhs.push(t);
    }

    /// A copy with the same content.
    pub fn duplicate(&self) -> (r: Expression)
        ensures
            r@ == self@,
    {
        let mut lhs: Vec<Var> = Vec::new();
        let mut i: usize = 0;
        while i < self.lhs.len()
            invariant
                i <= self.lhs@.len(),
                lhs@ == self.lhs@.subrange(0, i as int),
            decreases self.lhs@.len() - i,
        {
            lhs.push(self.lhs[i]);
            i = i + 1;
        }
        let mut rhs: Vec<Term> = Vec::new();
        let mut j: usize = 0;
        while j < self.rhs.len()
            invariant
                j <= self.rhs@.len(),
                rhs@ == self.rhs@.subrange(0, j as int),
            decreases self.rhs@.len() - j,
        {
            rhs.push(self.rhs[j]);
            j = j + 1;
        }
        assert(lhs@ == self.lhs@);
        assert(rhs@ == self.rhs@);
        Expression { lhs, rel: self.rel, rhs }
    }
}

/// Wraps an expression as a hard constraint.
pub fn new_reg_con(exp: Expression) -> (r: Constraint)
    ensures
        r@ == exp@,
{
    Constraint { exp }
}

impl Constraint {
    /// A copy with the same content.
    pub fn duplicate(&self) -> (r: Constraint)
        ensures
            r@ == self@,
    {
        Constraint { exp: self.exp.duplicate() }
    }
}

impl Function {
    pub fn new(exp: Expression, problem: ProblemType) -> (r: Function)
        ensures
            r.exp@ == exp@,
            r.problem == problem,
    {
        Function { exp, problem }
    }

    /// The expression whose right-hand side is optimized, for extension.
    pub fn exp_max_mut(&mut self) -> (r: &mut Expression)
        ensures
            *r == old(self).exp,
            final(self).exp == *final(r),
            final(self).problem == old(self).problem,
    {
        &mut self.exp
    }
}

impl SystemOfConstraints {
    pub fn new(system: Vec<Constraint>) -> (r: SystemOfConstraints)
        ensures
            r.system@ == system@,
    {
        SystemOfConstraints { system }
    }

    /// Appends a copy of each given constraint, keeping the present ones.
    pub fn extend_from(&mut self, more: &Vec<Constraint>)
        ensures
            final(self)@ == old(self)@ + more@.map_values(|c: Constraint| c@),
    {
        let ghost start = self@;
        let mut i: usize = 0;
        while i < more.len()
            invariant
                i <= more@.len(),
                self@ == start + more@.map_values(|c: Constraint| c@).subrange(0, i as int),
            decreases more@.len() - i,
        {
            let c = more[i].duplicate();
            let ghost prev = self@;
            self.system.push(c);
            assert(self@ =~= prev.push(more@[i as int]@));
            assert(more@.map_values(|c: Constraint| c@).subrange(0, i + 1) == more@.map_values(
                |c: Constraint| c@,
            ).subrange(0, i as int).push(more@[i as int]@));
            i = i + 1;
        }
        assert(more@.map_values(|c: Constraint| c@).subrange(0, more@.len() as int) == more@.map_values(
            |c: Constraint| c@,
        ));
    }
}

} // verus!
