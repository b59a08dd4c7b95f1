//! Solutions of a layout system and the check that one satisfies it.
use vstd::prelude::*;
use crate::expr::{ExpModel, Expression, Relationship, SystemOfConstraints, Term, Var, VarId};

verus! {

/// A value for each solved unknown, as handed back by a solver. Where a name
/// occurs twice, the first entry counts.
#[derive(Debug)]
pub struct Solution {
    pub values: Vec<(VarId, i32)>,
}

impl View for Solution {
    type V = Seq<(VarId, i32)>;

    open spec fn view(&self) -> Seq<(VarId, i32)> {
        self.values@
    }
}

/// The value of the first entry for `v`, if any.
pub open spec fn lookup_spec(s: Seq<(VarId, i32)>, v: VarId) -> Option<int>
    decreases s.len(),
{
    if s.len() == 0 {
        None
    } else if s[0].0 == v {
        Some(s[0].1 as int)
    } else {
        lookup_spec(s.drop_first(), v)
    }
}

pub open spec fn var_value(s: Seq<(VarId, i32)>, x: Var) -> Option<int> {
    match lookup_spec(s, x.id) {
        Some(v) => Some(x.coefficient * v),
        None => None,
    }
}

pub open spec fn term_value(s: Seq<(VarId, i32)>, t: Term) -> Option<int> {
    match t {
        Term::Var(x) => var_value(s, x),
        Term::Const(c) => Some(c.value as int),
    }
}

/// The sum of a right-hand side; `None` where one of its unknowns is unsolved.
pub open spec fn terms_value(s: Seq<(VarId, i32)>, ts: Seq<Term>) -> Option<int>
    decreases ts.len(),
{
    if ts.len() == 0 {
        Some(0)
    } else {
        match (terms_value(s, ts.drop_last()), term_value(s, ts.last())) {
            (Some(a), Some(b)) => Some(a + b),
            _ => None,
        }
    }
}

/// The sum of a left-hand side; `None` where one of its unknowns is unsolved.
pub open spec fn vars_value(s: Seq<(VarId, i32)>, xs: Seq<Var>) -> Option<int>
    decreases xs.len(),
{
    if xs.len() == 0 {
        Some(0)
    } else {
        match (vars_value(s, xs.drop_last()), var_value(s, xs.last())) {
            (Some(a), Some(b)) => Some(a + b),
            _ => None,
        }
    }
}

pub open spec fn rel_holds(rel: Relationship, a: int, b: int) -> bool {
    match rel {
        Relationship::EQ => a == b,
        Relationship::LEQ => a <= b,
        Relationship::GEQ => a >= b,
    }
}

/// Both sides are solved and stand in the relation.
pub open spec fn exp_holds(s: Seq<(VarId, i32)>, e: ExpModel) -> bool {
    match (vars_value(s, e.lhs), terms_value(s, e.rhs)) {
        (Some(a), Some(b)) => rel_holds(e.rel, a, b),
        _ => false,
    }
}

/// Every unknown is non-negative.
pub open spec fn non_negative(s: Seq<(VarId, i32)>) -> bool {
    forall|i: int| 0 <= i < s.len() ==> 0 <= #[trigger] s[i].1
}

/// `s` is a feasible point of `sys`: its values are non-negative and every
/// constraint holds.
pub open spec fn feasible(s: Seq<(VarId, i32)>, sys: Seq<ExpModel>) -> bool {
    &&& non_negative(s)
    &&& forall|i: int| 0 <= i < sys.len() ==> exp_holds(s, #[trigger] sys[i])
}

impl Solution {
    /// The value of the first entry for `v`, if any.
    pub fn lookup(&self, v: VarId) -> (r: Option<i32>)
        ensures
            match r {
                Some(x) => lookup_spec(self@, v) == Some(x as int),
                None => lookup_spec(self@, v) is None,
            },
    {
        let mut i: usize = 0;
        assert(self@.subrange(0, self@.len() as int) =~= self@);
        while i < self.values.len()
            invariant
                i <= self@.len(),
                lookup_spec(self@, v) == lookup_spec(self@.subrange(i as int, self@.len() as int), v),
            decreases self@.len() - i,
        {
            let ghost rest = self@.subrange(i as int, self@.len() as int);
            assert(rest.drop_first() =~= self@.subrange(i + 1, self@.len() as int));
            if self.values[i].0 == v {
                return Some(self.values[i].1);
            }
            i = i + 1;
        }
        None
    }

    fn var_val(&self, x: Var) -> (r: Option<i128>)
        ensures
            match r {
                Some(a) => var_value(self@, x) == Some(a as int) && -0x8000_0000_0000_0000 <= a <= 0x8000_0000_0000_0000,
                None => var_value(self@, x) is None,
            },
    {
        match self.lookup(x.id) {
            Some(v) => {
                let c = x.coefficient as i128;
                let w = v as i128;
                assert(-0x8000_0000 <= c < 0x8000_0000 && -0x8000_0000 <= w < 0x8000_0000);
                assert(-0x8000_0000_0000_0000 <= c * w <= 0x8000_0000_0000_0000) by (nonlinear_arith)
                    requires
                        -0x8000_0000 <= c < 0x8000_0000,
                        -0x8000_0000 <= w < 0x8000_0000,
                ;
                Some(c * w)
            },
            None => None,
        }
    }

    /// The sum of a left-hand side under this solution.
    pub fn eval_vars(&self, xs: &Vec<Var>) -> (r: Option<i128>)
        ensures
            match r {
                Some(a) => vars_value(self@, xs@) == Some(a as int),
                None => vars_value(self@, xs@) is None,
            },
    {
        let mut acc: i128 = 0;
        let mut i: usize = 0;
        let n = xs.len();
        while i < n
            invariant
                i <= xs@.len(),
                n == xs@.len(),
                vars_value(self@, xs@.subrange(0, i as int)) == Some(acc as int),
                -(i * 0x8000_0000_0000_0000) <= acc <= i * 0x8000_0000_0000_0000,
            decreases xs@.len() - i,
        {
            let ghost pre = xs@.subrange(0, i as int);
            assert(xs@.subrange(0, i + 1).drop_last() =~= pre);
            match self.var_val(xs[i]) {
                Some(t) => {
                    assert((i + 1) * 0x8000_0000_0000_0000 <= 0x7fff_ffff_ffff_ffff_ffff_ffff_ffff_ffff)
                        by (nonlinear_arith)
                        requires
                            i + 1 <= usize::MAX,
                    ;
                    assert((i + 1) * 0x8000_0000_0000_0000 == i * 0x8000_0000_0000_0000 + 0x8000_0000_0000_0000) by (nonlinear_arith);
                    acc = acc + t;
                    i = i + 1;
                },
                None => {
                    assert(vars_value(self@, xs@.subrange(0, i + 1)) is None);
                    proof {
                        Self::lemma_vars_none_extends(self@, xs@, i + 1);
                    }
                    return None;
                },
            }
        }
        assert(xs@.subrange(0, xs@.len() as int) =~= xs@);
        Some(acc)
    }

    /// The sum of a right-hand side under this solution.
    pub fn eval_terms(&self, ts: &Vec<Term>) -> (r: Option<i128>)
        ensures
            match r {
                Some(a) => terms_value(self@, ts@) == Some(a as int),
                None => terms_value(self@, ts@) is None,
            },
    {
        let mut acc: i128 = 0;
        let mut i: usize = 0;
        let n = ts.len();
        while i < n
            invariant
                i <= ts@.len(),
                n == ts@.len(),
                terms_value(self@, ts@.subrange(0, i as int)) == Some(acc as int),
                -(i * 0x8000_0000_0000_0000) <= acc <= i * 0x8000_0000_0000_0000,
            decreases ts@.len() - i,
        {
            let ghost pre = ts@.subrange(0, i as int);
            assert(ts@.subrange(0, i + 1).drop_last() =~= pre);
            let tv = match ts[i] {
                Term::Var(x) => self.var_val(x),
                Term::Const(c) => Some(c.value as i128),
            };
            match tv {
                Some(t) => {
                    assert((i + 1) * 0x8000_0000_0000_0000 <= 0x7fff_ffff_ffff_ffff_ffff_ffff_ffff_ffff)
                        by (nonlinear_arith)
                        requires
                            i + 1 <= usize::MAX,
                    ;
                    assert((i + 1) * 0x8000_0000_0000_0000 == i * 0x8000_0000_0000_0000 + 0x8000_0000_0000_0000) by (nonlinear_arith);
                    acc = acc + t;
                    i = i + 1;
                },
                None => {
                    assert(terms_value(self@, ts@.subrange(0, i + 1)) is None);
                    proof {
                        Self::lemma_terms_none_extends(self@, ts@, i + 1);
                    }
                    return None;
                },
            }
        }
        assert(ts@.subrange(0, ts@.len() as int) =~= ts@);
        Some(acc)
    }

    /// Whether both sides of `e` are solved and stand in its relation.
    pub fn holds(&self, e: &Expression) -> (r: bool)
        ensures
            r == exp_holds(self@, e@),
    {
        match (self.eval_vars(&e.lhs), self.eval_terms(&e.rhs)) {
            (Some(a), Some(b)) => match e.rel {
                Relationship::EQ => a == b,
                Relationship::LEQ => a <= b,
                Relationship::GEQ => a >= b,
            },
            _ => false,
        }
    }

    /// Whether every value is non-negative.
    pub fn all_non_negative(&self) -> (r: bool)
        ensures
            r == non_negative(self@),
    {
        let mut i: usize = 0;
        while i < self.values.len()
            invariant
                i <= self@.len(),
                forall|j: int| 0 <= j < i ==> 0 <= #[trigger] self@[j].1,
            decreases self@.len() - i,
        {
            if self.values[i].1 < 0 {
                return false;
            }
            i = i + 1;
        }
        true
    }

    /// Whether this solution is a feasible point of `sys`.
    pub fn is_feasible(&self, sys: &SystemOfConstraints) -> (r: bool)
        ensures
            r == feasible(self@, sys@),
    {
        if !self.all_non_negative() {
            return false;
        }
        let mut i: usize = 0;
        while i < sys.system.len()
            invariant
                i <= sys@.len(),
                sys@.len() == sys.system@.len(),
                forall|j: int| 0 <= j < i ==> exp_holds(self@, #[trigger] sys@[j]),
            decreases sys@.len() - i,
        {
            if !self.holds(&sys.system[i].exp) {
                assert(!exp_holds(self@, sys@[i as int]));
                return false;
            }
            i = i + 1;
        }
        true
    }

    proof fn lemma_vars_none_extends(s: Seq<(VarId, i32)>, xs: Seq<Var>, k: int)
        requires
            0 <= k <= xs.len(),
            vars_value(s, xs.subrange(0, k)) is None,
        ensures
            vars_value(s, xs) is None,
        decreases xs.len() - k,
    {
        if k < xs.len() {
            assert(xs.subrange(0, k + 1).drop_last() =~= xs.subrange(0, k));
            Self::lemma_vars_none_extends(s, xs, k + 1);
        } else {
            assert(xs.subrange(0, k) =~= xs);
        }
    }

    proof fn lemma_terms_none_extends(s: Seq<(VarId, i32)>, ts: Seq<Term>, k: int)
        requires
            0 <= k <= ts.len(),
            terms_value(s, ts.subrange(0, k)) is None,
        ensures
            terms_value(s, ts) is None,
        decreases ts.len() - k,
    {
        if k < ts.len() {
            assert(ts.subrange(0, k + 1).drop_last() =~= ts.subrange(0, k));
            Self::lemma_terms_none_extends(s, ts, k + 1);
        } else {
            assert(ts.subrange(0, k) =~= ts);
        }
    }
}

} // verus!
