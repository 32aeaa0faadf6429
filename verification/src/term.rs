//! Substitution on expressions written out in full.

use crate::expr::Term;
use crate::level::{subst_level, subst_levels};
use crate::universe::Level;
use vstd::prelude::*;

verus! {

impl Term {
    /// The deepest nesting of binders in the expression.
    pub open spec fn binder_depth(self) -> nat
        decreases self,
    {
        match self {
            Term::App(f, a) => vstd::math::max(f.binder_depth() as int, a.binder_depth() as int) as nat,
            Term::Lam(_, t, b) => vstd::math::max(
                t.binder_depth() as int,
                1 + b.binder_depth() as int,
            ) as nat,
            Term::Pi(_, t, b) => vstd::math::max(
                t.binder_depth() as int,
                1 + b.binder_depth() as int,
            ) as nat,
            Term::Let(_, t, v, b) => vstd::math::max(
                vstd::math::max(t.binder_depth() as int, v.binder_depth() as int),
                1 + b.binder_depth() as int,
            ) as nat,
            Term::Proj(_, _, s) => s.binder_depth(),
            _ => 0,
        }
    }

    /// Whether a free variable occurs in the expression, the types of free
    /// variables left aside.
    pub open spec fn has_fvar(self) -> bool
        decreases self,
    {
        match self {
            Term::FVar(_, _) => true,
            Term::App(f, a) => f.has_fvar() || a.has_fvar(),
            Term::Lam(_, t, b) => t.has_fvar() || b.has_fvar(),
            Term::Pi(_, t, b) => t.has_fvar() || b.has_fvar(),
            Term::Let(_, t, v, b) => t.has_fvar() || v.has_fvar() || b.has_fvar(),
            Term::Proj(_, _, s) => s.has_fvar(),
            _ => false,
        }
    }

    /// Whether `x` occurs in the expression, the types of free variables
    /// left aside.
    pub open spec fn mentions(self, x: Term) -> bool
        decreases self,
    {
        self == x || match self {
            Term::App(f, a) => f.mentions(x) || a.mentions(x),
            Term::Lam(_, t, b) => t.mentions(x) || b.mentions(x),
            Term::Pi(_, t, b) => t.mentions(x) || b.mentions(x),
            Term::Let(_, t, v, b) => t.mentions(x) || v.mentions(x) || b.mentions(x),
            Term::Proj(_, _, s) => s.mentions(x),
            _ => false,
        }
    }
}

/// Whether the binders of `e`, entered at `depth`, stay within the range of
/// de Bruijn indices.
pub open spec fn inst_fits(e: Term, depth: nat) -> bool {
    depth + e.binder_depth() <= u32::MAX
}

/// The expression `e` with the bound variable `depth` replaced by `v` and
/// every bound variable above it moved down by one. Under a binder the
/// variable in question is one higher.
pub open spec fn inst_term(e: Term, v: Term, depth: nat) -> Term
    decreases e,
{
    match e {
        Term::BVar(k) => if k == depth {
            v
        } else if k > depth {
            Term::BVar((k - 1) as u32)
        } else {
            e
        },
        Term::App(f, a) => Term::App(
            Box::new(inst_term(*f, v, depth)),
            Box::new(inst_term(*a, v, depth)),
        ),
        Term::Lam(n, t, b) => Term::Lam(
            n,
            Box::new(inst_term(*t, v, depth)),
            Box::new(inst_term(*b, v, depth + 1)),
        ),
        Term::Pi(n, t, b) => Term::Pi(
            n,
            Box::new(inst_term(*t, v, depth)),
            Box::new(inst_term(*b, v, depth + 1)),
        ),
        Term::Let(n, t, x, b) => Term::Let(
            n,
            Box::new(inst_term(*t, v, depth)),
            Box::new(inst_term(*x, v, depth)),
            Box::new(inst_term(*b, v, depth + 1)),
        ),
        Term::Proj(n, i, s) => Term::Proj(n, i, Box::new(inst_term(*s, v, depth))),
        _ => e,
    }
}

/// Whether abstraction of `e` at `depth` stays within the range of de
/// Bruijn indices: no binder is entered at the last index, and no bound
/// variable that moves up stands at it.
pub open spec fn abstr_fits(e: Term, depth: nat) -> bool
    decreases e,
{
    match e {
        Term::BVar(k) => k < depth || k < u32::MAX,
        Term::App(f, a) => abstr_fits(*f, depth) && abstr_fits(*a, depth),
        Term::Lam(_, t, b) => abstr_fits(*t, depth) && depth < u32::MAX && abstr_fits(
            *b,
            depth + 1,
        ),
        Term::Pi(_, t, b) => abstr_fits(*t, depth) && depth < u32::MAX && abstr_fits(
            *b,
            depth + 1,
        ),
        Term::Let(_, t, x, b) => abstr_fits(*t, depth) && abstr_fits(*x, depth) && depth
            < u32::MAX && abstr_fits(*b, depth + 1),
        Term::Proj(_, _, s) => abstr_fits(*s, depth),
        _ => true,
    }
}

/// The expression `e` with the free variable `fv` replaced by the bound
/// variable `depth` and every bound variable from `depth` on moved up by
/// one. Under a binder the variable in question is one higher.
pub open spec fn abstr_term(e: Term, fv: Term, depth: nat) -> Term
    decreases e,
{
    match e {
        Term::FVar(_, _) => if e == fv {
            Term::BVar(depth as u32)
        } else {
            e
        },
        Term::BVar(k) => if k >= depth {
            Term::BVar((k + 1) as u32)
        } else {
            e
        },
        Term::App(f, a) => Term::App(
            Box::new(abstr_term(*f, fv, depth)),
            Box::new(abstr_term(*a, fv, depth)),
        ),
        Term::Lam(n, t, b) => Term::Lam(
            n,
            Box::new(abstr_term(*t, fv, depth)),
            Box::new(abstr_term(*b, fv, depth + 1)),
        ),
        Term::Pi(n, t, b) => Term::Pi(
            n,
            Box::new(abstr_term(*t, fv, depth)),
            Box::new(abstr_term(*b, fv, depth + 1)),
        ),
        Term::Let(n, t, x, b) => Term::Let(
            n,
            Box::new(abstr_term(*t, fv, depth)),
            Box::new(abstr_term(*x, fv, depth)),
            Box::new(abstr_term(*b, fv, depth + 1)),
        ),
        Term::Proj(n, i, s) => Term::Proj(n, i, Box::new(abstr_term(*s, fv, depth))),
        _ => e,
    }
}

/// The expression `e` with the level parameters `from` replaced by the
/// levels `to` in its sorts and in the level arguments of its constants.
pub open spec fn subst_term(e: Term, from: Seq<Level>, to: Seq<Level>) -> Term
    decreases e,
{
    match e {
        Term::Sort(u) => Term::Sort(subst_level(u, from, to)),
        Term::Const(n, us) => Term::Const(n, subst_levels(us, from, to)),
        Term::App(f, a) => Term::App(
            Box::new(subst_term(*f, from, to)),
            Box::new(subst_term(*a, from, to)),
        ),
        Term::Lam(n, t, b) => Term::Lam(
            n,
            Box::new(subst_term(*t, from, to)),
            Box::new(subst_term(*b, from, to)),
        ),
        Term::Pi(n, t, b) => Term::Pi(
            n,
            Box::new(subst_term(*t, from, to)),
            Box::new(subst_term(*b, from, to)),
        ),
        Term::Let(n, t, x, b) => Term::Let(
            n,
            Box::new(subst_term(*t, from, to)),
            Box::new(subst_term(*x, from, to)),
            Box::new(subst_term(*b, from, to)),
        ),
        Term::Proj(n, i, s) => Term::Proj(n, i, Box::new(subst_term(*s, from, to))),
        _ => e,
    }
}

/// Abstraction undoes instantiation: when the free variable `fv` does not
/// occur in `e`, putting it in the place of the bound variable `depth` and
/// taking it out again gives `e` back.
pub proof fn lemma_abstr_inst(e: Term, fv: Term, depth: nat)
    requires
        fv is FVar,
        !e.mentions(fv),
    ensures
        abstr_term(inst_term(e, fv, depth), fv, depth) == e,
        inst_fits(e, depth) ==> abstr_fits(inst_term(e, fv, depth), depth),
    decreases e,
{
    match e {
        Term::App(f, a) => {
            lemma_abstr_inst(*f, fv, depth);
            lemma_abstr_inst(*a, fv, depth);
        },
        Term::Lam(_, t, b) => {
            lemma_abstr_inst(*t, fv, depth);
            lemma_abstr_inst(*b, fv, depth + 1);
        },
        Term::Pi(_, t, b) => {
            lemma_abstr_inst(*t, fv, depth);
            lemma_abstr_inst(*b, fv, depth + 1);
        },
        Term::Let(_, t, x, b) => {
            lemma_abstr_inst(*t, fv, depth);
            lemma_abstr_inst(*x, fv, depth);
            lemma_abstr_inst(*b, fv, depth + 1);
        },
        Term::Proj(_, _, s) => {
            lemma_abstr_inst(*s, fv, depth);
        },
        _ => {},
    }
}

/// The expression `e` with the free variable `fv` replaced by `a`
/// wherever it occurs, the types of free variables left aside.
pub open spec fn replace_fvar(e: Term, fv: Term, a: Term) -> Term
    decreases e,
{
    match e {
        Term::FVar(_, _) => if e == fv {
            a
        } else {
            e
        },
        Term::App(f, x) => Term::App(
            Box::new(replace_fvar(*f, fv, a)),
            Box::new(replace_fvar(*x, fv, a)),
        ),
        Term::Lam(n, t, b) => Term::Lam(
            n,
            Box::new(replace_fvar(*t, fv, a)),
            Box::new(replace_fvar(*b, fv, a)),
        ),
        Term::Pi(n, t, b) => Term::Pi(
            n,
            Box::new(replace_fvar(*t, fv, a)),
            Box::new(replace_fvar(*b, fv, a)),
        ),
        Term::Let(n, t, x, b) => Term::Let(
            n,
            Box::new(replace_fvar(*t, fv, a)),
            Box::new(replace_fvar(*x, fv, a)),
            Box::new(replace_fvar(*b, fv, a)),
        ),
        Term::Proj(n, i, s) => Term::Proj(n, i, Box::new(replace_fvar(*s, fv, a))),
        _ => e,
    }
}

/// Instantiation after abstraction is replacement: binding the free
/// variable `fv` in `e` and putting `a` in the place of the bound variable
/// gives `e` with `a` in the place of `fv`.
pub proof fn lemma_inst_abstr(e: Term, fv: Term, a: Term, depth: nat)
    requires
        fv is FVar,
        abstr_fits(e, depth),
        depth <= u32::MAX,
    ensures
        inst_term(abstr_term(e, fv, depth), a, depth) == replace_fvar(e, fv, a),
        inst_fits(abstr_term(e, fv, depth), depth),
    decreases e,
{
    match e {
        Term::App(f, x) => {
            lemma_inst_abstr(*f, fv, a, depth);
            lemma_inst_abstr(*x, fv, a, depth);
        },
        Term::Lam(_, t, b) => {
            lemma_inst_abstr(*t, fv, a, depth);
            lemma_inst_abstr(*b, fv, a, depth + 1);
        },
        Term::Pi(_, t, b) => {
            lemma_inst_abstr(*t, fv, a, depth);
            lemma_inst_abstr(*b, fv, a, depth + 1);
        },
        Term::Let(_, t, x, b) => {
            lemma_inst_abstr(*t, fv, a, depth);
            lemma_inst_abstr(*x, fv, a, depth);
            lemma_inst_abstr(*b, fv, a, depth + 1);
        },
        Term::Proj(_, _, s) => {
            lemma_inst_abstr(*s, fv, a, depth);
        },
        _ => {},
    }
}

} // verus!
