//! The arithmetic of universe levels, on levels written out in full.

use crate::universe::Level;
use vstd::prelude::*;

verus! {

impl Level {
    /// The number of constructors of the level.
    pub open spec fn size(self) -> nat
        decreases self,
    {
        match self {
            Level::Zero => 1,
            Level::Param(_) => 1,
            Level::Succ(p) => 1 + p.size(),
            Level::Max(a, b) => 1 + a.size() + b.size(),
            Level::IMax(a, b) => 1 + a.size() + b.size(),
        }
    }

    /// The length of the longest path into the level.
    pub open spec fn height(self) -> nat
        decreases self,
    {
        match self {
            Level::Zero => 1,
            Level::Param(_) => 1,
            Level::Succ(p) => 1 + p.height(),
            Level::Max(a, b) => 1 + if a.height() >= b.height() {
                a.height()
            } else {
                b.height()
            },
            Level::IMax(a, b) => 1 + if a.height() >= b.height() {
                a.height()
            } else {
                b.height()
            },
        }
    }

    /// The shape that simplification leaves: no `IMax`, and no `Max` of a
    /// zero or of two successors.
    pub open spec fn simplified(self) -> bool
        decreases self,
    {
        match self {
            Level::Zero => true,
            Level::Param(_) => true,
            Level::Succ(p) => p.simplified(),
            Level::Max(a, b) => {
                &&& a.simplified()
                &&& b.simplified()
                &&& *a != Level::Zero
                &&& *b != Level::Zero
                &&& !(*a is Succ && *b is Succ)
            },
            Level::IMax(_, _) => false,
        }
    }
}

/// The maximum of two simplified levels, simplified: a zero is dropped, a
/// successor common to both sides is taken out, and what remains is a `Max`.
pub open spec fn reduce(l: Level, r: Level) -> Level
    decreases l,
{
    match (l, r) {
        (Level::Zero, _) => r,
        (_, Level::Zero) => l,
        (Level::Succ(a), Level::Succ(b)) => Level::Succ(Box::new(reduce(*a, *b))),
        _ => Level::Max(Box::new(l), Box::new(r)),
    }
}

/// Whether `l <= r + off` for simplified levels `l` and `r`, decided by the
/// first rule that applies. A simplified level holds no `IMax`, so none is
/// taken apart here.
pub open spec fn leq_simplified(l: Level, r: Level, off: int) -> bool
    decreases l, r,
{
    match (l, r) {
        (Level::Zero, _) if off >= 0 => true,
        (_, Level::Zero) if off < 0 => false,
        (Level::Zero, Level::Zero) => off >= 0,
        (Level::Param(_), Level::Zero) => false,
        (Level::Zero, Level::Param(_)) => off >= 0,
        (Level::Param(a), Level::Param(b)) => a == b && off >= 0,
        (Level::Succ(a), Level::Succ(b)) => leq_simplified(*a, *b, off),
        (Level::Succ(a), _) => leq_simplified(*a, r, off - 1),
        (_, Level::Succ(b)) => leq_simplified(l, *b, off + 1),
        (Level::Max(a, b), Level::Max(c, d)) if (a == c && b == d) || (a == d && b == c) => off
            >= 0,
        (Level::Max(a, b), _) => leq_simplified(*a, r, off) && leq_simplified(*b, r, off),
        (_, Level::Max(a, b)) => leq_simplified(l, *a, off) || leq_simplified(l, *b, off),
        (Level::IMax(_, _), _) => false,
        (_, Level::IMax(_, _)) => false,
    }
}

/// The simplified form of a level.
pub open spec fn simplify(u: Level) -> Level
    decreases u,
{
    match u {
        Level::Zero => u,
        Level::Param(_) => u,
        Level::Succ(p) => Level::Succ(Box::new(simplify(*p))),
        Level::Max(a, b) => reduce(simplify(*a), simplify(*b)),
        Level::IMax(a, b) => if leq_simplified(simplify(*b), Level::Zero, 0) {
            Level::Zero
        } else {
            reduce(simplify(*a), simplify(*b))
        },
    }
}

/// Whether `l <= r + off`: both sides are simplified, then compared.
pub open spec fn level_leq(l: Level, r: Level, off: int) -> bool {
    leq_simplified(simplify(l), simplify(r), off)
}

/// Whether two levels are below each other.
pub open spec fn level_eq(l: Level, r: Level) -> bool {
    level_leq(l, r, 0) && level_leq(r, l, 0)
}

/// Whether two lists of levels have one length and are below each other
/// place by place.
pub open spec fn levels_eq(xs: Seq<Level>, ys: Seq<Level>) -> bool {
    &&& xs.len() == ys.len()
    &&& forall|i: int| 0 <= i < xs.len() ==> level_eq(#[trigger] xs[i], ys[i])
}

/// The position of the first entry of `from` that is `u` and has a partner
/// in `to`, if there is one.
pub open spec fn first_match(u: Level, from: Seq<Level>, to: Seq<Level>, i: int) -> Option<int>
    decreases from.len() - i,
{
    if i < 0 || i >= from.len() || i >= to.len() {
        None
    } else if from[i] == u {
        Some(i)
    } else {
        first_match(u, from, to, i + 1)
    }
}

/// The level `u` with the parameters `from` replaced by the levels `to`,
/// place by place and all at once. A parameter that is listed twice takes
/// its first partner; one that is not listed stays.
pub open spec fn subst_level(u: Level, from: Seq<Level>, to: Seq<Level>) -> Level
    decreases u,
{
    match u {
        Level::Zero => Level::Zero,
        Level::Succ(p) => Level::Succ(Box::new(subst_level(*p, from, to))),
        Level::Max(a, b) => Level::Max(
            Box::new(subst_level(*a, from, to)),
            Box::new(subst_level(*b, from, to)),
        ),
        Level::IMax(a, b) => Level::IMax(
            Box::new(subst_level(*a, from, to)),
            Box::new(subst_level(*b, from, to)),
        ),
        Level::Param(_) => match first_match(u, from, to, 0) {
            Some(i) => to[i],
            None => u,
        },
    }
}

/// The levels `us`, each with the parameters `from` replaced by `to`.
pub open spec fn subst_levels(us: Seq<Level>, from: Seq<Level>, to: Seq<Level>) -> Seq<Level> {
    Seq::new(us.len(), |i: int| subst_level(us[i], from, to))
}

/// Whether every parameter that occurs in `u` is listed in `ups`.
pub open spec fn params_in(u: Level, ups: Seq<Level>) -> bool
    decreases u,
{
    match u {
        Level::Zero => true,
        Level::Succ(p) => params_in(*p, ups),
        Level::Max(a, b) => params_in(*a, ups) && params_in(*b, ups),
        Level::IMax(a, b) => params_in(*a, ups) && params_in(*b, ups),
        Level::Param(_) => ups.contains(u),
    }
}

// ---- what simplification leaves ----
pub proof fn lemma_reduce_simplified(l: Level, r: Level)
    requires
        l.simplified(),
        r.simplified(),
    ensures
        reduce(l, r).simplified(),
    decreases l,
{
    match (l, r) {
        (Level::Succ(a), Level::Succ(b)) => {
            lemma_reduce_simplified(*a, *b);
        },
        _ => {},
    }
}

/// Simplification yields a simplified level: one without `IMax`.
pub proof fn lemma_simplify_simplified(u: Level)
    ensures
        simplify(u).simplified(),
    decreases u,
{
    match u {
        Level::Zero => {},
        Level::Param(_) => {},
        Level::Succ(p) => {
            lemma_simplify_simplified(*p);
        },
        Level::Max(a, b) => {
            lemma_simplify_simplified(*a);
            lemma_simplify_simplified(*b);
            lemma_reduce_simplified(simplify(*a), simplify(*b));
        },
        Level::IMax(a, b) => {
            lemma_simplify_simplified(*a);
            lemma_simplify_simplified(*b);
            lemma_reduce_simplified(simplify(*a), simplify(*b));
        },
    }
}

/// Simplification leaves a simplified level as it is.
pub proof fn lemma_simplify_fixed(l: Level)
    requires
        l.simplified(),
    ensures
        simplify(l) == l,
    decreases l,
{
    match l {
        Level::Succ(p) => {
            lemma_simplify_fixed(*p);
        },
        Level::Max(a, b) => {
            lemma_simplify_fixed(*a);
            lemma_simplify_fixed(*b);
        },
        _ => {},
    }
}

/// Simplifying twice is simplifying once.
pub proof fn lemma_simplify_idempotent(u: Level)
    ensures
        simplify(simplify(u)) == simplify(u),
{
    lemma_simplify_simplified(u);
    lemma_simplify_fixed(simplify(u));
}

/// Two levels that are below each other stay so when both are simplified
/// first: the comparison sees only the simplified forms.
pub proof fn lemma_leq_after_simplify(a: Level, b: Level, off: int)
    ensures
        level_leq(simplify(a), simplify(b), off) == level_leq(a, b, off),
        level_eq(a, b) ==> level_eq(simplify(a), simplify(b)),
{
    lemma_simplify_idempotent(a);
    lemma_simplify_idempotent(b);
}

/// Every level is below itself.
pub proof fn lemma_leq_refl(l: Level)
    ensures
        level_leq(l, l, 0),
        level_eq(l, l),
{
    lemma_simplify_simplified(l);
    lemma_leq_simplified_refl(simplify(l));
}

/// Every simplified level is below itself.
pub proof fn lemma_leq_simplified_refl(l: Level)
    requires
        l.simplified(),
    ensures
        leq_simplified(l, l, 0),
    decreases l,
{
    match l {
        Level::Succ(p) => {
            lemma_leq_simplified_refl(*p);
        },
        _ => {},
    }
}

// ---- sizes, for termination and for the range of offsets ----
pub proof fn lemma_reduce_size(l: Level, r: Level)
    ensures
        reduce(l, r).size() <= 1 + l.size() + r.size(),
        reduce(l, r).height() <= 1 + if l.height() >= r.height() {
            l.height()
        } else {
            r.height()
        },
    decreases l,
{
    match (l, r) {
        (Level::Succ(a), Level::Succ(b)) => {
            lemma_reduce_size(*a, *b);
        },
        _ => {},
    }
}

/// Simplification makes a level neither larger nor higher.
pub proof fn lemma_simplify_size(u: Level)
    ensures
        simplify(u).size() <= u.size(),
        simplify(u).height() <= u.height(),
    decreases u,
{
    match u {
        Level::Zero => {},
        Level::Param(_) => {},
        Level::Succ(p) => {
            lemma_simplify_size(*p);
        },
        Level::Max(a, b) => {
            lemma_simplify_size(*a);
            lemma_simplify_size(*b);
            lemma_reduce_size(simplify(*a), simplify(*b));
        },
        Level::IMax(a, b) => {
            lemma_simplify_size(*a);
            lemma_simplify_size(*b);
            lemma_reduce_size(simplify(*a), simplify(*b));
        },
    }
}

} // verus!
