//! Universe levels.

use crate::hashing::digest_of_words;
use crate::level::{
    first_match, lemma_simplify_fixed, lemma_simplify_idempotent, lemma_simplify_simplified,
    lemma_simplify_size, level_eq, level_leq, levels_eq, params_in, reduce, simplify, subst_level,
    subst_levels,
};
use crate::name::{NamePtr, NameTerm};
use crate::util::{ExportFile, Ptr};
use vstd::prelude::*;

verus! {

pub const ZERO_HASH: u64 = 10;

pub const SUCC_HASH: u64 = 11;

pub const MAX_HASH: u64 = 12;

pub const IMAX_HASH: u64 = 13;

pub const PARAM_HASH: u64 = 14;

/// A level as it is stored: a constructor over handles, and the digest of
/// both.
#[derive(Debug, Clone, PartialEq, Eq, Hash)]
pub enum Universe {
    Zero,
    Succ { pred: UniversePtr, hash: u64 },
    Max { v1: UniversePtr, v2: UniversePtr, hash: u64 },
    IMax { v1: UniversePtr, v2: UniversePtr, hash: u64 },
    Param { name: NamePtr, hash: u64 },
}

pub type UniversePtr = Ptr<Universe>;

pub type UparamsPtr = Ptr<Vec<UniversePtr>>;

/// A level written out in full.
pub ghost enum Level {
    Zero,
    Succ(Box<Level>),
    Max(Box<Level>, Box<Level>),
    IMax(Box<Level>, Box<Level>),
    Param(NameTerm),
}

impl Universe {
    pub fn get_hash(&self) -> (h: u64)
        ensures
            h == self.hash_of(),
    {
        match self {
            Universe::Zero => ZERO_HASH,
            Universe::Succ { hash, .. } => *hash,
            Universe::Max { hash, .. } => *hash,
            Universe::IMax { hash, .. } => *hash,
            Universe::Param { hash, .. } => *hash,
        }
    }

    /// The digest cached in the node.
    pub open spec fn hash_of(self) -> u64 {
        match self {
            Universe::Zero => ZERO_HASH,
            Universe::Succ { hash, .. } => hash,
            Universe::Max { hash, .. } => hash,
            Universe::IMax { hash, .. } => hash,
            Universe::Param { hash, .. } => hash,
        }
    }
}

impl ExportFile {
    /// The level zero.
    pub fn zero(&self) -> (p: UniversePtr)
        ensures
            p.idx == 0,
            self.wf() ==> self.stores().has_universe(p) && self.stores().level(p) == Level::Zero,
    {
        proof {
            reveal(ExportFile::wf);
        }
        Ptr::from(0)
    }

    /// The successor of a level.
    pub fn succ(&mut self, pred: UniversePtr) -> (p: UniversePtr)
        requires
            old(self).wf(),
            old(self).stores().has_universe(pred),
        ensures
            final(self).grown(old(self)),
            final(self).stores().with_universe(
                old(self).stores(),
                (Universe::Succ { pred, hash: 0 }).hashed(),
                p,
            ),
            final(self).rest_kept(old(self)),
            final(self).stores().has_universe(p),
            final(self).stores().level(p) == Level::Succ(Box::new(old(self).stores().level(pred))),
    {
        proof {
            reveal(ExportFile::wf);
        }
        let hash = digest_of_words(&vec![SUCC_HASH, pred.idx as u64]);
        let p = self.alloc_universe(Universe::Succ { pred, hash });
        assert(self.stores().universe_ok(self.stores().universes[p.idx as int], p.idx as int));
        assert(self.stores().level(p) == Level::Succ(Box::new(self.stores().level(pred))));
        p
    }

    /// The maximum of two levels.
    pub fn max(&mut self, v1: UniversePtr, v2: UniversePtr) -> (p: UniversePtr)
        requires
            old(self).wf(),
            old(self).stores().has_universe(v1),
            old(self).stores().has_universe(v2),
        ensures
            final(self).grown(old(self)),
            final(self).stores().with_universe(
                old(self).stores(),
                (Universe::Max { v1, v2, hash: 0 }).hashed(),
                p,
            ),
            final(self).rest_kept(old(self)),
            final(self).stores().has_universe(p),
            final(self).stores().level(p) == Level::Max(
                Box::new(old(self).stores().level(v1)),
                Box::new(old(self).stores().level(v2)),
            ),
    {
        proof {
            reveal(ExportFile::wf);
        }
        let hash = digest_of_words(&vec![MAX_HASH, v1.idx as u64, v2.idx as u64]);
        let p = self.alloc_universe(Universe::Max { v1, v2, hash });
        assert(self.stores().universe_ok(self.stores().universes[p.idx as int], p.idx as int));
        assert(self.stores().level(p) == Level::Max(
            Box::new(self.stores().level(v1)),
            Box::new(self.stores().level(v2)),
        ));
        p
    }

    /// The impredicative maximum of two levels.
    pub fn imax(&mut self, v1: UniversePtr, v2: UniversePtr) -> (p: UniversePtr)
        requires
            old(self).wf(),
            old(self).stores().has_universe(v1),
            old(self).stores().has_universe(v2),
        ensures
            final(self).grown(old(self)),
            final(self).stores().with_universe(
                old(self).stores(),
                (Universe::IMax { v1, v2, hash: 0 }).hashed(),
                p,
            ),
            final(self).rest_kept(old(self)),
            final(self).stores().has_universe(p),
            final(self).stores().level(p) == Level::IMax(
                Box::new(old(self).stores().level(v1)),
                Box::new(old(self).stores().level(v2)),
            ),
    {
        proof {
            reveal(ExportFile::wf);
        }
        let hash = digest_of_words(&vec![IMAX_HASH, v1.idx as u64, v2.idx as u64]);
        let p = self.alloc_universe(Universe::IMax { v1, v2, hash });
        assert(self.stores().universe_ok(self.stores().universes[p.idx as int], p.idx as int));
        assert(self.stores().level(p) == Level::IMax(
            Box::new(self.stores().level(v1)),
            Box::new(self.stores().level(v2)),
        ));
        p
    }

    /// The level that is the parameter `name`.
    pub fn param(&mut self, name: NamePtr) -> (p: UniversePtr)
        requires
            old(self).wf(),
            old(self).stores().has_name(name),
        ensures
            final(self).grown(old(self)),
            final(self).stores().with_universe(
                old(self).stores(),
                (Universe::Param { name, hash: 0 }).hashed(),
                p,
            ),
            final(self).rest_kept(old(self)),
            final(self).stores().has_universe(p),
            final(self).stores().level(p) == Level::Param(old(self).stores().name(name)),
    {
        proof {
            reveal(ExportFile::wf);
        }
        let hash = digest_of_words(&vec![PARAM_HASH, name.idx as u64]);
        let p = self.alloc_universe(Universe::Param { name, hash });
        p
    }

    /// The maximum of two simplified levels, simplified. `da_max` tells that
    /// the call comes from the case of a `Max`, whose operands are not
    /// combined once more.
    fn riduci(&mut self, l: UniversePtr, r: UniversePtr, da_max: bool) -> (p: UniversePtr)
        requires
            old(self).wf(),
            old(self).stores().has_universe(l),
            old(self).stores().has_universe(r),
            old(self).stores().level(l).simplified(),
            old(self).stores().level(r).simplified(),
        ensures
            final(self).grown(old(self)),
            final(self).stores().has_universe(p),
            final(self).stores().level(p) == reduce(
                old(self).stores().level(l),
                old(self).stores().level(r),
            ),
        decreases
                old(self).stores().level(l).size() + old(self).stores().level(r).size(),
                if da_max {
                    1nat
                } else {
                    2nat
                },
    {
        proof {
            reveal(ExportFile::wf);
        }
        let ghost ll = self.stores().level(l);
        let ghost lr = self.stores().level(r);
        proof {
            lemma_simplify_fixed(ll);
            lemma_simplify_fixed(lr);
        }
        match (self.read_universe(l), self.read_universe(r)) {
            (Universe::Zero, _) => r,
            (_, Universe::Zero) => l,
            (Universe::Succ { pred: p1, .. }, Universe::Succ { pred: p2, .. }) => {
                let prec = self.riduci(p1, p2, false);
                self.succ(prec)
            },
            (Universe::Max { .. }, _)
            | (Universe::IMax { .. }, _)
            | (_, Universe::Max { .. })
            | (_, Universe::IMax { .. }) => {
                let r = self.semplifica(r);
                let l = self.semplifica(l);
                if da_max {
                    self.max(l, r)
                } else {
                    self.riduci(l, r, true)
                }
            },
            (Universe::Param { .. }, _) => {
                let r = self.semplifica(r);
                self.max(l, r)
            },
            (_, Universe::Param { .. }) => {
                let l = self.semplifica(l);
                self.max(l, r)
            },
        }
    }

    /// Simplifies a level.
    pub fn semplifica(&mut self, ptr: UniversePtr) -> (p: UniversePtr)
        requires
            old(self).wf(),
            old(self).stores().has_universe(ptr),
        ensures
            final(self).grown(old(self)),
            final(self).stores().has_universe(p),
            final(self).stores().level(p) == simplify(old(self).stores().level(ptr)),
        decreases old(self).stores().level(ptr).size(), 0nat,
    {
        proof {
            reveal(ExportFile::wf);
        }
        match self.read_universe(ptr) {
            Universe::Zero => ptr,
            Universe::Param { .. } => ptr,
            Universe::Succ { pred, .. } => {
                let val = self.semplifica(pred);
                self.succ(val)
            },
            Universe::Max { v1, v2, .. } => {
                let ghost a = self.stores().level(v1);
                let ghost b = self.stores().level(v2);
                let l = self.semplifica(v1);
                let r = self.semplifica(v2);
                proof {
                    lemma_simplify_simplified(a);
                    lemma_simplify_simplified(b);
                    lemma_simplify_size(a);
                    lemma_simplify_size(b);
                }
                self.riduci(l, r, false)
            },
            Universe::IMax { v1, v2, .. } => {
                let ghost a = self.stores().level(v1);
                let ghost b = self.stores().level(v2);
                let l = self.semplifica(v1);
                let r = self.semplifica(v2);
                proof {
                    lemma_simplify_simplified(a);
                    lemma_simplify_simplified(b);
                    lemma_simplify_size(a);
                    lemma_simplify_size(b);
                    lemma_simplify_idempotent(b);
                    self.stores().lemma_level_height(r);
                }
                let zero = self.zero();
                if self.leq_wide(r, zero, 0) {
                    self.zero()
                } else {
                    self.riduci(l, r, false)
                }
            },
        }
    }

    /// Whether `l <= r + off`, with an offset wide enough that no chain of
    /// successors can take it out of its range.
    fn leq_wide(&mut self, l: UniversePtr, r: UniversePtr, off: i128) -> (b: bool)
        requires
            old(self).wf(),
            old(self).stores().has_universe(l),
            old(self).stores().has_universe(r),
            i128::MIN + old(self).stores().level(l).height() + old(self).stores().level(r).height()
                <= off,
            off <= i128::MAX - old(self).stores().level(l).height() - old(self).stores().level(
                r,
            ).height(),
        ensures
            final(self).grown(old(self)),
            b == level_leq(old(self).stores().level(l), old(self).stores().level(r), off as int),
        decreases
                old(self).stores().level(l).size() + old(self).stores().level(r).size(),
                3nat,
    {
        proof {
            reveal(ExportFile::wf);
        }
        let ghost l0 = self.stores().level(l);
        let ghost r0 = self.stores().level(r);
        let l = self.semplifica(l);
        let r = self.semplifica(r);
        let ghost ll = self.stores().level(l);
        let ghost lr = self.stores().level(r);
        proof {
            lemma_simplify_simplified(l0);
            lemma_simplify_simplified(r0);
            lemma_simplify_size(l0);
            lemma_simplify_size(r0);
        }
        let nl = self.read_universe(l);
        let nr = self.read_universe(r);
        match (nl, nr) {
            (Universe::Zero, _) if off >= 0 => true,
            (_, Universe::Zero) if off < 0 => false,
            (Universe::Zero, Universe::Zero) => off >= 0,
            (Universe::Param { .. }, Universe::Zero) => false,
            (Universe::Zero, Universe::Param { .. }) => off >= 0,
            (Universe::Param { name: n1, .. }, Universe::Param { name: n2, .. }) => {
                proof {
                    if self.stores().name(n1) == self.stores().name(n2) {
                        self.stores().lemma_name_injective(n1, n2);
                    }
                }
                n1.idx == n2.idx && off >= 0
            },
            (Universe::Succ { pred: s1, .. }, Universe::Succ { pred: s2, .. }) => {
                proof {
                    lemma_simplify_fixed(self.stores().level(s1));
                    lemma_simplify_fixed(self.stores().level(s2));
                }
                self.leq_wide(s1, s2, off)
            },
            (Universe::Succ { pred, .. }, _) => {
                proof {
                    lemma_simplify_fixed(self.stores().level(pred));
                    lemma_simplify_fixed(lr);
                }
                self.leq_wide(pred, r, off - 1)
            },
            (_, Universe::Succ { pred, .. }) => {
                proof {
                    lemma_simplify_fixed(self.stores().level(pred));
                    lemma_simplify_fixed(ll);
                }
                self.leq_wide(l, pred, off + 1)
            },
            (Universe::Max { v1, v2, .. }, Universe::Max { v1: s1, v2: s2, .. }) => {
                proof {
                    let st = self.stores();
                    if st.level(v1) == st.level(s1) {
                        st.lemma_level_injective(v1, s1);
                    }
                    if st.level(v2) == st.level(s2) {
                        st.lemma_level_injective(v2, s2);
                    }
                    if st.level(v1) == st.level(s2) {
                        st.lemma_level_injective(v1, s2);
                    }
                    if st.level(v2) == st.level(s1) {
                        st.lemma_level_injective(v2, s1);
                    }
                    lemma_simplify_fixed(st.level(v1));
                    lemma_simplify_fixed(st.level(v2));
                    lemma_simplify_fixed(lr);
                }
                if (v1.idx == s1.idx && v2.idx == s2.idx) || (v1.idx == s2.idx && v2.idx == s1.idx) {
                    off >= 0
                } else {
                    self.leq_wide(v1, r, off) && self.leq_wide(v2, r, off)
                }
            },
            (Universe::Max { v1, v2, .. }, _) => {
                proof {
                    lemma_simplify_fixed(self.stores().level(v1));
                    lemma_simplify_fixed(self.stores().level(v2));
                    lemma_simplify_fixed(lr);
                }
                self.leq_wide(v1, r, off) && self.leq_wide(v2, r, off)
            },
            (_, Universe::Max { v1, v2, .. }) => {
                proof {
                    lemma_simplify_fixed(self.stores().level(v1));
                    lemma_simplify_fixed(self.stores().level(v2));
                    lemma_simplify_fixed(ll);
                }
                self.leq_wide(l, v1, off) || self.leq_wide(l, v2, off)
            },
            (Universe::IMax { .. }, _) | (_, Universe::IMax { .. }) => {
                // Simplification leaves no impredicative maximum.
                assert(false);
                false
            },
        }
    }

    /// Whether `l <= r + deph_r`, both sides simplified first.
    pub fn leq(&mut self, l: UniversePtr, r: UniversePtr, deph_r: isize) -> (b: bool)
        requires
            old(self).wf(),
            old(self).stores().has_universe(l),
            old(self).stores().has_universe(r),
        ensures
            final(self).grown(old(self)),
            b == level_leq(old(self).stores().level(l), old(self).stores().level(r), deph_r as int),
    {
        proof {
            reveal(ExportFile::wf);
        }
        proof {
            self.stores().lemma_level_height(l);
            self.stores().lemma_level_height(r);
        }
        self.leq_wide(l, r, deph_r as i128)
    }

    /// Whether every parameter that occurs in `universe` is one of
    /// `params`.
    pub fn contiene_param(&self, universe: UniversePtr, params: UparamsPtr) -> (b: bool)
        requires
            self.wf(),
            self.stores().has_universe(universe),
            self.stores().has_uparams(params),
        ensures
            b == params_in(self.stores().level(universe), self.stores().levels(params)),
        decreases universe.idx,
    {
        proof {
            reveal(ExportFile::wf);
        }
        match self.read_universe(universe) {
            Universe::Zero => true,
            Universe::Succ { pred, .. } => self.contiene_param(pred, params),
            Universe::Max { v1, v2, .. } => self.contiene_param(v1, params) && self.contiene_param(
                v2,
                params,
            ),
            Universe::IMax { v1, v2, .. } => self.contiene_param(v1, params) && self.contiene_param(
                v2,
                params,
            ),
            Universe::Param { .. } => {
                let list = self.read_uparams(params);
                let ghost st = self.stores();
                let ghost u = st.level(universe);
                let ghost ups = st.levels(params);
                assert(st.uparams_ok(list@));
                let mut i: usize = 0;
                while i < list.len()
                    invariant
                        i <= list.len(),
                        self.wf(),
                        st == self.stores(),
                        st.has_universe(universe),
                        st.uparams_ok(list@),
                        ups == st.levels_of(list@),
                        ups == st.levels(params),
                        u == st.level(universe),
                        u is Param,
                        forall|j: int| 0 <= j < i ==> ups[j] != u,
                    decreases list.len() - i,
                {
                    if list[i].idx == universe.idx {
                        assert(ups[i as int] == u);
                        assert(ups.contains(u));
                        return true;
                    }
                    proof {
                        assert(st.has_universe(list@[i as int]));
                        if ups[i as int] == u {
                            self.lemma_same_level(list@[i as int], universe);
                        }
                    }
                    i += 1;
                }
                false
            },
        }
    }

    /// Whether two lists of levels have one length and are below each other
    /// place by place.
    pub fn leq_many(&mut self, xs: UparamsPtr, ys: UparamsPtr) -> (b: bool)
        requires
            old(self).wf(),
            old(self).stores().has_uparams(xs),
            old(self).stores().has_uparams(ys),
        ensures
            final(self).grown(old(self)),
            b == levels_eq(old(self).stores().levels(xs), old(self).stores().levels(ys)),
    {
        proof {
            reveal(ExportFile::wf);
        }
        let ghost st0 = self.stores();
        let ghost lx = st0.levels(xs);
        let ghost ly = st0.levels(ys);
        let xv = self.read_uparams(xs);
        let yv = self.read_uparams(ys);
        assert(st0.uparams_ok(xv@));
        assert(st0.uparams_ok(yv@));
        if xv.len() != yv.len() {
            return false;
        }
        let mut i: usize = 0;
        while i < xv.len()
            invariant
                i <= xv.len(),
                xv.len() == yv.len(),
                self.grown(old(self)),
                st0 == old(self).stores(),
                st0.uparams_ok(xv@),
                st0.uparams_ok(yv@),
                lx == st0.levels_of(xv@),
                ly == st0.levels_of(yv@),
                lx == st0.levels(xs),
                ly == st0.levels(ys),
                forall|j: int| 0 <= j < i ==> level_eq(#[trigger] lx[j], ly[j]),
            decreases xv.len() - i,
        {
            let x = xv[i];
            let y = yv[i];
            assert(st0.has_universe(xv@[i as int]));
            assert(st0.has_universe(yv@[i as int]));
            assert(self.stores().level(x) == lx[i as int]);
            assert(self.stores().level(y) == ly[i as int]);
            if !self.leq(x, y, 0) {
                assert(!level_eq(lx[i as int], ly[i as int]));
                return false;
            }
            assert(self.stores().level(x) == lx[i as int]);
            assert(self.stores().level(y) == ly[i as int]);
            if !self.leq(y, x, 0) {
                assert(!level_eq(lx[i as int], ly[i as int]));
                return false;
            }
            i += 1;
        }
        true
    }

    /// The level `universe` with the parameters listed in `ups_dec`
    /// replaced by the levels at the same places of `ups_const`.
    pub fn subst_universe(
        &mut self,
        universe: UniversePtr,
        ups_dec: UparamsPtr,
        ups_const: UparamsPtr,
    ) -> (p: UniversePtr)
        requires
            old(self).wf(),
            old(self).stores().has_universe(universe),
            old(self).stores().has_uparams(ups_dec),
            old(self).stores().has_uparams(ups_const),
        ensures
            final(self).grown(old(self)),
            final(self).stores().has_universe(p),
            final(self).stores().level(p) == subst_level(
                old(self).stores().level(universe),
                old(self).stores().levels(ups_dec),
                old(self).stores().levels(ups_const),
            ),
        decreases universe.idx,
    {
        proof {
            reveal(ExportFile::wf);
        }
        match self.read_universe(universe) {
            Universe::Zero => self.zero(),
            Universe::Succ { pred, .. } => {
                let val = self.subst_universe(pred, ups_dec, ups_const);
                self.succ(val)
            },
            Universe::Max { v1, v2, .. } => {
                let l = self.subst_universe(v1, ups_dec, ups_const);
                let r = self.subst_universe(v2, ups_dec, ups_const);
                self.max(l, r)
            },
            Universe::IMax { v1, v2, .. } => {
                let l = self.subst_universe(v1, ups_dec, ups_const);
                let r = self.subst_universe(v2, ups_dec, ups_const);
                self.imax(l, r)
            },
            Universe::Param { .. } => {
                let from = self.read_uparams(ups_dec);
                let to = self.read_uparams(ups_const);
                let ghost st = self.stores();
                let ghost u = st.level(universe);
                let ghost lf = st.levels(ups_dec);
                let ghost lt = st.levels(ups_const);
                assert(st.uparams_ok(from@));
                assert(st.uparams_ok(to@));
                let mut i: usize = 0;
                while i < from.len() && i < to.len()
                    invariant
                        i <= from.len(),
                        i <= to.len(),
                        *self == *old(self),
                        self.wf(),
                        st == self.stores(),
                        st.has_universe(universe),
                        st.uparams_ok(from@),
                        st.uparams_ok(to@),
                        lf == st.levels_of(from@),
                        lt == st.levels_of(to@),
                        lf == st.levels(ups_dec),
                        lt == st.levels(ups_const),
                        u == st.level(universe),
                        u is Param,
                        first_match(u, lf, lt, 0) == first_match(u, lf, lt, i as int),
                    decreases from.len() - i,
                {
                    assert(st.has_universe(from@[i as int]));
                    assert(st.has_universe(to@[i as int]));
                    if universe.idx == from[i].idx {
                        assert(lf[i as int] == u);
                        assert(lt[i as int] == st.level(to@[i as int]));
                        assert(first_match(u, lf, lt, i as int) == Some(i as int));
                        return to[i];
                    }
                    proof {
                        if lf[i as int] == u {
                            self.lemma_same_level(from@[i as int], universe);
                        }
                        assert(first_match(u, lf, lt, i as int) == first_match(
                            u,
                            lf,
                            lt,
                            i as int + 1,
                        ));
                    }
                    i += 1;
                }
                assert(first_match(u, lf, lt, i as int) is None);
                universe
            },
        }
    }

    /// The list `uparams` with the substitution applied to each of its
    /// levels.
    pub fn subst_universes(
        &mut self,
        uparams: UparamsPtr,
        ups_dec: UparamsPtr,
        ups_const: UparamsPtr,
    ) -> (p: UparamsPtr)
        requires
            old(self).wf(),
            old(self).stores().has_uparams(uparams),
            old(self).stores().has_uparams(ups_dec),
            old(self).stores().has_uparams(ups_const),
        ensures
            final(self).grown(old(self)),
            final(self).stores().has_uparams(p),
            final(self).stores().levels(p) == subst_levels(
                old(self).stores().levels(uparams),
                old(self).stores().levels(ups_dec),
                old(self).stores().levels(ups_const),
            ),
    {
        proof {
            reveal(ExportFile::wf);
        }
        let list = self.read_uparams(uparams);
        let ghost st0 = self.stores();
        let ghost us = st0.levels(uparams);
        let ghost lf = st0.levels(ups_dec);
        let ghost lt = st0.levels(ups_const);
        assert(st0.uparams_ok(list@));
        let mut out: Vec<UniversePtr> = Vec::new();
        let mut i: usize = 0;
        while i < list.len()
            invariant
                i <= list.len(),
                out@.len() == i,
                self.grown(old(self)),
                st0 == old(self).stores(),
                st0.has_uparams(ups_dec),
                st0.has_uparams(ups_const),
                st0.uparams_ok(list@),
                us == st0.levels_of(list@),
                lf == st0.levels(ups_dec),
                lt == st0.levels(ups_const),
                forall|j: int|
                    0 <= j < i ==> self.stores().has_universe(#[trigger] out@[j])
                        && self.stores().level(out@[j]) == subst_level(us[j], lf, lt),
            decreases list.len() - i,
        {
            assert(st0.has_universe(list@[i as int]));
            assert(self.stores().level(list@[i as int]) == us[i as int]);
            let ghost mid = self.stores();
            let l = self.subst_universe(list[i], ups_dec, ups_const);
            assert forall|j: int| 0 <= j < i implies self.stores().has_universe(#[trigger] out@[j])
                && self.stores().level(out@[j]) == subst_level(us[j], lf, lt) by {
                assert(mid.has_universe(out@[j]));
            }
            out.push(l);
            i += 1;
        }
        let ghost fin = self.stores();
        assert(fin.uparams_ok(out@));
        assert(fin.levels_of(out@) =~= subst_levels(us, lf, lt));
        self.alloc_uparams(out)
    }
}

} // verus!
