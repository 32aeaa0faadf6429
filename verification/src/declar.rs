//! Declarations and recursor rules.

use crate::expr::ExprPtr;
use crate::hashing::{digest, digest_of_words};
use crate::model::put;
use crate::store::{declar_entries, declars_insert, entry_of, memo_entries, rec_rule_items};
use crate::util::ExportFile;
use crate::name::NamePtr;
use crate::universe::UparamsPtr;
use crate::util::Ptr;
use vstd::prelude::*;

verus! {

pub const REC_RULE_HASH: u64 = 40;

/// A computation rule of a recursor, as the export lists it.
#[derive(Debug, Clone, Copy, PartialEq, Eq, Hash)]
pub struct RecRule {
    pub ctor_name: NamePtr,
    pub num_param: u32,
    pub val: ExprPtr,
    pub hash: u64,
}

pub type RecRulePtr = Ptr<RecRule>;

impl RecRule {
    /// The rule with the digest of its fields in the place of its cached
    /// digest.
    pub open spec fn hashed(self) -> RecRule {
        RecRule { hash: self.content_hash(), ..self }
    }

    /// The digest of the rule's fields.
    pub open spec fn content_hash(self) -> u64 {
        digest(
            seq![REC_RULE_HASH, self.ctor_name.idx as u64, self.num_param as u64, self.val.idx as u64],
            Seq::empty(),
        )
    }
}

/// A declaration of the environment.
#[derive(Debug, Clone, PartialEq, Eq)]
pub enum Declar {
    Axiom { name: NamePtr, uparams: UparamsPtr, ty: ExprPtr },
    Quot { name: NamePtr, uparams: UparamsPtr, ty: ExprPtr },
    Opaq { name: NamePtr, uparams: UparamsPtr, ty: ExprPtr, val: ExprPtr },
    Theorem { name: NamePtr, uparams: UparamsPtr, ty: ExprPtr, val: ExprPtr },
    Definition { name: NamePtr, uparams: UparamsPtr, ty: ExprPtr, val: ExprPtr },
    Inductive {
        name: NamePtr,
        uparams: UparamsPtr,
        ty: ExprPtr,
        num_indices: u32,
        all_ctor_names: Vec<NamePtr>,
    },
    Constructor {
        name: NamePtr,
        uparams: UparamsPtr,
        ty: ExprPtr,
        num_params: u32,
        num_fields: u32,
        parent: NamePtr,
    },
    Recursor { name: NamePtr, uparams: UparamsPtr, ty: ExprPtr },
}

/// What a declaration holds, its constructor list as a sequence.
pub ghost enum DeclarNode {
    Axiom { name: NamePtr, uparams: UparamsPtr, ty: ExprPtr },
    Quot { name: NamePtr, uparams: UparamsPtr, ty: ExprPtr },
    Opaq { name: NamePtr, uparams: UparamsPtr, ty: ExprPtr, val: ExprPtr },
    Theorem { name: NamePtr, uparams: UparamsPtr, ty: ExprPtr, val: ExprPtr },
    Definition { name: NamePtr, uparams: UparamsPtr, ty: ExprPtr, val: ExprPtr },
    Inductive {
        name: NamePtr,
        uparams: UparamsPtr,
        ty: ExprPtr,
        num_indices: u32,
        all_ctor_names: Seq<NamePtr>,
    },
    Constructor {
        name: NamePtr,
        uparams: UparamsPtr,
        ty: ExprPtr,
        num_params: u32,
        num_fields: u32,
        parent: NamePtr,
    },
    Recursor { name: NamePtr, uparams: UparamsPtr, ty: ExprPtr },
}

impl View for Declar {
    type V = DeclarNode;

    open spec fn view(&self) -> DeclarNode {
        match *self {
            Declar::Axiom { name, uparams, ty } => DeclarNode::Axiom { name, uparams, ty },
            Declar::Quot { name, uparams, ty } => DeclarNode::Quot { name, uparams, ty },
            Declar::Opaq { name, uparams, ty, val } => DeclarNode::Opaq { name, uparams, ty, val },
            Declar::Theorem { name, uparams, ty, val } => DeclarNode::Theorem {
                name,
                uparams,
                ty,
                val,
            },
            Declar::Definition { name, uparams, ty, val } => DeclarNode::Definition {
                name,
                uparams,
                ty,
                val,
            },
            Declar::Inductive { name, uparams, ty, num_indices, all_ctor_names } => {
                DeclarNode::Inductive {
                    name,
                    uparams,
                    ty,
                    num_indices,
                    all_ctor_names: all_ctor_names@,
                }
            },
            Declar::Constructor { name, uparams, ty, num_params, num_fields, parent } => {
                DeclarNode::Constructor { name, uparams, ty, num_params, num_fields, parent }
            },
            Declar::Recursor { name, uparams, ty } => DeclarNode::Recursor { name, uparams, ty },
        }
    }
}

impl DeclarNode {
    pub open spec fn ty(self) -> ExprPtr {
        match self {
            DeclarNode::Axiom { ty, .. } => ty,
            DeclarNode::Quot { ty, .. } => ty,
            DeclarNode::Opaq { ty, .. } => ty,
            DeclarNode::Theorem { ty, .. } => ty,
            DeclarNode::Definition { ty, .. } => ty,
            DeclarNode::Inductive { ty, .. } => ty,
            DeclarNode::Constructor { ty, .. } => ty,
            DeclarNode::Recursor { ty, .. } => ty,
        }
    }

    pub open spec fn uparams(self) -> UparamsPtr {
        match self {
            DeclarNode::Axiom { uparams, .. } => uparams,
            DeclarNode::Quot { uparams, .. } => uparams,
            DeclarNode::Opaq { uparams, .. } => uparams,
            DeclarNode::Theorem { uparams, .. } => uparams,
            DeclarNode::Definition { uparams, .. } => uparams,
            DeclarNode::Inductive { uparams, .. } => uparams,
            DeclarNode::Constructor { uparams, .. } => uparams,
            DeclarNode::Recursor { uparams, .. } => uparams,
        }
    }

    pub open spec fn name(self) -> NamePtr {
        match self {
            DeclarNode::Axiom { name, .. } => name,
            DeclarNode::Quot { name, .. } => name,
            DeclarNode::Opaq { name, .. } => name,
            DeclarNode::Theorem { name, .. } => name,
            DeclarNode::Definition { name, .. } => name,
            DeclarNode::Inductive { name, .. } => name,
            DeclarNode::Constructor { name, .. } => name,
            DeclarNode::Recursor { name, .. } => name,
        }
    }

    /// The value of a definition, a theorem or an opaque constant; the other
    /// declarations have none.
    pub open spec fn val(self) -> Option<ExprPtr> {
        match self {
            DeclarNode::Opaq { val, .. } => Some(val),
            DeclarNode::Theorem { val, .. } => Some(val),
            DeclarNode::Definition { val, .. } => Some(val),
            _ => None,
        }
    }
}

impl Declar {
    pub fn ty(&self) -> (r: ExprPtr)
        ensures
            r == self@.ty(),
    {
        match self {
            Declar::Axiom { ty, .. } => *ty,
            Declar::Quot { ty, .. } => *ty,
            Declar::Opaq { ty, .. } => *ty,
            Declar::Theorem { ty, .. } => *ty,
            Declar::Definition { ty, .. } => *ty,
            Declar::Inductive { ty, .. } => *ty,
            Declar::Constructor { ty, .. } => *ty,
            Declar::Recursor { ty, .. } => *ty,
        }
    }

    pub fn uparams(&self) -> (r: UparamsPtr)
        ensures
            r == self@.uparams(),
    {
        match self {
            Declar::Axiom { uparams, .. } => *uparams,
            Declar::Quot { uparams, .. } => *uparams,
            Declar::Opaq { uparams, .. } => *uparams,
            Declar::Theorem { uparams, .. } => *uparams,
            Declar::Definition { uparams, .. } => *uparams,
            Declar::Inductive { uparams, .. } => *uparams,
            Declar::Constructor { uparams, .. } => *uparams,
            Declar::Recursor { uparams, .. } => *uparams,
        }
    }

    pub fn name(&self) -> (r: NamePtr)
        ensures
            r == self@.name(),
    {
        match self {
            Declar::Axiom { name, .. } => *name,
            Declar::Quot { name, .. } => *name,
            Declar::Opaq { name, .. } => *name,
            Declar::Theorem { name, .. } => *name,
            Declar::Definition { name, .. } => *name,
            Declar::Inductive { name, .. } => *name,
            Declar::Constructor { name, .. } => *name,
            Declar::Recursor { name, .. } => *name,
        }
    }

    pub fn val(&self) -> (r: Option<ExprPtr>)
        ensures
            r == self@.val(),
    {
        match self {
            Declar::Theorem { val, .. } => Some(*val),
            Declar::Definition { val, .. } => Some(*val),
            Declar::Opaq { val, .. } => Some(*val),
            _ => None,
        }
    }
}

/// `after` is `before` with the declaration `d` registered under its name:
/// in the place of the entry that the name had, or else after all the
/// others.
pub open spec fn registered(
    after: Seq<(NamePtr, DeclarNode)>,
    before: Seq<(NamePtr, DeclarNode)>,
    d: DeclarNode,
) -> bool {
    &&& forall|i: int|
        entry_of(before, d.name(), i) ==> after == before.update(i, (d.name(), d))
    &&& (forall|i: int| !entry_of(before, d.name(), i)) ==> after == before.push((d.name(), d))
}

impl ExportFile {
    /// Interns the recursor rule with the given parts.
    pub fn rec_rule(&mut self, ctor_name: NamePtr, num_param: u32, val: ExprPtr) -> (p: RecRulePtr)
        requires
            old(self).wf(),
            old(self).stores().has_name(ctor_name),
            old(self).stores().has_expr(val),
        ensures
            final(self).grown(old(self)),
            final(self).stores() == old(self).stores(),
            put(
                rec_rule_items(final(self).rec_rules),
                rec_rule_items(old(self).rec_rules),
                (RecRule { ctor_name, num_param, val, hash: 0 }).hashed(),
                p.idx,
            ),
    {
        let hash = digest_of_words(
            &vec![REC_RULE_HASH, ctor_name.idx as u64, num_param as u64, val.idx as u64],
        );
        self.alloc_rec_rule(RecRule { ctor_name, num_param, val, hash })
    }

    /// Registers the declaration `d` under its name, in the place of the
    /// declaration that the name had, or else after all the others.
    pub fn add_declar(&mut self, d: Declar)
        requires
            old(self).wf(),
            old(self).stores().declar_ok(d@),
        ensures
            final(self).wf(),
            final(self).stores() == old(self).stores(),
            final(self).kstate() == old(self).kstate(),
            final(self).decls() == old(self).decls().insert(
                old(self).stores().name(d@.name()),
                old(self).stores().decl(d@),
            ),
            registered(declar_entries(final(self).declars), declar_entries(old(self).declars), d@),
            rec_rule_items(final(self).rec_rules) == rec_rule_items(old(self).rec_rules),
            memo_entries(final(self).infers) == memo_entries(old(self).infers),
            memo_entries(final(self).whnfs) == memo_entries(old(self).whnfs),
            final(self).next_fvar == old(self).next_fvar,
    {
        proof {
            reveal(ExportFile::wf);
            reveal(ExportFile::decls);
            reveal(ExportFile::kstate);
        }
        let ghost v = d@;
        let ghost es = declar_entries(self.declars);
        let name = d.name();
        declars_insert(&mut self.declars, name, d);
        proof {
            let es2 = declar_entries(self.declars);
            assert forall|i: int| 0 <= i < es.len() && es[i].0 == v.name() implies es2
                == es.update(i, (v.name(), v)) by {
                assert(entry_of(es, v.name(), i));
            }
            if forall|i: int| 0 <= i < es.len() ==> (#[trigger] es[i]).0 != v.name() {
                assert forall|i: int| !entry_of(es, v.name(), i) by {
                    if 0 <= i < es.len() {
                        assert(es[i].0 != v.name());
                    }
                }
            }
            self.stores().lemma_decls_put(es, es2, v);
        }
    }
}

} // verus!
