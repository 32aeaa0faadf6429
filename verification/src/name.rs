//! Hierarchical names.

use crate::hashing::{digest_of, digest_of_words};
use crate::util::{ExportFile, Ptr};
use vstd::prelude::*;

verus! {

pub const ANON_HASH: u64 = 0;

pub const STR_HASH: u64 = 1;

pub const NUM_HASH: u64 = 2;

/// A name as it is stored: its last component, the handle of its prefix,
/// and the digest of both.
#[allow(inconsistent_fields)]
#[derive(Debug, Clone, PartialEq, Eq, Hash)]
pub enum Name {
    Anon,
    Str { pfx: NamePtr, value: String, hash: u64 },
    Num { pfx: NamePtr, value: u64, hash: u64 },
}

pub type NamePtr = Ptr<Name>;

/// What a stored name holds, its text as a sequence of characters.
#[allow(inconsistent_fields)]
pub ghost enum NameNode {
    Anon,
    Str { pfx: NamePtr, value: Seq<char>, hash: u64 },
    Num { pfx: NamePtr, value: u64, hash: u64 },
}

impl View for Name {
    type V = NameNode;

    open spec fn view(&self) -> NameNode {
        match *self {
            Name::Anon => NameNode::Anon,
            Name::Str { pfx, value, hash } => NameNode::Str { pfx, value: value@, hash },
            Name::Num { pfx, value, hash } => NameNode::Num { pfx, value, hash },
        }
    }
}

/// A name written out in full, down to the anonymous root.
pub ghost enum NameTerm {
    Anon,
    Str(Box<NameTerm>, Seq<char>),
    Num(Box<NameTerm>, u64),
}

impl Name {
    pub fn get_hash(&self) -> (h: u64)
        ensures
            h == self@.hash_of(),
    {
        match self {
            Name::Anon => ANON_HASH,
            Name::Str { hash, .. } => *hash,
            Name::Num { hash, .. } => *hash,
        }
    }
}

impl NameNode {
    /// The digest cached in the node.
    pub open spec fn hash_of(self) -> u64 {
        match self {
            NameNode::Anon => ANON_HASH,
            NameNode::Str { hash, .. } => hash,
            NameNode::Num { hash, .. } => hash,
        }
    }
}

impl ExportFile {
    /// The anonymous name, the root of every name.
    pub fn anonymous(&self) -> (p: NamePtr)
        ensures
            p.idx == 0,
            self.wf() ==> self.stores().has_name(p) && self.stores().name(p) == NameTerm::Anon,
    {
        proof {
            reveal(ExportFile::wf);
        }
        Ptr::from(0)
    }

    /// The name `pfx.value`.
    pub fn mk_str(&mut self, pfx: NamePtr, value: String) -> (p: NamePtr)
        requires
            old(self).wf(),
            old(self).stores().has_name(pfx),
        ensures
            final(self).grown(old(self)),
            final(self).stores().with_name(
                old(self).stores(),
                (NameNode::Str { pfx, value: value@, hash: 0 }).hashed(),
                p,
            ),
            final(self).rest_kept(old(self)),
            final(self).stores().has_name(p),
            final(self).stores().name(p) == NameTerm::Str(
                Box::new(old(self).stores().name(pfx)),
                value@,
            ),
    {
        proof {
            reveal(ExportFile::wf);
        }
        let hash = digest_of(&vec![STR_HASH, pfx.idx as u64], value.as_str());
        let ghost text = value@;
        let p = self.alloc_name(Name::Str { pfx, value, hash });
        assert(self.stores().name_ok(self.stores().names[p.idx as int], p.idx as int));
        assert(self.stores().name(p) == NameTerm::Str(Box::new(self.stores().name(pfx)), text));
        p
    }

    /// The name `pfx.value`.
    pub fn num(&mut self, pfx: NamePtr, value: u64) -> (p: NamePtr)
        requires
            old(self).wf(),
            old(self).stores().has_name(pfx),
        ensures
            final(self).grown(old(self)),
            final(self).stores().with_name(
                old(self).stores(),
                (NameNode::Num { pfx, value, hash: 0 }).hashed(),
                p,
            ),
            final(self).rest_kept(old(self)),
            final(self).stores().has_name(p),
            final(self).stores().name(p) == NameTerm::Num(
                Box::new(old(self).stores().name(pfx)),
                value,
            ),
    {
        proof {
            reveal(ExportFile::wf);
        }
        let hash = digest_of_words(&vec![NUM_HASH, pfx.idx as u64, value]);
        let p = self.alloc_name(Name::Num { pfx, value, hash });
        assert(self.stores().name_ok(self.stores().names[p.idx as int], p.idx as int));
        assert(self.stores().name(p) == NameTerm::Num(Box::new(self.stores().name(pfx)), value));
        p
    }
}

} // verus!
