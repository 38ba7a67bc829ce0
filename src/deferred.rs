//! Identities of deferred computations and the allocator that issues them.

use vstd::prelude::*;

verus! {

/// The unit of work (a configured target, an anonymous target, a BXL
/// function) that owns a tree of deferred computations.
#[derive(Clone, Copy, Debug, PartialEq, Eq, Structural, Hash)]
pub struct BaseDeferredKey {
    pub unit: u64,
}

/// Identity of a deferred computation within its owner.
#[derive(Clone, Copy, Debug, PartialEq, Eq, Structural, Hash)]
pub struct DeferredId {
    pub id: u64,
}

/// Identity of a deferred computation: its owner, which is a base unit of
/// work or an earlier deferred computation, and its id within that owner.
#[derive(Debug)]
pub enum DeferredKey {
    Base(BaseDeferredKey, DeferredId),
    Deferred(Box<DeferredKey>, DeferredId),
}

/// What spawns deferred computations: a base unit of work, or a deferred
/// computation that runs analysis of its own.
#[derive(Debug)]
pub enum BaseKey {
    Base(BaseDeferredKey),
    Deferred(DeferredKey),
}

impl DeferredKey {
    /// The id of this key within its owner.
    pub open spec fn spec_id(&self) -> DeferredId {
        match self {
            DeferredKey::Base(_, id) => *id,
            DeferredKey::Deferred(_, id) => *id,
        }
    }

    /// The id of this key within its owner.
    pub fn id(&self) -> (r: DeferredId)
        ensures
            r == self.spec_id(),
    {
        match self {
            DeferredKey::Base(_, id) => *id,
            DeferredKey::Deferred(_, id) => *id,
        }
    }

    /// A copy of this key.
    pub fn duplicate(&self) -> (r: DeferredKey)
        ensures
            r == *self,
        decreases self,
    {
        match self {
            DeferredKey::Base(b, id) => DeferredKey::Base(*b, *id),
            DeferredKey::Deferred(k, id) => DeferredKey::Deferred(Box::new((**k).duplicate()), *id),
        }
    }
}

impl BaseKey {
    /// The key of the computation with id `id` owned by this owner.
    pub open spec fn key_for(&self, id: u64) -> DeferredKey {
        match self {
            BaseKey::Base(b) => DeferredKey::Base(*b, DeferredId { id }),
            BaseKey::Deferred(k) => DeferredKey::Deferred(Box::new(*k), DeferredId { id }),
        }
    }

    /// A copy of this owner.
    pub fn duplicate(&self) -> (r: BaseKey)
        ensures
            r == *self,
    {
        match self {
            BaseKey::Base(b) => BaseKey::Base(*b),
            BaseKey::Deferred(k) => BaseKey::Deferred(k.duplicate()),
        }
    }

    /// The key of the computation with id `id` owned by this owner.
    pub fn make_key(&self, id: u64) -> (r: DeferredKey)
        ensures
            r == self.key_for(id),
    {
        match self {
            BaseKey::Base(b) => DeferredKey::Base(*b, DeferredId { id }),
            BaseKey::Deferred(k) => DeferredKey::Deferred(Box::new(k.duplicate()), DeferredId { id }),
        }
    }
}

/// Two keys of one owner are equal exactly when their ids are.
pub proof fn lemma_key_for_injective(base: BaseKey, a: u64, b: u64)
    ensures
        (base.key_for(a) == base.key_for(b)) == (a == b),
{
    if base.key_for(a) == base.key_for(b) {
        assert(base.key_for(a).spec_id() == base.key_for(b).spec_id());
    }
}

/// Issues keys for the deferred computations of one owner, with ids
/// 0, 1, 2, ... in order, and records which of them have been bound to
/// the work they stand for.
#[derive(Debug)]
pub struct DeferredRegistry {
    base: BaseKey,
    bound: Vec<bool>,
}

impl DeferredRegistry {
    /// The owner of every key this registry issues.
    pub closed spec fn base(&self) -> BaseKey {
        self.base
    }

    /// For each id issued so far, whether it has been bound.
    pub closed spec fn bound_ids(&self) -> Seq<bool> {
        self.bound@
    }

    /// The number of keys issued so far; the next key has this id.
    pub open spec fn issued(&self) -> nat {
        self.bound_ids().len()
    }

    /// Whether `key` is one this registry has issued.
    pub open spec fn has_issued(&self, key: DeferredKey) -> bool {
        exists|i: u64| i < self.issued() && key == #[trigger] self.base().key_for(i)
    }

    /// Whether every issued key has been bound.
    pub open spec fn all_bound(&self) -> bool {
        forall|i: int| 0 <= i < self.bound_ids().len() ==> self.bound_ids()[i]
    }

    /// An empty registry for keys owned by `base`.
    pub fn new(base: BaseKey) -> (r: DeferredRegistry)
        ensures
            r.base() == base,
            r.bound_ids() == Seq::<bool>::empty(),
    {
        DeferredRegistry { base, bound: Vec::new() }
    }

    /// The owner of every key this registry issues.
    pub fn base_key(&self) -> (r: &BaseKey)
        ensures
            *r == self.base(),
    {
        &self.base
    }

    /// The number of keys issued so far.
    pub fn issued_count(&self) -> (r: usize)
        ensures
            r == self.issued(),
    {
        self.bound.len()
    }

    /// Issues a fresh key, not yet bound. Its id is the number of keys
    /// issued before, so it differs from every key issued earlier.
    pub fn reserve(&mut self) -> (r: DeferredKey)
        requires
            old(self).issued() < u64::MAX,
        ensures
            r == old(self).base().key_for(old(self).issued() as u64),
            r.spec_id() == (DeferredId { id: old(self).issued() as u64 }),
            !old(self).has_issued(r),
            final(self).has_issued(r),
            final(self).base() == old(self).base(),
            final(self).bound_ids() == old(self).bound_ids().push(false),
    {
        let id = self.bound.len() as u64;
        let key = self.base.make_key(id);
        self.bound.push(false);
        proof {
            assert(self.base().key_for(id) == key);
            assert forall|i: u64| i < old(self).issued() implies key
                != #[trigger] old(self).base().key_for(i) by {
                lemma_key_for_injective(old(self).base(), id, i);
            }
            assert(self.base().key_for(id) == key);
        }
        key
    }

    /// Marks the issued id `id` as bound.
    pub fn bind(&mut self, id: DeferredId)
        requires
            id.id < old(self).issued(),
        ensures
            final(self).base() == old(self).base(),
            final(self).bound_ids() == old(self).bound_ids().update(id.id as int, true),
    {
        let n = self.bound.len();
        assert(id.id < n);
        self.bound.set(id.id as usize, true);
    }

    /// Whether the issued id `id` has been bound.
    pub fn is_bound(&self, id: DeferredId) -> (r: bool)
        requires
            id.id < self.issued(),
        ensures
            r == self.bound_ids()[id.id as int],
    {
        let n = self.bound.len();
        assert(id.id < n);
        self.bound[id.id as usize]
    }
}

} // verus!
