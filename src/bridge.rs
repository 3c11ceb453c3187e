use vstd::prelude::*;

use crate::ids::Id;

verus! {

/// What a native handle carries to find its widget again: a slot of the
/// bridge and the generation the slot had when it was bound.
#[derive(Debug, Clone, Copy, PartialEq, Eq, Structural)]
pub struct NativeKey {
    pub index: usize,
    pub generation: u64,
}

/// One slot of the bridge: the widget bound to it, if any, and how many
/// times it has been freed. A slot freed `u64::MAX` times is never bound
/// again.
#[derive(Debug, Clone, Copy, PartialEq, Eq, Structural)]
pub struct Slot {
    pub generation: u64,
    pub member: Option<Id>,
}

/// Binds native handles to widgets through checked keys, so that a key whose
/// widget is gone finds nothing instead of a stale widget.
pub struct Bridge {
    pub slots: Vec<Slot>,
}

/// The widget that `key` finds in `slots`: the slot's widget where the slot
/// exists and still has the key's generation.
pub open spec fn resolve_in(slots: Seq<Slot>, key: NativeKey) -> Option<Id> {
    if key.index < slots.len() && slots[key.index as int].generation == key.generation {
        slots[key.index as int].member
    } else {
        None
    }
}

impl Bridge {
    pub fn new() -> (r: Bridge)
        ensures
            r.slots@.len() == 0,
            forall|k: NativeKey| resolve_in(r.slots@, k) is None,
    {
        Bridge { slots: Vec::new() }
    }

    /// Binds a native handle to the widget `member`; returns the key that the
    /// handle is to carry. Keys bound before find what they found.
    pub fn bind(&mut self, member: Id) -> (r: NativeKey)
        requires
            old(self).slots@.len() < usize::MAX,
        ensures
            resolve_in(final(self).slots@, r) == Some(member),
            forall|k: NativeKey| k != r ==> resolve_in(final(self).slots@, k) == resolve_in(old(self).slots@, k),
            resolve_in(old(self).slots@, r) is None,
    {
        let mut i: usize = 0;
        while i < self.slots.len()
            invariant
                0 <= i <= self.slots.len(),
                self.slots@ == old(self).slots@,
            decreases self.slots.len() - i,
        {
            let s = self.slots[i];
            if s.member.is_none() && s.generation < u64::MAX {
                self.slots.set(i, Slot { generation: s.generation, member: Some(member) });
                let r = NativeKey { index: i, generation: s.generation };
                proof {
                    assert forall|k: NativeKey| k != r implies resolve_in(self.slots@, k) == resolve_in(old(self).slots@, k) by {
                        if k.index == i {
                            assert(k.generation != s.generation || resolve_in(old(self).slots@, k) is None);
                        }
                    }
                }
                return r;
            }
            i = i + 1;
        }
        let r = NativeKey { index: self.slots.len(), generation: 0 };
        self.slots.push(Slot { generation: 0, member: Some(member) });
        proof {
            assert forall|k: NativeKey| k != r implies resolve_in(self.slots@, k) == resolve_in(old(self).slots@, k) by {
                if k.index < old(self).slots@.len() {
                    assert(self.slots@[k.index as int] == old(self).slots@[k.index as int]);
                }
            }
        }
        r
    }

    /// The widget that a native handle carrying `key` belongs to, or `None`
    /// where the key was never bound or its widget is gone.
    pub fn resolve(&self, key: NativeKey) -> (r: Option<Id>)
        ensures
            r == resolve_in(self.slots@, key),
    {
        if key.index < self.slots.len() {
            let s = self.slots[key.index];
            if s.generation == key.generation {
                s.member
            } else {
                None
            }
        } else {
            None
        }
    }

    /// Resolves a native handle that may be a wrapper of the toolkit's own
    /// with no binding: where `key` finds nothing, the handle's native
    /// parent, `parent`, is tried, one level up and no more.
    pub fn resolve_or_parent(&self, key: Option<NativeKey>, parent: Option<NativeKey>) -> (r: Option<Id>)
        ensures
            r == match key {
                Some(k) if resolve_in(self.slots@, k) is Some => resolve_in(self.slots@, k),
                _ => match parent {
                    Some(p) => resolve_in(self.slots@, p),
                    None => None,
                },
            },
    {
        match key {
            Some(k) => {
                let found = self.resolve(k);
                if found.is_some() {
                    return found;
                }
            },
            None => {},
        }
        match parent {
            Some(p) => self.resolve(p),
            None => None,
        }
    }

    /// Frees the binding of `key` before its native handle is destroyed:
    /// afterwards `key` and every older key of its slot find nothing. Other
    /// keys find what they found. Returns the widget that was bound.
    pub fn unbind(&mut self, key: NativeKey) -> (r: Option<Id>)
        ensures
            r == resolve_in(old(self).slots@, key),
            resolve_in(final(self).slots@, key) is None,
            forall|k: NativeKey| k.index != key.index ==> resolve_in(final(self).slots@, k) == resolve_in(old(self).slots@, k),
            r is Some ==> forall|k: NativeKey| k.index == key.index && k.generation <= key.generation ==> resolve_in(final(self).slots@, k) is None,
            r is None ==> final(self).slots@ == old(self).slots@,
            final(self).slots@.len() == old(self).slots@.len(),
    {
        if key.index < self.slots.len() {
            let s = self.slots[key.index];
            if s.generation == key.generation && s.member.is_some() {
                let g: u64 = if s.generation < u64::MAX {
                    s.generation + 1
                } else {
                    s.generation
                };
                self.slots.set(key.index, Slot { generation: g, member: None });
                return s.member;
            }
        }
        proof {
            if key.index < self.slots@.len() && self.slots@[key.index as int].generation == key.generation {
                assert(resolve_in(self.slots@, key) is None);
            }
        }
        None
    }
}

} // verus!
