use vstd::prelude::*;

use crate::control::{wf, Control, Kind};
use crate::ids::Id;

verus! {

/// The first descendant of `c` with identifier `id`, depth first: each child
/// is tried, then what lies inside it, before the next child.
pub open spec fn find_in(c: Control, id: Id) -> Option<Control>
    decreases c, 1int,
{
    match c.kind {
        Kind::Button { .. } => None,
        Kind::LinearLayout { children, .. } => find_in_kids(children@, id),
        Kind::Frame { child, .. } => match child {
            Some(ch) => if ch.member.id == id {
                Some(*ch)
            } else {
                find_in(*ch, id)
            },
            None => None,
        },
        Kind::Splitted { first, second, .. } => if first.member.id == id {
            Some(*first)
        } else if find_in(*first, id) is Some {
            find_in(*first, id)
        } else if second.member.id == id {
            Some(*second)
        } else {
            find_in(*second, id)
        },
    }
}

/// The first control with identifier `id` among `kids` and what lies inside
/// them, depth first.
pub open spec fn find_in_kids(kids: Seq<Control>, id: Id) -> Option<Control>
    decreases kids, 0int,
{
    if kids.len() == 0 {
        None
    } else if kids[0].member.id == id {
        Some(kids[0])
    } else {
        match find_in(kids[0], id) {
            Some(x) => Some(x),
            None => find_in_kids(kids.subrange(1, kids.len() as int), id),
        }
    }
}

proof fn lemma_find_step(kids: Seq<Control>, i: int, id: Id)
    requires
        0 <= i < kids.len(),
    ensures
        find_in_kids(kids.subrange(i, kids.len() as int), id) == (if kids[i].member.id == id {
            Some(kids[i])
        } else {
            match find_in(kids[i], id) {
                Some(x) => Some(x),
                None => find_in_kids(kids.subrange(i + 1, kids.len() as int), id),
            }
        }),
{
    let t = kids.subrange(i, kids.len() as int);
    assert(t[0] == kids[i]);
    assert(t.subrange(1, t.len() as int) =~= kids.subrange(i + 1, kids.len() as int));
}

impl Control {
    /// Finds the first descendant with identifier `id`, depth first; this
    /// control itself is not one of its descendants.
    pub fn find_control_by_id(&self, id: Id) -> (r: Option<&Control>)
        ensures
            r is Some <==> find_in(*self, id) is Some,
            r is Some ==> *r->0 == find_in(*self, id)->0,
        decreases *self,
    {
        match &self.kind {
            Kind::Button { .. } => None,
            Kind::LinearLayout { children, .. } => {
                proof {
                    assert(children@.subrange(0, children@.len() as int) =~= children@);
                }
                let mut i: usize = 0;
                while i < children.len()
                    invariant
                        0 <= i <= children.len(),
                        self.kind is LinearLayout,
                        children == self.kind->children,
                        find_in(*self, id) == find_in_kids(children@.subrange(i as int, children@.len() as int), id),
                    decreases children.len() - i,
                {
                    proof {
                        lemma_find_step(children@, i as int, id);
                        let ghost k = self.kind;
                        assert(decreases_to!(*self => k));
                        assert(decreases_to!(k => *children));
                        assert(decreases_to!(*children => children@));
                        assert(decreases_to!(children@ => children@[i as int]));
                    }
                    if children[i].member.id == id {
                        return Some(&children[i]);
                    }
                    let found = children[i].find_control_by_id(id);
                    if found.is_some() {
                        return found;
                    }
                    i = i + 1;
                }
                proof {
                    assert(children@.subrange(i as int, children@.len() as int).len() == 0);
                }
                None
            },
            Kind::Frame { child, .. } => match child {
                Some(ch) => {
                    if ch.member.id == id {
                        Some(&**ch)
                    } else {
                        ch.find_control_by_id(id)
                    }
                },
                None => None,
            },
            Kind::Splitted { first, second, .. } => {
                if first.member.id == id {
                    return Some(&**first);
                }
                let found = first.find_control_by_id(id);
                if found.is_some() {
                    return found;
                }
                if second.member.id == id {
                    return Some(&**second);
                }
                second.find_control_by_id(id)
            },
        }
    }
}

/// The shell of `a` (everything but children) is kept in `b`.
pub open spec fn same_node(a: Control, b: Control) -> bool {
    &&& b.member == a.member
    &&& b.layout_width == a.layout_width
    &&& b.layout_height == a.layout_height
    &&& b.margins == a.margins
    &&& b.measured_size == a.measured_size
    &&& b.coords == a.coords
}

/// `new` is `old` with the control that `find_in(old, id)` finds replaced by
/// `x`, and nothing else changed.
pub open spec fn replaced(old: Control, new: Control, id: Id, x: Control) -> bool
    decreases old, 1int,
{
    &&& same_node(old, new)
    &&& match (old.kind, new.kind) {
        (
            Kind::LinearLayout { orientation: o1, children: k1 },
            Kind::LinearLayout { orientation: o2, children: k2 },
        ) => o1 == o2 && replaced_in_kids(k1@, k2@, id, x),
        (
            Kind::Frame { label: l1, label_size: s1, child: c1 },
            Kind::Frame { label: l2, label_size: s2, child: c2 },
        ) => l1 == l2 && s1 == s2 && match (c1, c2) {
            (Some(a), Some(b)) => if a.member.id == id {
                *b == x
            } else {
                replaced(*a, *b, id, x)
            },
            _ => false,
        },
        (
            Kind::Splitted { orientation: o1, splitter: r1, first: f1, second: t1 },
            Kind::Splitted { orientation: o2, splitter: r2, first: f2, second: t2 },
        ) => o1 == o2 && r1 == r2 && if f1.member.id == id {
            *f2 == x && t2 == t1
        } else if find_in(*f1, id) is Some {
            replaced(*f1, *f2, id, x) && t2 == t1
        } else if t1.member.id == id {
            *t2 == x && f2 == f1
        } else {
            replaced(*t1, *t2, id, x) && f2 == f1
        },
        _ => false,
    }
}

/// `k2` is `k1` with the control that `find_in_kids(k1, id)` finds replaced
/// by `x`.
pub open spec fn replaced_in_kids(k1: Seq<Control>, k2: Seq<Control>, id: Id, x: Control) -> bool
    decreases k1, 0int,
{
    &&& k1.len() == k2.len()
    &&& k1.len() > 0
    &&& if k1[0].member.id == id {
        k2[0] == x && k2.subrange(1, k2.len() as int) == k1.subrange(1, k1.len() as int)
    } else if find_in(k1[0], id) is Some {
        replaced(k1[0], k2[0], id, x) && k2.subrange(1, k2.len() as int) == k1.subrange(
            1,
            k1.len() as int,
        )
    } else {
        k2[0] == k1[0] && replaced_in_kids(
            k1.subrange(1, k1.len() as int),
            k2.subrange(1, k2.len() as int),
            id,
            x,
        )
    }
}

impl Control {
    /// Finds the first descendant with identifier `id`, depth first, for
    /// change: whatever the caller makes of it takes its place in the tree.
    pub fn find_control_by_id_mut(&mut self, id: Id) -> (r: Option<&mut Control>)
        ensures
            r is Some <==> find_in(*old(self), id) is Some,
            r matches Some(x) ==> *x == find_in(*old(self), id)->0,
            r matches Some(x) ==> replaced(*old(self), *final(self), id, *final(x)),
            r is None ==> *final(self) == *old(self),
        decreases *old(self),
    {
        let ghost old_self = *self;
        let ghost fin = *final(self);
        match &mut self.kind {
            Kind::Button { .. } => None,
            Kind::LinearLayout { children, .. } => {
                proof {
                    assert(children@.subrange(0, children@.len() as int) =~= children@);
                }
                let mut i: usize = 0;
                let mut hit = false;
                while !hit && i < children.len()
                    invariant
                        0 <= i <= children.len(),
                        hit ==> i < children.len() && (children@[i as int].member.id == id || find_in(children@[i as int], id) is Some),
                        old_self.kind is LinearLayout,
                        children@ == old_self.kind->children@,
                        same_node(old_self, fin),
                        fin.kind == (Kind::LinearLayout {
                            orientation: old_self.kind->LinearLayout_orientation,
                            children: *final(children),
                        }),
                        find_in(old_self, id) == find_in_kids(
                            children@.subrange(i as int, children@.len() as int),
                            id,
                        ),
                        forall|j: int| 0 <= j < i ==> children@[j].member.id != id && find_in(#[trigger] children@[j], id) is None,
                    decreases children.len() - i + (if hit { 0int } else { 1int }),
                {
                    proof {
                        lemma_find_step(children@, i as int, id);
                    }
                    if children[i].member.id == id || children[i].find_control_by_id(id).is_some() {
                        hit = true;
                    } else {
                        i = i + 1;
                    }
                }
                if !hit {
                    proof {
                        assert(children@.subrange(i as int, children@.len() as int).len() == 0);
                    }
                    return None;
                }
                proof {
                    let ghost k = old_self.kind;
                    let ghost v = k->children;
                    assert(decreases_to!(old_self => k));
                    assert(decreases_to!(k => v));
                    assert(decreases_to!(v => v@));
                    assert(decreases_to!(v@ => v@[i as int]));
                }
                let ghost before = children@;
                proof {
                    assert(find_in(old_self, id) == find_in_kids(before, id));
                    assert(old_self == *old(self));
                }
                let c = &mut children[i];
                proof {
                    lemma_replaced_at_index(before, i as int, id);
                }
                if c.member.id == id {
                    assert(find_in(old_self, id) == Some(before[i as int]));
                    assert(*c == before[i as int]);
                    assert(fin.kind->children@ == before.update(i as int, *final(c)));
                    assert(replaced_in_kids(before, before.update(i as int, *final(c)), id, *final(c)));
                    assert(replaced(old_self, fin, id, *final(c)));
                    Some(c)
                } else {
                    assert(*c == before[i as int]);
                    assert(find_in(old_self, id) == find_in(before[i as int], id));
                    let ghost fc = *final(c);
                    assert(fin.kind->children@ == before.update(i as int, fc));
                    let r = c.find_control_by_id_mut(id);
                    assert(r matches Some(x) ==> *x == find_in(old_self, id)->0);
                    assert(r matches Some(x) ==> replaced(before[i as int], fc, id, *final(x)));
                    assert(r matches Some(x) ==> replaced_in_kids(before, before.update(i as int, fc), id, *final(x)));
                    assert(r matches Some(x) ==> replaced(old_self, fin, id, *final(x)));
                    r
                }
            },
            Kind::Frame { child, .. } => match child {
                Some(ch) => {
                    if ch.member.id == id {
                        Some(&mut **ch)
                    } else {
                        ch.find_control_by_id_mut(id)
                    }
                },
                None => None,
            },
            Kind::Splitted { first, second, .. } => {
                if first.member.id == id {
                    Some(&mut **first)
                } else if first.find_control_by_id(id).is_some() {
                    first.find_control_by_id_mut(id)
                } else if second.member.id == id {
                    Some(&mut **second)
                } else {
                    second.find_control_by_id_mut(id)
                }
            },
        }
    }
}

/// Where the search reaches child `i` of `kids` (no child before it holds
/// the identifier), what the search over `kids` finds and replaces is what
/// it finds and replaces in that child.
proof fn lemma_replaced_at_index(kids: Seq<Control>, i: int, id: Id)
    requires
        0 <= i < kids.len(),
        forall|j: int| 0 <= j < i ==> kids[j].member.id != id && find_in(#[trigger] kids[j], id) is None,
        kids[i].member.id == id || find_in(kids[i], id) is Some,
    ensures
        find_in_kids(kids, id) == (if kids[i].member.id == id {
            Some(kids[i])
        } else {
            find_in(kids[i], id)
        }),
        forall|x: Control, y: Control|
            (if kids[i].member.id == id {
                y == x
            } else {
                replaced(kids[i], y, id, x)
            }) ==> #[trigger] replaced_in_kids(kids, kids.update(i, y), id, x),
    decreases i,
{
    if i > 0 {
        let tail = kids.subrange(1, kids.len() as int);
        assert forall|j: int| 0 <= j < i - 1 implies tail[j].member.id != id && find_in(#[trigger] tail[j], id) is None by {
            assert(tail[j] == kids[j + 1]);
        }
        assert(tail[i - 1] == kids[i]);
        lemma_replaced_at_index(tail, i - 1, id);
        assert forall|x: Control, y: Control|
            (if kids[i].member.id == id {
                y == x
            } else {
                replaced(kids[i], y, id, x)
            }) implies #[trigger] replaced_in_kids(kids, kids.update(i, y), id, x) by {
            let k2 = kids.update(i, y);
            assert(k2.subrange(1, k2.len() as int) =~= tail.update(i - 1, y));
            assert(replaced_in_kids(tail, tail.update(i - 1, y), id, x));
            assert(k2[0] == kids[0]);
        }
    } else {
        assert forall|x: Control, y: Control|
            (if kids[i].member.id == id {
                y == x
            } else {
                replaced(kids[i], y, id, x)
            }) implies #[trigger] replaced_in_kids(kids, kids.update(i, y), id, x) by {
            let k2 = kids.update(i, y);
            assert(k2.subrange(1, k2.len() as int) =~= kids.subrange(1, kids.len() as int));
        }
    }
}

/// The identifier of the container that holds the first descendant of `c`
/// with identifier `id`, searching as `find_in` does.
pub open spec fn parent_in(c: Control, id: Id) -> Option<Id>
    decreases c, 1int,
{
    match c.kind {
        Kind::Button { .. } => None,
        Kind::LinearLayout { children, .. } => parent_in_kids(c.member.id, children@, id),
        Kind::Frame { child, .. } => match child {
            Some(ch) => if ch.member.id == id {
                Some(c.member.id)
            } else {
                parent_in(*ch, id)
            },
            None => None,
        },
        Kind::Splitted { first, second, .. } => if first.member.id == id {
            Some(c.member.id)
        } else if find_in(*first, id) is Some {
            parent_in(*first, id)
        } else if second.member.id == id {
            Some(c.member.id)
        } else {
            parent_in(*second, id)
        },
    }
}

/// The container holding the first control with identifier `id` among
/// `kids` (held by `pid`) and what lies inside them.
pub open spec fn parent_in_kids(pid: Id, kids: Seq<Control>, id: Id) -> Option<Id>
    decreases kids, 0int,
{
    if kids.len() == 0 {
        None
    } else if kids[0].member.id == id {
        Some(pid)
    } else if find_in(kids[0], id) is Some {
        parent_in(kids[0], id)
    } else {
        parent_in_kids(pid, kids.subrange(1, kids.len() as int), id)
    }
}

proof fn lemma_parent_step(pid: Id, kids: Seq<Control>, i: int, id: Id)
    requires
        0 <= i < kids.len(),
    ensures
        parent_in_kids(pid, kids.subrange(i, kids.len() as int), id) == (if kids[i].member.id == id {
            Some(pid)
        } else if find_in(kids[i], id) is Some {
            parent_in(kids[i], id)
        } else {
            parent_in_kids(pid, kids.subrange(i + 1, kids.len() as int), id)
        }),
{
    let t = kids.subrange(i, kids.len() as int);
    assert(t[0] == kids[i]);
    assert(t.subrange(1, t.len() as int) =~= kids.subrange(i + 1, kids.len() as int));
}

impl Control {
    /// The identifier of the container that holds the first descendant with
    /// identifier `id`; `None` where no descendant has it.
    pub fn parent_of(&self, id: Id) -> (r: Option<Id>)
        ensures
            r == parent_in(*self, id),
        decreases *self,
    {
        match &self.kind {
            Kind::Button { .. } => None,
            Kind::LinearLayout { children, .. } => {
                proof {
                    assert(children@.subrange(0, children@.len() as int) =~= children@);
                }
                let mut i: usize = 0;
                while i < children.len()
                    invariant
                        0 <= i <= children.len(),
                        self.kind is LinearLayout,
                        children == self.kind->children,
                        parent_in(*self, id) == parent_in_kids(
                            self.member.id,
                            children@.subrange(i as int, children@.len() as int),
                            id,
                        ),
                    decreases children.len() - i,
                {
                    proof {
                        lemma_parent_step(self.member.id, children@, i as int, id);
                        let ghost k = self.kind;
                        assert(decreases_to!(*self => k));
                        assert(decreases_to!(k => *children));
                        assert(decreases_to!(*children => children@));
                        assert(decreases_to!(children@ => children@[i as int]));
                    }
                    if children[i].member.id == id {
                        return Some(self.member.id);
                    }
                    if children[i].find_control_by_id(id).is_some() {
                        return children[i].parent_of(id);
                    }
                    i = i + 1;
                }
                proof {
                    assert(children@.subrange(i as int, children@.len() as int).len() == 0);
                }
                None
            },
            Kind::Frame { child, .. } => match child {
                Some(ch) => if ch.member.id == id {
                    Some(self.member.id)
                } else {
                    ch.parent_of(id)
                },
                None => None,
            },
            Kind::Splitted { first, second, .. } => {
                if first.member.id == id {
                    Some(self.member.id)
                } else if first.find_control_by_id(id).is_some() {
                    first.parent_of(id)
                } else if second.member.id == id {
                    Some(self.member.id)
                } else {
                    second.parent_of(id)
                }
            },
        }
    }
}

} // verus!
