use vstd::prelude::*;

use crate::control::{lemma_wf_children, same_fields, wf, Control, Kind};
use crate::ids::Id;

verus! {

/// The order in which detaching `c` releases native handles: each child's
/// subtree first, child by child, and `c` itself last.
pub open spec fn detach_order(c: Control) -> Seq<Id>
    decreases c, 1int,
{
    match c.kind {
        Kind::Button { .. } => Seq::empty(),
        Kind::LinearLayout { children, .. } => kids_detach_order(children@),
        Kind::Frame { child, .. } => match child {
            Some(ch) => detach_order(*ch),
            None => Seq::empty(),
        },
        Kind::Splitted { first, second, .. } => detach_order(*first) + detach_order(*second),
    }.push(c.member.id)
}

/// The detach orders of `kids`, one after another.
pub open spec fn kids_detach_order(kids: Seq<Control>) -> Seq<Id>
    decreases kids, 0int,
{
    if kids.len() == 0 {
        Seq::empty()
    } else {
        kids_detach_order(kids.drop_last()) + detach_order(kids.last())
    }
}

/// `new` is `old` with no place, nor any of its descendants.
pub open spec fn detached(old: Control, new: Control) -> bool
    decreases old,
{
    &&& new.member == old.member
    &&& new.layout_width == old.layout_width
    &&& new.layout_height == old.layout_height
    &&& new.margins == old.margins
    &&& new.measured_size == old.measured_size
    &&& new.coords is None
    &&& same_fields(old.kind, new.kind)
    &&& match (old.kind, new.kind) {
        (Kind::LinearLayout { children: k1, .. }, Kind::LinearLayout { children: k2, .. }) =>
            forall|i: int| 0 <= i < k1.len() ==> detached(#[trigger] k1@[i], k2@[i]),
        (Kind::Frame { child: c1, .. }, Kind::Frame { child: c2, .. }) => match (c1, c2) {
            (Some(a), Some(b)) => detached(*a, *b),
            _ => true,
        },
        (
            Kind::Splitted { first: f1, second: s1, .. },
            Kind::Splitted { first: f2, second: s2, .. },
        ) => detached(*f1, *f2) && detached(*s1, *s2),
        _ => true,
    }
}

impl Control {
    /// Detaches this control and, first, its children: every place is
    /// cleared. Returns the identifiers whose native handles are to be
    /// released, in the order of release.
    pub fn on_removed_from_container(&mut self) -> (r: Vec<Id>)
        requires
            wf(*old(self)),
        ensures
            detached(*old(self), *final(self)),
            r@ == detach_order(*old(self)),
            wf(*final(self)),
        decreases *old(self),
    {
        let ghost old_self = *self;
        let mut order: Vec<Id> = Vec::new();
        match &mut self.kind {
            Kind::Button { .. } => {},
            Kind::LinearLayout { children, .. } => {
                let ghost old_kids = children@;
                proof {
                    lemma_wf_children(old_self);
                }
                let mut i: usize = 0;
                while i < children.len()
                    invariant
                        0 <= i <= children.len(),
                        children@.len() == old_kids.len(),
                        old_self.kind is LinearLayout,
                        old_kids == old_self.kind->children@,
                        old_self == *old(self),
                        order@ == kids_detach_order(old_kids.subrange(0, i as int)),
                        forall|j: int| 0 <= j < old_kids.len() ==> wf(#[trigger] old_kids[j]),
                        forall|j: int| 0 <= j < i ==> detached(#[trigger] old_kids[j], children@[j]),
                        forall|j: int| 0 <= j < i ==> wf(#[trigger] children@[j]),
                        forall|j: int| i <= j < old_kids.len() ==> #[trigger] children@[j] == old_kids[j],
                    decreases children.len() - i,
                {
                    proof {
                        assert(old_kids.subrange(0, i as int + 1).drop_last() =~= old_kids.subrange(0, i as int));
                        let ghost k = old_self.kind;
                        let ghost v = k->children;
                        assert(decreases_to!(old_self => k));
                        assert(decreases_to!(k => v));
                        assert(decreases_to!(v => v@));
                        assert(decreases_to!(v@ => v@[i as int]));
                        assert(decreases_to!(*old(self) => children@[i as int]));
                    }
                    let mut sub = children[i].on_removed_from_container();
                    order.append(&mut sub);
                    i = i + 1;
                }
                proof {
                    assert(old_kids.subrange(0, old_kids.len() as int) =~= old_kids);
                }
            },
            Kind::Frame { child, .. } => {
                if let Some(ch) = child {
                    let mut sub = ch.on_removed_from_container();
                    order.append(&mut sub);
                }
            },
            Kind::Splitted { first, second, .. } => {
                let mut sub = first.on_removed_from_container();
                order.append(&mut sub);
                let mut sub2 = second.on_removed_from_container();
                order.append(&mut sub2);
            },
        }
        self.coords = None;
        order.push(self.member.id);
        order
    }
}

/// Detaching a container releases every native handle of each child's
/// subtree before the container's own, which is released last.
pub proof fn lemma_children_detach_first(c: Control)
    ensures
        detach_order(c).len() >= 1,
        detach_order(c).last() == c.member.id,
        c.kind is LinearLayout ==> forall|i: int|
            0 <= i < c.kind->children@.len() ==> detach_order(c).subrange(
                0,
                detach_order(c).len() - 1,
            ).contains(#[trigger] c.kind->children@[i].member.id),
        c.kind is Frame && c.kind->child is Some ==> detach_order(c).subrange(
            0,
            detach_order(c).len() - 1,
        ).contains(c.kind->child->0.member.id),
        c.kind is Splitted ==> {
            let rest = detach_order(c).subrange(0, detach_order(c).len() - 1);
            rest.contains(c.kind->first.member.id) && rest.contains(c.kind->second.member.id)
        },
{
    let rest = detach_order(c).subrange(0, detach_order(c).len() - 1);
    match c.kind {
        Kind::LinearLayout { children, .. } => {
            assert(rest =~= kids_detach_order(children@));
            assert forall|i: int| 0 <= i < children@.len() implies rest.contains(
                #[trigger] children@[i].member.id,
            ) by {
                lemma_kids_order_contains(children@, i);
            }
        },
        Kind::Frame { child, .. } => {
            if let Some(ch) = child {
                assert(rest =~= detach_order(*ch));
                lemma_own_id_last(*ch);
            }
        },
        Kind::Splitted { first, second, .. } => {
            let a = detach_order(*first);
            let b = detach_order(*second);
            assert(rest =~= a + b);
            lemma_own_id_last(*first);
            lemma_own_id_last(*second);
            assert((a + b)[a.len() - 1] == first.member.id);
            assert((a + b)[a.len() + b.len() - 1] == second.member.id);
        },
        _ => {},
    }
}

proof fn lemma_own_id_last(c: Control)
    ensures
        detach_order(c).len() >= 1,
        detach_order(c).last() == c.member.id,
        detach_order(c).contains(c.member.id),
{
    assert(detach_order(c)[detach_order(c).len() - 1] == c.member.id);
}

proof fn lemma_kids_order_contains(kids: Seq<Control>, i: int)
    requires
        0 <= i < kids.len(),
    ensures
        kids_detach_order(kids).contains(kids[i].member.id),
    decreases kids.len(),
{
    let a = kids_detach_order(kids.drop_last());
    let b = detach_order(kids.last());
    if i == kids.len() - 1 {
        lemma_own_id_last(kids.last());
        assert((a + b)[a.len() + b.len() - 1] == kids[i].member.id);
    } else {
        lemma_kids_order_contains(kids.drop_last(), i);
        let k = choose|k: int| 0 <= k < a.len() && a[k] == kids[i].member.id;
        assert((a + b)[k] == kids[i].member.id);
    }
}

} // verus!
