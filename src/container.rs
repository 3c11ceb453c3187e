use vstd::prelude::*;

use crate::control::{lemma_wf_children, measured, same_fields, split_of, wf, Control, Kind};
use crate::detach::{detach_order, detached};
use crate::draw::{lay_out_at_origin, lemma_laid_out, laid_out, Placement};
use crate::ids::Id;
use crate::layout::{inner, inner_space, Orientation};
use crate::splitter::children_sizes;

verus! {

/// How many children `c` holds.
pub open spec fn child_count(c: Control) -> nat {
    match c.kind {
        Kind::Button { .. } => 0,
        Kind::LinearLayout { children, .. } => children.len() as nat,
        Kind::Frame { child, .. } => if child is Some {
            1
        } else {
            0
        },
        Kind::Splitted { .. } => 2,
    }
}

/// The child at `index`, if there is one: in a linear layout by position, in
/// a splitter 0 and 1 for the two panes, in a frame 0 for its child.
pub open spec fn child_at_spec(c: Control, index: int) -> Option<Control> {
    match c.kind {
        Kind::Button { .. } => None,
        Kind::LinearLayout { children, .. } => if 0 <= index < children.len() {
            Some(children@[index])
        } else {
            None
        },
        Kind::Frame { child, .. } => if index == 0 {
            match child {
                Some(ch) => Some(*ch),
                None => None,
            }
        } else {
            None
        },
        Kind::Splitted { first, second, .. } => if index == 0 {
            Some(*first)
        } else if index == 1 {
            Some(*second)
        } else {
            None
        },
    }
}

/// What a change of children hands back: the child taken out, if any; the
/// identifiers whose native handles are to be released, in order (the child
/// taken out, where the container is attached); and what the native toolkit is
/// to apply for the child put in (where the container is attached).
pub struct ChildSwap {
    pub old: Option<Control>,
    pub released: Vec<Id>,
    pub placements: Vec<Placement>,
}

/// `new` is the frame `old` with `child` put in, and `r` what came out: the
/// old child, detached where the frame is attached; the new child is attached
/// in the space the frame leaves it where the frame is attached.
pub open spec fn frame_swapped(old: Control, child: Option<Control>, new: Control, r: ChildSwap) -> bool {
    &&& same_but_children(old, new)
    &&& new.kind is Frame
    &&& new.kind->Frame_label == old.kind->Frame_label
    &&& new.kind->Frame_label_size == old.kind->Frame_label_size
    &&& child is None ==> new.kind->Frame_child is None && r.placements@.len() == 0
    &&& child matches Some(c) ==> new.kind->Frame_child matches Some(n) && entered(
        old,
        c,
        *n,
        inner_of(old),
        r.placements@,
    )
    &&& old.kind->Frame_child is None ==> r.old is None && r.released@.len() == 0
    &&& old.kind->Frame_child matches Some(o) ==> r.old matches Some(x) && left(
        old,
        *o,
        x,
        r.released@,
    )
}

/// Taking the child out of a frame and putting what came out back in: the
/// first step returns the child (the same control, detached where the frame
/// is attached) and leaves the frame empty; on a frame that is not attached
/// the second step gives back the very frame that was there at first.
pub proof fn lemma_set_child_round_trip(
    f0: Control,
    f1: Control,
    r1: ChildSwap,
    f2: Control,
    r2: ChildSwap,
)
    requires
        f0.kind is Frame,
        f0.kind->Frame_child is Some,
        frame_swapped(f0, None, f1, r1),
        frame_swapped(f1, r1.old, f2, r2),
    ensures
        r1.old is Some,
        r1.old->0.member.id == f0.kind->Frame_child->0.member.id,
        f1.kind->Frame_child is None,
        r2.old is None,
        !is_attached(f0) ==> r1.old->0 == *f0.kind->Frame_child->0,
        !is_attached(f0) ==> f2 == f0,
{
    if !is_attached(f0) {
        assert(f2.kind->Frame_child->0 == f0.kind->Frame_child->0);
        assert(f2.kind == f0.kind);
    }
}

impl Control {
    /// Number of children.
    pub fn len(&self) -> (r: usize)
        ensures
            r == child_count(*self),
    {
        match &self.kind {
            Kind::Button { .. } => 0,
            Kind::LinearLayout { children, .. } => children.len(),
            Kind::Frame { child, .. } => if child.is_some() {
                1
            } else {
                0
            },
            Kind::Splitted { .. } => 2,
        }
    }

    /// The child at `index`, if there is one.
    pub fn child_at(&self, index: usize) -> (r: Option<&Control>)
        ensures
            r is Some <==> child_at_spec(*self, index as int) is Some,
            r is Some ==> *r->0 == child_at_spec(*self, index as int)->0,
    {
        match &self.kind {
            Kind::Button { .. } => None,
            Kind::LinearLayout { children, .. } => if index < children.len() {
                Some(&children[index])
            } else {
                None
            },
            Kind::Frame { child, .. } => if index == 0 {
                match child {
                    Some(ch) => Some(&**ch),
                    None => None,
                }
            } else {
                None
            },
            Kind::Splitted { first, second, .. } => if index == 0 {
                Some(&**first)
            } else if index == 1 {
                Some(&**second)
            } else {
                None
            },
        }
    }

    /// Takes the child at `index` out of a linear layout and returns it,
    /// detached where the layout is attached, with the order in which its
    /// native handles are to be released; nothing where there is no such
    /// child, or where this is no linear layout (a splitter keeps both panes).
    pub fn remove_child_from(&mut self, index: usize) -> (r: ChildSwap)
        requires
            wf(*old(self)),
        ensures
            wf(*final(self)),
            same_but_children(*old(self), *final(self)),
            (old(self).kind is LinearLayout && index < kids(*old(self)).len()) ==> {
                let k = kids(*old(self));
                &&& final(self).kind is LinearLayout
                &&& final(self).kind->LinearLayout_orientation
                    == old(self).kind->LinearLayout_orientation
                &&& kids(*final(self)) == k.remove(index as int)
                &&& r.old matches Some(x) && left(*old(self), k[index as int], x, r.released@)
                &&& r.placements@.len() == 0
            },
            !(old(self).kind is LinearLayout && index < kids(*old(self)).len()) ==> {
                &&& r.old is None
                &&& r.released@.len() == 0
                &&& r.placements@.len() == 0
                &&& *final(self) == *old(self)
            },
    {
        let ghost old_self = *self;
        let attached = self.coords.is_some();
        match &mut self.kind {
            Kind::LinearLayout { children, .. } => {
                if index < children.len() {
                    proof {
                        lemma_wf_children(old_self);
                    }
                    let ghost k = children@;
                    let mut gone = children.remove(index);
                    let mut released: Vec<Id> = Vec::new();
                    if attached {
                        released = gone.on_removed_from_container();
                    }
                    proof {
                        assert forall|j: int| 0 <= j < children@.len() implies wf(
                            #[trigger] children@[j],
                        ) by {
                            if j >= index {
                                assert(children@[j] == k[j + 1]);
                            } else {
                                assert(children@[j] == k[j]);
                            }
                        }
                    }
                    ChildSwap { old: Some(gone), released, placements: Vec::new() }
                } else {
                    ChildSwap { old: None, released: Vec::new(), placements: Vec::new() }
                }
            },
            _ => ChildSwap { old: None, released: Vec::new(), placements: Vec::new() },
        }
    }

    /// The child of a frame.
    pub fn child(&self) -> (r: Option<&Control>)
        ensures
            r is Some <==> child_at_spec(*self, 0) is Some && self.kind is Frame,
            r is Some ==> *r->0 == child_at_spec(*self, 0)->0,
    {
        match &self.kind {
            Kind::Frame { child, .. } => match child {
                Some(ch) => Some(&**ch),
                None => None,
            },
            _ => None,
        }
    }

    /// Puts `child` into a frame in place of the child it had, which is
    /// returned. Where the frame is attached, the old child is detached first
    /// and the new one attached at the frame's origin in the space the frame
    /// leaves it: measured and drawn, as `on_added_to_container` does.
    pub fn set_child(&mut self, child: Option<Control>) -> (r: ChildSwap)
        requires
            wf(*old(self)),
            old(self).kind is Frame,
            child matches Some(c) ==> wf(c) && (is_attached(*old(self)) ==> c.coords is None),
        ensures
            wf(*final(self)),
            same_but_children(*old(self), *final(self)),
            frame_swapped(*old(self), child, *final(self), r),
    {
        let ghost old_self = *self;
        let attached = self.coords.is_some();
        let m = self.margins;
        let size = self.measured_size;
        let iw = inner(size.0, m.left, m.right);
        let ih = inner(size.1, m.top, m.bottom);
        match &mut self.kind {
            Kind::Frame { child: slot, .. } => {
                let mut released: Vec<Id> = Vec::new();
                let old_child = match slot.take() {
                    Some(b) => {
                        let mut o = *b;
                        if attached {
                            released = o.on_removed_from_container();
                        }
                        Some(o)
                    },
                    None => None,
                };
                let mut placements: Vec<Placement> = Vec::new();
                match child {
                    Some(c) => {
                        let ghost c0 = c;
                        let mut c = c;
                        if attached {
                            let (ops, mid) = lay_out_at_origin(&mut c, iw, ih);
                            placements = ops;
                            proof {
                                lemma_laid_out(c0, mid@, c, iw, ih, placements@);
                            }
                        }
                        *slot = Some(Box::new(c));
                    },
                    None => {},
                }
                ChildSwap { old: old_child, released, placements }
            },
            _ => ChildSwap { old: None, released: Vec::new(), placements: Vec::new() },
        }
    }
}

/// The children of a linear layout, in order.
pub open spec fn kids(c: Control) -> Seq<Control> {
    match c.kind {
        Kind::LinearLayout { children, .. } => children@,
        _ => Seq::empty(),
    }
}

/// Whether `c` has been placed by a drawn parent.
pub open spec fn is_attached(c: Control) -> bool {
    c.coords is Some
}

/// The space a container leaves its children: its size less its margins.
pub open spec fn inner_of(c: Control) -> (u16, u16) {
    (
        inner_space(c.measured_size.0, c.margins.left, c.margins.right),
        inner_space(c.measured_size.1, c.margins.top, c.margins.bottom),
    )
}

/// `new` is `child` as it enters `parent`, and `ops` what the native toolkit
/// is to apply for it: where the parent is attached, the child is attached as
/// `on_added_to_container` attaches it, measured in the space that the parent
/// leaves it and drawn at the parent's origin; otherwise it is unchanged and
/// nothing is applied.
pub open spec fn entered(
    parent: Control,
    child: Control,
    new: Control,
    space: (u16, u16),
    ops: Seq<Placement>,
) -> bool {
    if is_attached(parent) {
        laid_out(child, new, space, ops)
    } else {
        new == child && ops.len() == 0
    }
}

/// `new` is `child` as it leaves `parent`, and `released` the identifiers
/// whose native handles are to be released: where the parent is attached, the
/// child is detached and its handles released children first; otherwise it is
/// unchanged and nothing is released.
pub open spec fn left(parent: Control, child: Control, new: Control, released: Seq<Id>) -> bool {
    if is_attached(parent) {
        detached(child, new) && released == detach_order(child)
    } else {
        new == child && released.len() == 0
    }
}

/// Everything of `a` but its children is kept in `b`.
pub open spec fn same_but_children(a: Control, b: Control) -> bool {
    &&& b.member == a.member
    &&& b.layout_width == a.layout_width
    &&& b.layout_height == a.layout_height
    &&& b.margins == a.margins
    &&& b.measured_size == a.measured_size
    &&& b.coords == a.coords
}

impl Control {
    /// Places `child` at `index`, inserting it there. Where that pushes a
    /// child past the former end of the layout, that last child is taken out
    /// and returned. A splitter has exactly the two slots 0 and 1: the child
    /// there is replaced and returned; any other index leaves it unchanged.
    /// Where the container is attached, the child taken out is detached and
    /// the new one attached at the container's origin, in the space it gets.
    pub fn set_child_to(&mut self, index: usize, child: Control) -> (r: ChildSwap)
        requires
            wf(*old(self)),
            wf(child),
            is_attached(*old(self)) ==> child.coords is None,
            old(self).kind is LinearLayout || old(self).kind is Splitted,
            old(self).kind is LinearLayout ==> index <= kids(*old(self)).len(),
        ensures
            wf(*final(self)),
            same_but_children(*old(self), *final(self)),
            same_fields(old(self).kind, final(self).kind) || (old(self).kind is LinearLayout
                && index == kids(*old(self)).len()),
            old(self).kind is LinearLayout ==> {
                let k = kids(*old(self));
                let n = kids(*final(self));
                &&& final(self).kind is LinearLayout
                &&& final(self).kind->LinearLayout_orientation == old(self).kind->LinearLayout_orientation
                &&& entered(*old(self), child, n[index as int], inner_of(*old(self)), r.placements@)
                &&& if index < k.len() {
                    &&& n.len() == k.len()
                    &&& n.subrange(0, index as int) == k.subrange(0, index as int)
                    &&& n.subrange(index + 1, n.len() as int) == k.subrange(index as int, k.len() - 1)
                    &&& r.old matches Some(x) && left(*old(self), k.last(), x, r.released@)
                } else {
                    &&& n.len() == k.len() + 1
                    &&& n.subrange(0, k.len() as int) == k
                    &&& r.old is None
                    &&& r.released@.len() == 0
                }
            },
            old(self).kind is Splitted ==> {
                let o = *old(self);
                let f = *final(self);
                let panes = split_of(o, o.measured_size);
                let space = match o.kind->Splitted_orientation {
                    Orientation::Horizontal => (panes.0, inner_of(o).1),
                    Orientation::Vertical => (inner_of(o).0, panes.0),
                };
                let space2 = match o.kind->Splitted_orientation {
                    Orientation::Horizontal => (panes.1, inner_of(o).1),
                    Orientation::Vertical => (inner_of(o).0, panes.1),
                };
                &&& f.kind is Splitted
                &&& index == 0 ==> {
                    &&& entered(o, child, *f.kind->first, space, r.placements@)
                    &&& f.kind->second == o.kind->second
                    &&& r.old matches Some(x) && left(o, *o.kind->first, x, r.released@)
                }
                &&& index == 1 ==> {
                    &&& entered(o, child, *f.kind->second, space2, r.placements@)
                    &&& f.kind->first == o.kind->first
                    &&& r.old matches Some(x) && left(o, *o.kind->second, x, r.released@)
                }
                &&& index > 1 ==> f == o && r.old is None && r.released@.len() == 0
                    && r.placements@.len() == 0
            },
    {
        let ghost old_self = *self;
        let attached = self.coords.is_some();
        let m = self.margins;
        let size = self.measured_size;
        let iw = inner(size.0, m.left, m.right);
        let ih = inner(size.1, m.top, m.bottom);
        let mut released: Vec<Id> = Vec::new();
        let mut placements: Vec<Placement> = Vec::new();
        match &mut self.kind {
            Kind::LinearLayout { children, .. } => {
                proof {
                    lemma_wf_children(old_self);
                }
                let ghost k = children@;
                let n = children.len();
                let mut c = child;
                if attached {
                    let (ops, mid) = lay_out_at_origin(&mut c, iw, ih);
                    placements = ops;
                    proof {
                        lemma_laid_out(child, mid@, c, iw, ih, placements@);
                    }
                }
                children.insert(index, c);
                if index < n {
                    let last = children.pop();
                    match last {
                        Some(mut gone) => {
                            if attached {
                                released = gone.on_removed_from_container();
                            }
                            proof {
                                assert(children@ =~= k.insert(index as int, c).drop_last());
                                assert(children@.subrange(0, index as int) =~= k.subrange(0, index as int));
                                assert(children@.subrange(index + 1, children@.len() as int) =~= k.subrange(index as int, k.len() - 1));
                                assert forall|j: int| 0 <= j < children@.len() implies wf(#[trigger] children@[j]) by {
                                    if j > index {
                                        assert(children@[j] == k[j - 1]);
                                    }
                                }
                            }
                            ChildSwap { old: Some(gone), released, placements }
                        },
                        None => ChildSwap { old: None, released, placements },
                    }
                } else {
                    proof {
                        assert(children@.subrange(0, k.len() as int) =~= k);
                        assert forall|j: int| 0 <= j < children@.len() implies wf(#[trigger] children@[j]) by {
                            if j < index {
                                assert(children@[j] == k[j]);
                            }
                        }
                    }
                    ChildSwap { old: None, released, placements }
                }
            },
            Kind::Splitted { orientation, splitter, first, second } => {
                let panes = match orientation {
                    Orientation::Horizontal => children_sizes(size.0, *splitter, m.left, m.right),
                    Orientation::Vertical => children_sizes(size.1, *splitter, m.top, m.bottom),
                };
                let (sw, sh, sw2, sh2) = match orientation {
                    Orientation::Horizontal => (panes.0, ih, panes.1, ih),
                    Orientation::Vertical => (iw, panes.0, iw, panes.1),
                };
                if index == 0 {
                    let mut c = child;
                    if attached {
                        let (ops, mid) = lay_out_at_origin(&mut c, sw, sh);
                        placements = ops;
                        proof {
                            lemma_laid_out(child, mid@, c, sw, sh, placements@);
                        }
                    }
                    let mut gone = c;
                    core::mem::swap(&mut **first, &mut gone);
                    if attached {
                        released = gone.on_removed_from_container();
                    }
                    ChildSwap { old: Some(gone), released, placements }
                } else if index == 1 {
                    let mut c = child;
                    if attached {
                        let (ops, mid) = lay_out_at_origin(&mut c, sw2, sh2);
                        placements = ops;
                        proof {
                            lemma_laid_out(child, mid@, c, sw2, sh2, placements@);
                        }
                    }
                    let mut gone = c;
                    core::mem::swap(&mut **second, &mut gone);
                    if attached {
                        released = gone.on_removed_from_container();
                    }
                    ChildSwap { old: Some(gone), released, placements }
                } else {
                    ChildSwap { old: None, released, placements }
                }
            },
            _ => ChildSwap { old: None, released, placements },
        }
    }
}

} // verus!
