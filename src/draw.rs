use vstd::prelude::*;

use crate::control::{
    lemma_sums_nonneg, measured, lemma_wf_children, same_fields, sum_heights, sum_widths, wf, Control,
    Kind,
};
use crate::ids::Id;
use crate::layout::{Orientation, Visibility};

verus! {

/// What drawing hands to the native toolkit for one widget: where it goes
/// inside its parent, its size, and whether it is shown and takes input.
#[derive(Debug, Clone, Copy, PartialEq, Eq, Structural)]
pub struct Placement {
    pub id: Id,
    pub x: i32,
    pub y: i32,
    pub width: u16,
    pub height: u16,
    pub shown: bool,
    pub enabled: bool,
}

/// `x` cut down to the range of a coordinate.
pub open spec fn fit_coord(x: int) -> i32 {
    if x > i32::MAX {
        i32::MAX
    } else if x < 0 {
        0
    } else {
        x as i32
    }
}

/// The place of a child in a linear arrangement, after the children `before` it.
pub open spec fn slot_after(orientation: Orientation, before: Seq<Control>) -> (i32, i32) {
    match orientation {
        Orientation::Horizontal => (fit_coord(sum_widths(before)), 0),
        Orientation::Vertical => (0, fit_coord(sum_heights(before))),
    }
}

/// Where `c` is drawn: at `coords` when given, else where it was drawn last.
pub open spec fn effective(c: Control, coords: Option<(i32, i32)>) -> Option<(i32, i32)> {
    if coords is Some {
        coords
    } else {
        c.coords
    }
}

/// The placement of `c` at `at`, from its measured size and visibility.
pub open spec fn placement_of(c: Control, at: (i32, i32)) -> Placement {
    Placement {
        id: c.member.id,
        x: at.0,
        y: at.1,
        width: c.measured_size.0,
        height: c.measured_size.1,
        shown: c.member.visibility != Visibility::Gone,
        enabled: c.member.visibility != Visibility::Invisible,
    }
}

/// What drawing `c` at `coords` hands to the toolkit: nothing while `c` has
/// no place; else its own placement, then, for a container, what drawing each
/// child at its place in the arrangement hands over, child by child.
pub open spec fn draw_ops(c: Control, coords: Option<(i32, i32)>) -> Seq<Placement>
    decreases c, 1int,
{
    match effective(c, coords) {
        None => Seq::empty(),
        Some(at) => seq![placement_of(c, at)] + match c.kind {
            Kind::Button { .. } => Seq::empty(),
            Kind::LinearLayout { orientation, children } => linear_ops(orientation, children@),
            Kind::Frame { child, .. } => match child {
                Some(ch) => draw_ops(*ch, Some((0, 0))),
                None => Seq::empty(),
            },
            Kind::Splitted { first, second, .. } => draw_ops(*first, Some((0, 0))) + draw_ops(
                *second,
                Some((0, 0)),
            ),
        },
    }
}

/// What drawing the children `kids` of a linear arrangement hands over.
pub open spec fn linear_ops(orientation: Orientation, kids: Seq<Control>) -> Seq<Placement>
    decreases kids, 0int,
{
    if kids.len() == 0 {
        Seq::empty()
    } else {
        linear_ops(orientation, kids.drop_last()) + draw_ops(
            kids.last(),
            Some(slot_after(orientation, kids.drop_last())),
        )
    }
}

/// `new` is `old` drawn at `coords`: it keeps the place it is given (or the
/// one it had), and, once it has a place, each child is drawn at its place in
/// the arrangement. Nothing else changes.
pub open spec fn drawn(old: Control, new: Control, coords: Option<(i32, i32)>) -> bool
    decreases old,
{
    &&& new.member == old.member
    &&& new.layout_width == old.layout_width
    &&& new.layout_height == old.layout_height
    &&& new.margins == old.margins
    &&& new.measured_size == old.measured_size
    &&& new.coords == effective(old, coords)
    &&& same_fields(old.kind, new.kind)
    &&& if effective(old, coords) is None {
        new.kind == old.kind
    } else {
        match (old.kind, new.kind) {
            (
                Kind::LinearLayout { orientation, children: k1 },
                Kind::LinearLayout { children: k2, .. },
            ) => forall|i: int|
                0 <= i < k1.len() ==> drawn(
                    #[trigger] k1@[i],
                    k2@[i],
                    Some(slot_after(orientation, k1@.subrange(0, i))),
                ),
            (Kind::Frame { child: c1, .. }, Kind::Frame { child: c2, .. }) => match (c1, c2) {
                (Some(a), Some(b)) => drawn(*a, *b, Some((0, 0))),
                _ => true,
            },
            (
                Kind::Splitted { first: f1, second: s1, .. },
                Kind::Splitted { first: f2, second: s2, .. },
            ) => drawn(*f1, *f2, Some((0, 0))) && drawn(*s1, *s2, Some((0, 0))),
            _ => true,
        }
    }
}

proof fn lemma_sum_step(kids: Seq<Control>, i: int)
    requires
        0 <= i < kids.len(),
    ensures
        kids.subrange(0, i + 1).drop_last() == kids.subrange(0, i),
        kids.subrange(0, i + 1).last() == kids[i],
        sum_widths(kids.subrange(0, i + 1)) == sum_widths(kids.subrange(0, i)) + kids[i].measured_size.0,
        sum_heights(kids.subrange(0, i + 1)) == sum_heights(kids.subrange(0, i)) + kids[i].measured_size.1,
        sum_widths(kids.subrange(0, i)) >= 0,
        sum_heights(kids.subrange(0, i)) >= 0,
{
    assert(kids.subrange(0, i + 1).drop_last() =~= kids.subrange(0, i));
    lemma_sums_nonneg(kids.subrange(0, i));
}

/// Adds `d` to a coordinate total, stopping at the largest coordinate.
fn add_coord(total: u64, d: u16) -> (r: u64)
    requires
        total <= i32::MAX,
    ensures
        r as int == if total + d > i32::MAX { i32::MAX as int } else { total + d },
{
    let t = total + d as u64;
    if t > i32::MAX as u64 {
        i32::MAX as u64
    } else {
        t
    }
}

impl Control {
    /// The placement of this control at `at`.
    fn placement_at(&self, at: (i32, i32)) -> (r: Placement)
        ensures
            r == placement_of(*self, at),
    {
        Placement {
            id: self.member.id,
            x: at.0,
            y: at.1,
            width: self.measured_size.0,
            height: self.measured_size.1,
            shown: self.member.visibility != Visibility::Gone,
            enabled: self.member.visibility != Visibility::Invisible,
        }
    }

    /// Applies the last measured size, and the place `coords` when given, and
    /// draws the children at their places. Returns what the native toolkit is
    /// to apply, in order; nothing while the control has never had a place.
    #[verifier::rlimit(40)]
    pub fn draw(&mut self, coords: Option<(i32, i32)>) -> (r: Vec<Placement>)
        requires
            wf(*old(self)),
        ensures
            drawn(*old(self), *final(self), coords),
            r@ == draw_ops(*old(self), coords),
            wf(*final(self)),
        decreases *old(self),
    {
        let ghost old_self = *self;
        if coords.is_some() {
            self.coords = coords;
        }
        let at = match self.coords {
            Some(at) => at,
            None => {
                return Vec::new();
            },
        };
        let mut ops: Vec<Placement> = Vec::new();
        ops.push(self.placement_at(at));
        match &mut self.kind {
            Kind::Button { .. } => {},
            Kind::LinearLayout { orientation, children } => {
                let o = *orientation;
                let ghost old_kids = children@;
                proof {
                    lemma_wf_children(old_self);
                }
                let mut sw: u64 = 0;
                let mut sh: u64 = 0;
                let mut i: usize = 0;
                while i < children.len()
                    invariant
                        0 <= i <= children.len(),
                        children@.len() == old_kids.len(),
                        old_self.kind is LinearLayout,
                        old_kids == old_self.kind->children@,
                        old_self == *old(self),
                        sw as int == fit_coord(sum_widths(old_kids.subrange(0, i as int))) as int,
                        sh as int == fit_coord(sum_heights(old_kids.subrange(0, i as int))) as int,
                        ops@ == seq![placement_of(old_self, at)] + linear_ops(o, old_kids.subrange(0, i as int)),
                        forall|j: int| 0 <= j < old_kids.len() ==> wf(#[trigger] old_kids[j]),
                        forall|j: int|
                            0 <= j < i ==> drawn(
                                #[trigger] old_kids[j],
                                children@[j],
                                Some(slot_after(o, old_kids.subrange(0, j))),
                            ),
                        forall|j: int| 0 <= j < i ==> wf(#[trigger] children@[j]),
                        forall|j: int| i <= j < old_kids.len() ==> #[trigger] children@[j] == old_kids[j],
                    decreases children.len() - i,
                {
                    proof {
                        lemma_sum_step(old_kids, i as int);
                        let ghost k = old_self.kind;
                        let ghost v = k->children;
                        assert(decreases_to!(old_self => k));
                        assert(decreases_to!(k => v));
                        assert(decreases_to!(v => v@));
                        assert(decreases_to!(v@ => v@[i as int]));
                        assert(decreases_to!(*old(self) => children@[i as int]));
                    }
                    let slot: (i32, i32) = match o {
                        Orientation::Horizontal => (sw as i32, 0),
                        Orientation::Vertical => (0, sh as i32),
                    };
                    let size = children[i].measured_size;
                    let mut sub = children[i].draw(Some(slot));
                    ops.append(&mut sub);
                    sw = add_coord(sw, size.0);
                    sh = add_coord(sh, size.1);
                    i = i + 1;
                }
                proof {
                    assert(old_kids.subrange(0, old_kids.len() as int) =~= old_kids);
                }
            },
            Kind::Frame { child, .. } => {
                if let Some(ch) = child {
                    let mut sub = ch.draw(Some((0, 0)));
                    ops.append(&mut sub);
                }
            },
            Kind::Splitted { first, second, .. } => {
                let mut sub = first.draw(Some((0, 0)));
                ops.append(&mut sub);
                let mut sub2 = second.draw(Some((0, 0)));
                ops.append(&mut sub2);
            },
        }
        ops
    }
}

/// Once `a` has been drawn into `b`, drawing `b` hands over what drawing `a`
/// would, at any given place, or with no place where `a` was given none.
proof fn lemma_redraw(
    a: Control,
    b: Control,
    coords: Option<(i32, i32)>,
    coords2: Option<(i32, i32)>,
)
    requires
        drawn(a, b, coords),
        coords is None || coords2 is Some,
    ensures
        draw_ops(b, coords2) == draw_ops(a, coords2),
    decreases a, 1int,
{
    if effective(a, coords2) is Some {
        if effective(a, coords) is None {
            assert(b.kind == a.kind);
        } else {
            match (a.kind, b.kind) {
                (
                    Kind::LinearLayout { orientation, children: k1 },
                    Kind::LinearLayout { children: k2, .. },
                ) => {
                    assert(decreases_to!(a => a.kind));
                    assert(decreases_to!(a.kind => k1));
                    assert(decreases_to!(k1 => k1@));
                    lemma_redraw_kids(orientation, k1@, k2@);
                },
                (Kind::Frame { child: c1, .. }, Kind::Frame { child: c2, .. }) => match (c1, c2) {
                    (Some(x), Some(y)) => lemma_redraw(*x, *y, Some((0, 0)), Some((0, 0))),
                    _ => {},
                },
                (
                    Kind::Splitted { first: f1, second: s1, .. },
                    Kind::Splitted { first: f2, second: s2, .. },
                ) => {
                    lemma_redraw(*f1, *f2, Some((0, 0)), Some((0, 0)));
                    lemma_redraw(*s1, *s2, Some((0, 0)), Some((0, 0)));
                },
                _ => {},
            }
        }
    }
}

proof fn lemma_redraw_kids(orientation: Orientation, k1: Seq<Control>, k2: Seq<Control>)
    requires
        k1.len() == k2.len(),
        forall|i: int|
            0 <= i < k1.len() ==> drawn(
                #[trigger] k1[i],
                k2[i],
                Some(slot_after(orientation, k1.subrange(0, i))),
            ),
    ensures
        linear_ops(orientation, k2) == linear_ops(orientation, k1),
        sum_widths(k2) == sum_widths(k1),
        sum_heights(k2) == sum_heights(k1),
    decreases k1, 0int,
{
    if k1.len() > 0 {
        let n = k1.len() - 1;
        let pre1 = k1.drop_last();
        let pre2 = k2.drop_last();
        assert forall|i: int| 0 <= i < pre1.len() implies drawn(
            #[trigger] pre1[i],
            pre2[i],
            Some(slot_after(orientation, pre1.subrange(0, i))),
        ) by {
            assert(pre1.subrange(0, i) =~= k1.subrange(0, i));
            assert(pre1[i] == k1[i]);
        }
        lemma_redraw_kids(orientation, pre1, pre2);
        assert(k1.subrange(0, n) =~= pre1);
        assert(k1[n] == k1.last());
        lemma_redraw(
            k1.last(),
            k2.last(),
            Some(slot_after(orientation, pre1)),
            Some(slot_after(orientation, pre1)),
        );
    }
}

/// Drawing twice in a row with no new place hands the native toolkit the same
/// placements both times: `s1` is `s0` drawn with no place given, and `s2`
/// is `s1` drawn the same way.
pub proof fn lemma_draw_idempotent(s0: Control, s1: Control, s2: Control)
    requires
        drawn(s0, s1, None),
        drawn(s1, s2, None),
    ensures
        draw_ops(s1, None) == draw_ops(s0, None),
        draw_ops(s2, None) == draw_ops(s0, None),
{
    lemma_redraw(s0, s1, None, None);
    lemma_redraw(s1, s2, None, None);
}

/// Measures `c` in the space `(w, h)` and draws it at its parent's origin,
/// as attaching it does, and hands back the measured state between the two
/// passes.
pub(crate) fn lay_out_at_origin(c: &mut Control, w: u16, h: u16) -> (r: (Vec<Placement>, Ghost<Control>))
    requires
        wf(*old(c)),
    ensures
        wf(*final(c)),
        measured(*old(c), r.1@, w, h),
        drawn(r.1@, *final(c), Some((0, 0))),
        r.0@ == draw_ops(r.1@, Some((0, 0))),
{
    c.measure(w, h);
    let ghost m = *c;
    let ops = c.draw(Some((0, 0)));
    (ops, Ghost(m))
}

/// `new` is `child` measured in the space `space` and drawn at its parent's
/// origin, as attaching it or redrawing it from its parent leaves it; `ops` is
/// what that hands the native toolkit.
pub open spec fn laid_out(child: Control, new: Control, space: (u16, u16), ops: Seq<Placement>) -> bool {
    exists|m: Control|
        #[trigger] measured(child, m, space.0, space.1) && drawn(m, new, Some((0, 0))) && ops
            == draw_ops(m, Some((0, 0)))
}

pub(crate) proof fn lemma_laid_out(child: Control, m: Control, new: Control, w: u16, h: u16, ops: Seq<Placement>)
    requires
        measured(child, m, w, h),
        drawn(m, new, Some((0, 0))),
        ops == draw_ops(m, Some((0, 0))),
    ensures
        laid_out(child, new, (w, h), ops),
{
    let space = (w, h);
    assert(measured(child, m, space.0, space.1));
}

} // verus!
