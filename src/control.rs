use vstd::prelude::*;

use crate::ids::Id;
use crate::layout::{
    fit, fit_size, inner, inner_space, resolve, resolve_axis, Margins, Orientation, Params,
    Visibility,
};
use crate::splitter::{children_sizes, pane_sizes, RATIO_SCALE};

verus! {

/// Key under which the embedding application keeps a callback.
pub type HandlerId = u64;

/// What every widget has: its identity, its visibility and the key of its
/// resize callback, if one is set.
#[derive(Debug, Clone, Copy, PartialEq, Eq, Structural)]
pub struct MemberBase {
    pub id: Id,
    pub visibility: Visibility,
    pub resize_handler: Option<HandlerId>,
}

/// The per-widget part of a control.
pub enum Kind {
    /// A push button; `content` is the size of its label as the native
    /// toolkit measured it.
    Button { label: String, content: (u16, u16), click_handler: Option<HandlerId> },
    /// Children laid out one after another along `orientation`.
    LinearLayout { orientation: Orientation, children: Vec<Control> },
    /// A labelled box around at most one child; `label_size` is the size of
    /// the label as the native toolkit measured it.
    Frame { label: String, label_size: (u16, u16), child: Option<Box<Control>> },
    /// Two panes side by side along `orientation`, divided at `splitter`
    /// millionths of the extent.
    Splitted { orientation: Orientation, splitter: u32, first: Box<Control>, second: Box<Control> },
}

/// A widget that can be placed inside a container, with the children it owns.
/// `coords` is set while the control is attached to a drawn parent.
pub struct Control {
    pub member: MemberBase,
    pub layout_width: Params,
    pub layout_height: Params,
    pub margins: Margins,
    pub measured_size: (u16, u16),
    pub coords: Option<(i32, i32)>,
    pub kind: Kind,
}

pub open spec fn is_gone(c: Control) -> bool {
    c.member.visibility == Visibility::Gone
}

/// Sum of the measured widths of `kids`.
pub open spec fn sum_widths(kids: Seq<Control>) -> int
    decreases kids.len(),
{
    if kids.len() == 0 {
        0
    } else {
        sum_widths(kids.drop_last()) + kids.last().measured_size.0
    }
}

/// Sum of the measured heights of `kids`.
pub open spec fn sum_heights(kids: Seq<Control>) -> int
    decreases kids.len(),
{
    if kids.len() == 0 {
        0
    } else {
        sum_heights(kids.drop_last()) + kids.last().measured_size.1
    }
}

/// Largest measured width among `kids`, zero where there is none.
pub open spec fn max_width(kids: Seq<Control>) -> u16
    decreases kids.len(),
{
    if kids.len() == 0 {
        0
    } else if max_width(kids.drop_last()) >= kids.last().measured_size.0 {
        max_width(kids.drop_last())
    } else {
        kids.last().measured_size.0
    }
}

/// Largest measured height among `kids`, zero where there is none.
pub open spec fn max_height(kids: Seq<Control>) -> u16
    decreases kids.len(),
{
    if kids.len() == 0 {
        0
    } else if max_height(kids.drop_last()) >= kids.last().measured_size.1 {
        max_height(kids.drop_last())
    } else {
        kids.last().measured_size.1
    }
}

/// Size of a linear arrangement of `kids`: summed along the axis, the
/// largest across it.
pub open spec fn linear_content(orientation: Orientation, kids: Seq<Control>) -> (u16, u16) {
    match orientation {
        Orientation::Horizontal => (fit(sum_widths(kids)), max_height(kids)),
        Orientation::Vertical => (max_width(kids), fit(sum_heights(kids))),
    }
}

/// The content size that `WrapContent` gives to `c`, whose children are
/// already measured; `pw` and `ph` is the space the parent offers.
pub open spec fn wrap_size(c: Control, pw: u16, ph: u16) -> (u16, u16) {
    let m = c.margins;
    match c.kind {
        Kind::Button { content, .. } => (
            fit(content.0 + m.left + m.right),
            fit(content.1 + m.top + m.bottom),
        ),
        Kind::LinearLayout { orientation, children } => linear_content(orientation, children@),
        Kind::Frame { label_size, child, .. } => match child {
            Some(ch) => (
                fit(
                    (if label_size.0 >= ch.measured_size.0 {
                        label_size.0
                    } else {
                        ch.measured_size.0
                    }) + m.left + m.right,
                ),
                fit(label_size.1 + ch.measured_size.1 + m.top + m.bottom),
            ),
            None => (fit(label_size.0 + m.left + m.right), fit(label_size.1 + m.top + m.bottom)),
        },
        Kind::Splitted { .. } => (pw, ph),
    }
}

/// The size that measuring gives `c` (children already measured) in the
/// space `(pw, ph)`.
pub open spec fn size_in(c: Control, pw: u16, ph: u16) -> (u16, u16) {
    if is_gone(c) {
        (0, 0)
    } else {
        (
            resolve(c.layout_width, pw, wrap_size(c, pw, ph).0),
            resolve(c.layout_height, ph, wrap_size(c, pw, ph).1),
        )
    }
}

/// The two pane sizes of a splitter of size `size`.
pub open spec fn split_of(c: Control, size: (u16, u16)) -> (u16, u16) {
    match c.kind {
        Kind::Splitted { orientation, splitter, .. } => match orientation {
            Orientation::Horizontal => pane_sizes(size.0, splitter, c.margins.left, c.margins.right),
            Orientation::Vertical => pane_sizes(size.1, splitter, c.margins.top, c.margins.bottom),
        },
        _ => (0, 0),
    }
}

/// The two kinds are the same widget with the same own fields; children may differ.
pub open spec fn same_fields(a: Kind, b: Kind) -> bool {
    match (a, b) {
        (
            Kind::Button { label: l1, content: c1, click_handler: h1 },
            Kind::Button { label: l2, content: c2, click_handler: h2 },
        ) => l1 == l2 && c1 == c2 && h1 == h2,
        (Kind::LinearLayout { orientation: o1, children: k1 }, Kind::LinearLayout { orientation: o2, children: k2 }) =>
            o1 == o2 && k1.len() == k2.len(),
        (
            Kind::Frame { label: l1, label_size: s1, child: c1 },
            Kind::Frame { label: l2, label_size: s2, child: c2 },
        ) => l1 == l2 && s1 == s2 && (c1 is Some <==> c2 is Some),
        (
            Kind::Splitted { orientation: o1, splitter: s1, .. },
            Kind::Splitted { orientation: o2, splitter: s2, .. },
        ) => o1 == o2 && s1 == s2,
        _ => false,
    }
}

/// Everything but sizes and children is kept.
pub open spec fn same_shell(a: Control, b: Control) -> bool {
    &&& b.member == a.member
    &&& b.layout_width == a.layout_width
    &&& b.layout_height == a.layout_height
    &&& b.margins == a.margins
    &&& b.coords == a.coords
    &&& same_fields(a.kind, b.kind)
}

/// `new` is `old` measured in the space `(pw, ph)`: each child is measured in
/// the space its parent leaves it, and then the control itself. A control that
/// is gone takes no space and leaves its children as they were.
pub open spec fn measured(old: Control, new: Control, pw: u16, ph: u16) -> bool
    decreases old,
{
    &&& same_shell(old, new)
    &&& new.measured_size == size_in(new, pw, ph)
    &&& if is_gone(old) {
        new.kind == old.kind
    } else {
        let iw = inner_space(pw, old.margins.left, old.margins.right);
        let ih = inner_space(ph, old.margins.top, old.margins.bottom);
        match (old.kind, new.kind) {
            (Kind::LinearLayout { children: k1, .. }, Kind::LinearLayout { children: k2, .. }) => {
                &&& k2.len() == k1.len()
                &&& forall|i: int|
                    0 <= i < k1.len() ==> measured(#[trigger] k1@[i], k2@[i], iw, ih)
            },
            (Kind::Frame { child: c1, .. }, Kind::Frame { child: c2, .. }) => match (c1, c2) {
                (Some(a), Some(b)) => measured(*a, *b, iw, ih),
                _ => true,
            },
            (
                Kind::Splitted { orientation, first: f1, second: s1, .. },
                Kind::Splitted { first: f2, second: s2, .. },
            ) => {
                let panes = split_of(new, new.measured_size);
                match orientation {
                    Orientation::Horizontal => measured(*f1, *f2, panes.0, ih) && measured(
                        *s1,
                        *s2,
                        panes.1,
                        ih,
                    ),
                    Orientation::Vertical => measured(*f1, *f2, iw, panes.0) && measured(
                        *s1,
                        *s2,
                        iw,
                        panes.1,
                    ),
                }
            },
            _ => true,
        }
    }
}

/// A control that is gone measures to nothing, whatever space its parent
/// offers and whatever its sizing policies.
pub proof fn lemma_gone_measures_zero(old: Control, new: Control, pw: u16, ph: u16)
    requires
        is_gone(old),
        measured(old, new, pw, ph),
    ensures
        new.measured_size == (0u16, 0u16),
{
}

/// An exact policy gives its size on its axis, whatever space the parent
/// offers.
pub proof fn lemma_exact_is_kept(old: Control, new: Control, pw: u16, ph: u16)
    requires
        !is_gone(old),
        measured(old, new, pw, ph),
    ensures
        old.layout_width matches Params::Exact(n) ==> new.measured_size.0 == n,
        old.layout_height matches Params::Exact(n) ==> new.measured_size.1 == n,
{
}

/// A control is well formed when every splitter in it keeps its ratio below
/// the whole.
pub open spec fn wf(c: Control) -> bool
    decreases c,
{
    match c.kind {
        Kind::Button { .. } => true,
        Kind::LinearLayout { children, .. } => forall|i: int|
            0 <= i < children.len() ==> wf(#[trigger] children@[i]),
        Kind::Frame { child, .. } => match child {
            Some(ch) => wf(*ch),
            None => true,
        },
        Kind::Splitted { splitter, first, second, .. } => splitter < RATIO_SCALE && wf(*first)
            && wf(*second),
    }
}

/// Sizes of `kids` along and across a linear arrangement, as `linear_content`.
fn linear_content_of(orientation: Orientation, kids: &Vec<Control>) -> (r: (u16, u16))
    ensures
        r == linear_content(orientation, kids@),
{
    let mut sum_w: u64 = 0;
    let mut sum_h: u64 = 0;
    let mut max_w: u16 = 0;
    let mut max_h: u16 = 0;
    let mut i: usize = 0;
    while i < kids.len()
        invariant
            0 <= i <= kids.len(),
            sum_w as int == fit(sum_widths(kids@.subrange(0, i as int))) as int,
            sum_h as int == fit(sum_heights(kids@.subrange(0, i as int))) as int,
            max_w == max_width(kids@.subrange(0, i as int)),
            max_h == max_height(kids@.subrange(0, i as int)),
        decreases kids.len() - i,
    {
        let s = kids[i].measured_size;
        let ghost pre = kids@.subrange(0, i as int);
        let ghost next = kids@.subrange(0, i as int + 1);
        proof {
            assert(next.drop_last() =~= pre);
            assert(next.last() == kids@[i as int]);
            lemma_sums_nonneg(pre);
        }
        sum_w = fit_size(sum_w + s.0 as u64) as u64;
        sum_h = fit_size(sum_h + s.1 as u64) as u64;
        if s.0 > max_w {
            max_w = s.0;
        }
        if s.1 > max_h {
            max_h = s.1;
        }
        i = i + 1;
    }
    proof {
        assert(kids@.subrange(0, kids@.len() as int) =~= kids@);
    }
    match orientation {
        Orientation::Horizontal => (sum_w as u16, max_h),
        Orientation::Vertical => (max_w, sum_h as u16),
    }
}

pub(crate) proof fn lemma_sums_nonneg(kids: Seq<Control>)
    ensures
        sum_widths(kids) >= 0,
        sum_heights(kids) >= 0,
    decreases kids.len(),
{
    if kids.len() > 0 {
        lemma_sums_nonneg(kids.drop_last());
    }
}

pub(crate) proof fn lemma_wf_children(c: Control)
    requires
        wf(c),
        c.kind is LinearLayout,
    ensures
        forall|j: int|
            0 <= j < c.kind->children@.len() ==> #[trigger] wf(c.kind->children@[j]),
{
    match c.kind {
        Kind::LinearLayout { children, .. } => {
            assert(wf(c) == (forall|i: int| 0 <= i < children.len() ==> #[trigger] wf(children@[i])));
        },
        _ => {},
    }
}

impl Control {
    /// Measures this control, and its children first, in the space
    /// `(parent_width, parent_height)` that its parent offers. Returns the new
    /// size and whether it differs from the size measured before.
    pub fn measure(&mut self, parent_width: u16, parent_height: u16) -> (r: (u16, u16, bool))
        requires
            wf(*old(self)),
        ensures
            measured(*old(self), *final(self), parent_width, parent_height),
            wf(*final(self)),
            r.0 == final(self).measured_size.0,
            r.1 == final(self).measured_size.1,
            r.2 == (final(self).measured_size != old(self).measured_size),
            is_gone(*old(self)) ==> r.0 == 0 && r.1 == 0,
            !is_gone(*old(self)) ==> (old(self).layout_width matches Params::Exact(n) ==> r.0 == n),
            !is_gone(*old(self)) ==> (old(self).layout_height matches Params::Exact(n) ==> r.1
                == n),
        decreases *old(self),
    {
        let pw = parent_width;
        let ph = parent_height;
        let old_size = self.measured_size;
        let ghost old_self = *self;
        if self.member.visibility == Visibility::Gone {
            self.measured_size = (0, 0);
            return (0, 0, old_size.0 != 0 || old_size.1 != 0);
        }
        let m = self.margins;
        let lw = self.layout_width;
        let lh = self.layout_height;
        let iw = inner(pw, m.left, m.right);
        let ih = inner(ph, m.top, m.bottom);
        let size: (u16, u16) = match &mut self.kind {
            Kind::Button { content, .. } => {
                let ww = fit_size(content.0 as u64 + m.left as u64 + m.right as u64);
                let wh = fit_size(content.1 as u64 + m.top as u64 + m.bottom as u64);
                (resolve_axis(lw, pw, ww), resolve_axis(lh, ph, wh))
            },
            Kind::LinearLayout { orientation, children } => {
                let ghost old_kids = children@;
                proof {
                    assert(old_self.kind == Kind::LinearLayout { orientation: *orientation, children: *children });
                    assert(old_kids == old_self.kind->children@);
                    lemma_wf_children(old_self);
                }
                let mut i: usize = 0;
                while i < children.len()
                    invariant
                        0 <= i <= children.len(),
                        children@.len() == old_kids.len(),
                        forall|j: int| 0 <= j < old_kids.len() ==> wf(#[trigger] old_kids[j]),
                        old_self.kind is LinearLayout,
                        old_kids == old_self.kind->children@,
                        old_self == *old(self),
                        forall|j: int| 0 <= j < i ==> #[trigger] measured(old_kids[j], children@[j], iw, ih),
                        forall|j: int| 0 <= j < i ==> wf(#[trigger] children@[j]),
                        forall|j: int| i <= j < old_kids.len() ==> #[trigger] children@[j] == old_kids[j],
                    decreases children.len() - i,
                {
                    proof {
                        assert(children@[i as int] == old_kids[i as int]);
                        let ghost k = old_self.kind;
                        let ghost v = k->children;
                        assert(decreases_to!(old_self => k));
                        assert(decreases_to!(k => v));
                        assert(decreases_to!(v => v@));
                        assert(decreases_to!(v@ => v@[i as int]));
                        assert(decreases_to!(old_self => old_kids[i as int]));
                        assert(decreases_to!(*old(self) => children@[i as int]));
                    }
                    children[i].measure(iw, ih);
                    i = i + 1;
                }
                assert(forall|j: int| 0 <= j < old_kids.len() ==> measured(#[trigger] old_kids[j], children@[j], iw, ih));
                let c = linear_content_of(*orientation, children);
                (resolve_axis(lw, pw, c.0), resolve_axis(lh, ph, c.1))
            },
            Kind::Frame { label_size, child, .. } => {
                let ls = *label_size;
                match child {
                    Some(ch) => {
                        let (cw, chh, _) = ch.measure(iw, ih);
                        let top = if ls.0 >= cw {
                            ls.0
                        } else {
                            cw
                        };
                        let ww = fit_size(top as u64 + m.left as u64 + m.right as u64);
                        let wh = fit_size(
                            ls.1 as u64 + chh as u64 + m.top as u64 + m.bottom as u64,
                        );
                        (resolve_axis(lw, pw, ww), resolve_axis(lh, ph, wh))
                    },
                    None => {
                        let ww = fit_size(ls.0 as u64 + m.left as u64 + m.right as u64);
                        let wh = fit_size(ls.1 as u64 + m.top as u64 + m.bottom as u64);
                        (resolve_axis(lw, pw, ww), resolve_axis(lh, ph, wh))
                    },
                }
            },
            Kind::Splitted { orientation, splitter, first, second } => {
                let w = resolve_axis(lw, pw, pw);
                let h = resolve_axis(lh, ph, ph);
                match orientation {
                    Orientation::Horizontal => {
                        let panes = children_sizes(w, *splitter, m.left, m.right);
                        first.measure(panes.0, ih);
                        second.measure(panes.1, ih);
                    },
                    Orientation::Vertical => {
                        let panes = children_sizes(h, *splitter, m.top, m.bottom);
                        first.measure(iw, panes.0);
                        second.measure(iw, panes.1);
                    },
                }
                (w, h)
            },
        };
        self.measured_size = size;
        assert(same_shell(old_self, *self));
        assert(self.measured_size == size_in(*self, pw, ph));
        assert(wf(*self));
        assert(!is_gone(old_self));
        assert(iw == inner_space(pw, old_self.margins.left, old_self.margins.right));
        assert(measured(old_self, *self, pw, ph));
        (size.0, size.1, size.0 != old_size.0 || size.1 != old_size.1)
    }
}

} // verus!
