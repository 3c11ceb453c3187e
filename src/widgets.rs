use vstd::prelude::*;

use crate::control::{measured, wf, Control, HandlerId, Kind, MemberBase};
use crate::draw::{draw_ops, drawn, Placement};
use crate::ids::{Id, IdRegistry};
use crate::layout::{Margins, Orientation, Params, Visibility};
use crate::splitter::{
    axis_extent, drag_ratio, share, splitter_after_drag, wrap_ratio, wrapped_ratio, RATIO_HALF,
    RATIO_SCALE,
};

verus! {

/// A control as it is made: visible, filling its parent's width and
/// wrapping its content's height, with no margins, unmeasured and unplaced.
pub open spec fn fresh(c: Control, id: Id) -> bool {
    &&& c.member == MemberBase { id, visibility: Visibility::Visible, resize_handler: None }
    &&& c.layout_width == Params::MatchParent
    &&& c.layout_height == Params::WrapContent
    &&& c.margins == Margins { left: 0, top: 0, right: 0, bottom: 0 }
    &&& c.measured_size == (0u16, 0u16)
    &&& c.coords is None
}

/// Everything of `a` but the per-widget part is kept in `b`.
pub open spec fn same_base(a: Control, b: Control) -> bool {
    &&& b.member == a.member
    &&& b.layout_width == a.layout_width
    &&& b.layout_height == a.layout_height
    &&& b.margins == a.margins
    &&& b.measured_size == a.measured_size
    &&& b.coords == a.coords
}

fn base(id: Id, kind: Kind) -> (r: Control)
    ensures
        fresh(r, id),
        r.kind == kind,
{
    Control {
        member: MemberBase { id, visibility: Visibility::Visible, resize_handler: None },
        layout_width: Params::MatchParent,
        layout_height: Params::WrapContent,
        margins: Margins::zero(),
        measured_size: (0, 0),
        coords: None,
        kind,
    }
}

impl Control {
    /// A button labelled `label`.
    pub fn new_button(ids: &mut IdRegistry, label: String) -> (r: Control)
        requires
            old(ids).upcoming() < usize::MAX,
        ensures
            fresh(r, r.member.id),
            r.member.id as nat == old(ids).upcoming(),
            final(ids).upcoming() == old(ids).upcoming() + 1,
            r.kind matches Kind::Button { label: l, content, click_handler } && l@ == label@
                && content == (0u16, 0u16) && click_handler is None,
            wf(r),
    {
        let id = ids.next();
        base(id, Kind::Button { label, content: (0, 0), click_handler: None })
    }

    /// An empty linear layout along `orientation`.
    pub fn new_linear_layout(ids: &mut IdRegistry, orientation: Orientation) -> (r: Control)
        requires
            old(ids).upcoming() < usize::MAX,
        ensures
            fresh(r, r.member.id),
            r.member.id as nat == old(ids).upcoming(),
            final(ids).upcoming() == old(ids).upcoming() + 1,
            r.kind matches Kind::LinearLayout { orientation: o, children } && o == orientation
                && children@.len() == 0,
            wf(r),
    {
        let id = ids.next();
        base(id, Kind::LinearLayout { orientation, children: Vec::new() })
    }

    /// An empty frame labelled `label`.
    pub fn new_frame(ids: &mut IdRegistry, label: String) -> (r: Control)
        requires
            old(ids).upcoming() < usize::MAX,
        ensures
            fresh(r, r.member.id),
            r.member.id as nat == old(ids).upcoming(),
            final(ids).upcoming() == old(ids).upcoming() + 1,
            r.kind matches Kind::Frame { label: l, label_size, child } && l@ == label@
                && label_size == (0u16, 0u16) && child is None,
            wf(r),
    {
        let id = ids.next();
        base(id, Kind::Frame { label, label_size: (0, 0), child: None })
    }

    /// A splitter along `orientation` with `first` and `second` as its panes,
    /// divided in the middle.
    pub fn new_splitted(ids: &mut IdRegistry, first: Control, second: Control, orientation: Orientation) -> (r: Control)
        requires
            old(ids).upcoming() < usize::MAX,
            wf(first),
            wf(second),
        ensures
            fresh(r, r.member.id),
            r.member.id as nat == old(ids).upcoming(),
            final(ids).upcoming() == old(ids).upcoming() + 1,
            r.kind matches Kind::Splitted { orientation: o, splitter, first: f, second: s } && o
                == orientation && splitter == RATIO_HALF && *f == first && *s == second,
            wf(r),
    {
        let id = ids.next();
        base(
            id,
            Kind::Splitted {
                orientation,
                splitter: RATIO_HALF,
                first: Box::new(first),
                second: Box::new(second),
            },
        )
    }

    pub fn id(&self) -> (r: Id)
        ensures
            r == self.member.id,
    {
        self.member.id
    }

    /// The size of the last measure pass.
    pub fn size(&self) -> (r: (u16, u16))
        ensures
            r == self.measured_size,
    {
        self.measured_size
    }

    pub fn visibility(&self) -> (r: Visibility)
        ensures
            r == self.member.visibility,
    {
        self.member.visibility
    }

    /// Sets the visibility; it takes effect at the next measure pass, which
    /// `Window::invalidate` runs for a control in a window.
    pub fn set_visibility(&mut self, visibility: Visibility)
        requires
            wf(*old(self)),
        ensures
            wf(*final(self)),
            final(self).member.visibility == visibility,
            final(self).member.id == old(self).member.id,
            final(self).member.resize_handler == old(self).member.resize_handler,
            final(self).kind == old(self).kind,
            final(self).layout_width == old(self).layout_width,
            final(self).layout_height == old(self).layout_height,
            final(self).margins == old(self).margins,
            final(self).measured_size == old(self).measured_size,
            final(self).coords == old(self).coords,
    {
        self.member.visibility = visibility;
    }

    /// Replaces the resize callback; at most one is kept.
    pub fn on_resize(&mut self, handler: Option<HandlerId>)
        requires
            wf(*old(self)),
        ensures
            wf(*final(self)),
            final(self).member.resize_handler == handler,
            final(self).member.id == old(self).member.id,
            final(self).member.visibility == old(self).member.visibility,
            final(self).kind == old(self).kind,
            final(self).layout_width == old(self).layout_width,
            final(self).layout_height == old(self).layout_height,
            final(self).margins == old(self).margins,
            final(self).measured_size == old(self).measured_size,
            final(self).coords == old(self).coords,
    {
        self.member.resize_handler = handler;
    }

    /// Handles the native toolkit's report that it gave this control its
    /// space: the resize callback to run and the measured size to hand it,
    /// where a callback is set.
    pub fn on_size_allocate(&self) -> (r: Option<(HandlerId, u16, u16)>)
        ensures
            self.member.resize_handler is None ==> r is None,
            self.member.resize_handler matches Some(h) ==> r == Some(
                (h, self.measured_size.0, self.measured_size.1),
            ),
    {
        match self.member.resize_handler {
            Some(h) => Some((h, self.measured_size.0, self.measured_size.1)),
            None => None,
        }
    }

    pub fn layout_width(&self) -> (r: Params)
        ensures
            r == self.layout_width,
    {
        self.layout_width
    }

    pub fn layout_height(&self) -> (r: Params)
        ensures
            r == self.layout_height,
    {
        self.layout_height
    }

    pub fn margins(&self) -> (r: Margins)
        ensures
            r == self.margins,
    {
        self.margins
    }

    /// Sets the sizing policies of both axes; they take effect at the next
    /// measure pass.
    pub fn set_layout_params(&mut self, width: Params, height: Params)
        requires
            wf(*old(self)),
        ensures
            wf(*final(self)),
            final(self).layout_width == width,
            final(self).layout_height == height,
            final(self).member == old(self).member,
            final(self).kind == old(self).kind,
            final(self).margins == old(self).margins,
            final(self).measured_size == old(self).measured_size,
            final(self).coords == old(self).coords,
    {
        self.layout_width = width;
        self.layout_height = height;
    }

    /// Sets the margins; they take effect at the next measure pass.
    pub fn set_margins(&mut self, margins: Margins)
        requires
            wf(*old(self)),
        ensures
            wf(*final(self)),
            final(self).margins == margins,
            final(self).member == old(self).member,
            final(self).kind == old(self).kind,
            final(self).layout_width == old(self).layout_width,
            final(self).layout_height == old(self).layout_height,
            final(self).measured_size == old(self).measured_size,
            final(self).coords == old(self).coords,
    {
        self.margins = margins;
    }

    /// Whether this control holds children.
    pub fn is_container(&self) -> (r: bool)
        ensures
            r == !(self.kind is Button),
    {
        match &self.kind {
            Kind::Button { .. } => false,
            _ => true,
        }
    }

    /// Measures this control in `(parent_width, parent_height)` and draws it at
    /// `(x, y)`, with its children: the first pass after it is placed in a
    /// container. Returns what the native toolkit is to apply.
    pub fn on_added_to_container(&mut self, x: i32, y: i32, parent_width: u16, parent_height: u16) -> (r: Vec<Placement>)
        requires
            wf(*old(self)),
            old(self).coords is None,
        ensures
            wf(*final(self)),
            exists|m: Control|
                #[trigger] measured(*old(self), m, parent_width, parent_height) && drawn(m, *final(self), Some((x, y)))
                    && r@ == draw_ops(m, Some((x, y))),
    {
        self.measure(parent_width, parent_height);
        let ghost m = *self;
        let ops = self.draw(Some((x, y)));
        assert(measured(*old(self), m, parent_width, parent_height));
        ops
    }
}

/// `b` is the splitter `a` with its ratio set to `ratio`.
pub open spec fn with_ratio(a: Control, b: Control, ratio: u32) -> bool {
    &&& same_base(a, b)
    &&& b.kind == Kind::Splitted {
        orientation: a.kind->Splitted_orientation,
        splitter: ratio,
        first: a.kind->Splitted_first,
        second: a.kind->Splitted_second,
    }
}

/// The label of a button or frame; empty for other controls.
pub open spec fn label_of(c: Control) -> Seq<char> {
    match c.kind {
        Kind::Button { label, .. } => label@,
        Kind::Frame { label, .. } => label@,
        _ => Seq::empty(),
    }
}

impl Control {
    /// The label of a button or frame; empty for other controls.
    pub fn label(&self) -> (r: &str)
        ensures
            r@ == label_of(*self),
    {
        match &self.kind {
            Kind::Button { label, .. } => label.as_str(),
            Kind::Frame { label, .. } => label.as_str(),
            _ => {
                proof {
                    reveal_strlit("");
                }
                ""
            },
        }
    }

    /// Sets the label of a button or frame, with the size `content` that the
    /// native toolkit measured for it.
    pub fn set_label(&mut self, label: String, content: (u16, u16))
        requires
            wf(*old(self)),
            old(self).kind is Button || old(self).kind is Frame,
        ensures
            wf(*final(self)),
            same_base(*old(self), *final(self)),
            label_of(*final(self)) == label@,
            old(self).kind matches Kind::Button { click_handler, .. } ==> final(self).kind
                matches Kind::Button { content: c, click_handler: h, .. } && c == content && h
                == click_handler,
            old(self).kind matches Kind::Frame { child, .. } ==> final(self).kind matches Kind::Frame {
                label_size,
                child: ch,
                ..
            } && label_size == content && ch == child,
    {
        match &mut self.kind {
            Kind::Button { label: l, content: c, .. } => {
                *l = label;
                *c = content;
            },
            Kind::Frame { label: l, label_size, .. } => {
                *l = label;
                *label_size = content;
            },
            _ => {},
        }
    }

    /// Sets the click callback of a button; at most one is kept.
    pub fn on_click(&mut self, handler: Option<HandlerId>)
        requires
            wf(*old(self)),
            old(self).kind is Button,
        ensures
            wf(*final(self)),
            same_base(*old(self), *final(self)),
            final(self).kind matches Kind::Button { label, content, click_handler } && label
                == old(self).kind->Button_label && content == old(self).kind->Button_content
                && click_handler == handler,
    {
        match &mut self.kind {
            Kind::Button { click_handler, .. } => {
                *click_handler = handler;
            },
            _ => {},
        }
    }

    /// The click callback of a button, if one is set.
    pub fn click_handler(&self) -> (r: Option<HandlerId>)
        ensures
            self.kind matches Kind::Button { click_handler, .. } ==> r == click_handler,
            !(self.kind is Button) ==> r is None,
    {
        match &self.kind {
            Kind::Button { click_handler, .. } => *click_handler,
            _ => None,
        }
    }

    /// The axis of a linear layout or splitter.
    pub fn layout_orientation(&self) -> (r: Option<Orientation>)
        ensures
            self.kind matches Kind::LinearLayout { orientation, .. } ==> r == Some(orientation),
            self.kind matches Kind::Splitted { orientation, .. } ==> r == Some(orientation),
            (self.kind is Button || self.kind is Frame) ==> r is None,
    {
        match &self.kind {
            Kind::LinearLayout { orientation, .. } => Some(*orientation),
            Kind::Splitted { orientation, .. } => Some(*orientation),
            _ => None,
        }
    }

    /// Sets the axis of a linear layout or splitter; it takes effect at the
    /// next measure pass.
    pub fn set_layout_orientation(&mut self, orientation: Orientation)
        requires
            wf(*old(self)),
            old(self).kind is LinearLayout || old(self).kind is Splitted,
        ensures
            wf(*final(self)),
            same_base(*old(self), *final(self)),
            old(self).kind matches Kind::LinearLayout { children, .. } ==> final(self).kind
                == (Kind::LinearLayout { orientation, children }),
            old(self).kind matches Kind::Splitted { splitter, first, second, .. } ==> final(self).kind
                == (Kind::Splitted { orientation, splitter, first, second }),
    {
        match &mut self.kind {
            Kind::LinearLayout { orientation: o, .. } => {
                *o = orientation;
            },
            Kind::Splitted { orientation: o, .. } => {
                *o = orientation;
            },
            _ => {},
        }
    }

    /// The ratio of a splitter, in millionths; zero for other controls.
    pub fn splitter(&self) -> (r: u32)
        ensures
            self.kind matches Kind::Splitted { splitter, .. } ==> r == splitter,
            !(self.kind is Splitted) ==> r == 0,
    {
        match &self.kind {
            Kind::Splitted { splitter, .. } => *splitter,
            _ => 0,
        }
    }

    /// Sets the ratio of a splitter to `pos` millionths, taken modulo the
    /// whole so that it stays below it.
    pub fn set_splitter(&mut self, pos: u32)
        requires
            wf(*old(self)),
            old(self).kind is Splitted,
        ensures
            wf(*final(self)),
            with_ratio(*old(self), *final(self), wrapped_ratio(pos)),
            final(self).kind->Splitted_splitter < RATIO_SCALE,
    {
        let r = wrap_ratio(pos);
        match &mut self.kind {
            Kind::Splitted { splitter, .. } => {
                *splitter = r;
            },
            _ => {},
        }
    }

    /// Where the native handle of a splitter goes: its ratio of the measured
    /// extent along its axis; zero for other controls.
    pub fn handle_position(&self) -> (r: u16)
        requires
            wf(*self),
        ensures
            self.kind matches Kind::Splitted { orientation, splitter, .. } ==> r == share(
                axis_extent(orientation, self.measured_size),
                splitter as int,
            ),
            !(self.kind is Splitted) ==> r == 0,
    {
        match &self.kind {
            Kind::Splitted { orientation, splitter, .. } => {
                let e = match orientation {
                    Orientation::Horizontal => self.measured_size.0,
                    Orientation::Vertical => self.measured_size.1,
                };
                proof {
                    crate::splitter::lemma_share_bounded(e, *splitter as int);
                }
                (e as u64 * *splitter as u64 / RATIO_SCALE as u64) as u16
            },
            _ => 0,
        }
    }

    /// The first pane of a splitter.
    pub fn first(&self) -> (r: Option<&Control>)
        ensures
            self.kind matches Kind::Splitted { first, .. } ==> r matches Some(f) && *f == *first,
            !(self.kind is Splitted) ==> r is None,
    {
        match &self.kind {
            Kind::Splitted { first, .. } => Some(&**first),
            _ => None,
        }
    }

    /// The second pane of a splitter.
    pub fn second(&self) -> (r: Option<&Control>)
        ensures
            self.kind matches Kind::Splitted { second, .. } ==> r matches Some(s) && *s == *second,
            !(self.kind is Splitted) ==> r is None,
    {
        match &self.kind {
            Kind::Splitted { second, .. } => Some(&**second),
            _ => None,
        }
    }

    /// Handles a move of a splitter's native handle to `position`: where it
    /// changes the ratio (see `drag_ratio`), the new ratio is kept and the
    /// splitter measured in its own size and drawn again, and what the native
    /// toolkit is to apply is returned; otherwise nothing changes.
    pub fn on_splitter_moved(&mut self, position: i32) -> (r: Vec<Placement>)
        requires
            wf(*old(self)),
            old(self).kind is Splitted,
        ensures
            wf(*final(self)),
            ({
                let o = *old(self);
                let d = drag_ratio(
                    o.kind->Splitted_splitter,
                    position,
                    axis_extent(o.kind->Splitted_orientation, o.measured_size),
                );
                &&& d is None ==> *final(self) == o && r@.len() == 0
                &&& d matches Some(n) ==> exists|s: Control, m: Control|
                    with_ratio(o, s, n) && #[trigger] measured(s, m, o.measured_size.0, o.measured_size.1)
                        && drawn(m, *final(self), None) && r@ == draw_ops(m, None)
            }),
    {
        let size = self.measured_size;
        let (current, extent) = match &self.kind {
            Kind::Splitted { orientation, splitter, .. } => (
                *splitter,
                match orientation {
                    Orientation::Horizontal => size.0,
                    Orientation::Vertical => size.1,
                },
            ),
            _ => (0, 0),
        };
        match splitter_after_drag(current, position, extent) {
            None => Vec::new(),
            Some(n) => {
                match &mut self.kind {
                    Kind::Splitted { splitter, .. } => {
                        *splitter = n;
                    },
                    _ => {},
                }
                let ghost s = *self;
                self.measure(size.0, size.1);
                let ghost m = *self;
                let ops = self.draw(None);
                assert(measured(s, m, size.0, size.1));
                ops
            },
        }
    }
}

} // verus!
