use vstd::prelude::*;

use crate::container::ChildSwap;
use crate::control::{wf, Control, HandlerId, MemberBase};
use crate::detach::{detach_order, detached};
use crate::draw::{lay_out_at_origin, laid_out, lemma_laid_out, Placement};
use crate::lookup::{find_in, parent_in, replaced};
use crate::ids::{Id, IdRegistry};
use crate::layout::Visibility;
use crate::utils::{coord_to_size, coord_to_size_spec};

verus! {

/// The size a window starts with.
#[derive(Debug, Clone, Copy, PartialEq, Eq, Structural)]
pub enum WindowStartSize {
    Exact(u16, u16),
    Fullscreen,
}

/// A top-level window: the root of a widget tree, holding at most one child.
pub struct Window {
    pub member: MemberBase,
    pub title: String,
    pub size: (u16, u16),
    pub child: Option<Box<Control>>,
}

/// The first control with identifier `id` in the tree under `w`: its child,
/// then what lies inside the child.
pub open spec fn find_in_window(w: Window, id: Id) -> Option<Control> {
    match w.child {
        Some(ch) => if ch.member.id == id {
            Some(*ch)
        } else {
            find_in(*ch, id)
        },
        None => None,
    }
}

/// `new` is the window `old` with the control that `find_in_window(old, id)`
/// finds replaced by `x`, and nothing else changed.
pub open spec fn window_replaced(old: Window, new: Window, id: Id, x: Control) -> bool {
    &&& new.member == old.member
    &&& new.title == old.title
    &&& new.size == old.size
    &&& match (old.child, new.child) {
        (Some(a), Some(b)) => if a.member.id == id {
            *b == x
        } else {
            replaced(*a, *b, id, x)
        },
        _ => false,
    }
}

/// `new` is `old` with its child measured in the window's space and drawn at
/// the window's origin, and `ops` what that hands the native toolkit.
pub open spec fn redrawn(old: Window, new: Window, ops: Seq<Placement>) -> bool {
    &&& new.member == old.member
    &&& new.title == old.title
    &&& new.size == old.size
    &&& match old.child {
        None => new.child is None && ops.len() == 0,
        Some(o) => new.child matches Some(n) && laid_out(*o, *n, old.size, ops),
    }
}

pub open spec fn window_wf(w: Window) -> bool {
    w.child matches Some(c) ==> wf(*c)
}

impl Window {
    /// Makes a window titled `title`; `screen` is the size of the screen, which
    /// a full-screen window takes.
    pub fn new(ids: &mut IdRegistry, title: String, start_size: WindowStartSize, screen: (u16, u16)) -> (r: Window)
        requires
            old(ids).upcoming() < usize::MAX,
        ensures
            r.member.id as nat == old(ids).upcoming(),
            final(ids).upcoming() == old(ids).upcoming() + 1,
            r.member.visibility == Visibility::Visible,
            r.member.resize_handler is None,
            r.title@ == title@,
            r.child is None,
            start_size matches WindowStartSize::Exact(w, h) ==> r.size == (w, h),
            start_size is Fullscreen ==> r.size == screen,
            window_wf(r),
    {
        let id = ids.next();
        let size = match start_size {
            WindowStartSize::Exact(w, h) => (w, h),
            WindowStartSize::Fullscreen => screen,
        };
        Window {
            member: MemberBase { id, visibility: Visibility::Visible, resize_handler: None },
            title,
            size,
            child: None,
        }
    }

    pub fn id(&self) -> (r: Id)
        ensures
            r == self.member.id,
    {
        self.member.id
    }

    pub fn size(&self) -> (r: (u16, u16))
        ensures
            r == self.size,
    {
        self.size
    }

    pub fn label(&self) -> (r: &str)
        ensures
            r@ == self.title@,
    {
        self.title.as_str()
    }

    pub fn set_label(&mut self, title: String)
        ensures
            final(self).title@ == title@,
            final(self).member == old(self).member,
            final(self).size == old(self).size,
            final(self).child == old(self).child,
    {
        self.title = title;
    }

    pub fn set_visibility(&mut self, visibility: Visibility)
        ensures
            final(self).member.visibility == visibility,
            final(self).member.id == old(self).member.id,
            final(self).member.resize_handler == old(self).member.resize_handler,
            final(self).title == old(self).title,
            final(self).size == old(self).size,
            final(self).child == old(self).child,
    {
        self.member.visibility = visibility;
    }

    /// Replaces the resize callback; at most one is kept.
    pub fn on_resize(&mut self, handler: Option<HandlerId>)
        ensures
            final(self).member.resize_handler == handler,
            final(self).member.id == old(self).member.id,
            final(self).member.visibility == old(self).member.visibility,
            final(self).title == old(self).title,
            final(self).size == old(self).size,
            final(self).child == old(self).child,
    {
        self.member.resize_handler = handler;
    }

    /// The child of the window.
    pub fn child(&self) -> (r: Option<&Control>)
        ensures
            r is Some <==> self.child is Some,
            r is Some ==> *r->0 == *self.child->0,
    {
        match &self.child {
            Some(c) => Some(&**c),
            None => None,
        }
    }

    /// Puts `child` into the window in place of the child it had. The old
    /// child is detached and returned with the order in which its native
    /// handles are to be released; the new one is attached at the window's
    /// origin in the window's space, and what that hands the native toolkit is
    /// returned too.
    pub fn set_child(&mut self, child: Option<Control>) -> (r: ChildSwap)
        requires
            window_wf(*old(self)),
            child matches Some(c) ==> wf(c) && c.coords is None,
        ensures
            window_wf(*final(self)),
            final(self).member == old(self).member,
            final(self).title == old(self).title,
            final(self).size == old(self).size,
            child is None ==> final(self).child is None && r.placements@.len() == 0,
            child matches Some(c) ==> final(self).child matches Some(n) && laid_out(
                c,
                *n,
                old(self).size,
                r.placements@,
            ),
            old(self).child is None ==> r.old is None && r.released@.len() == 0,
            old(self).child matches Some(o) ==> r.old matches Some(x) && detached(*o, x)
                && r.released@ == detach_order(*o),
    {
        let mut released: Vec<Id> = Vec::new();
        let old_child = match self.child.take() {
            Some(b) => {
                let mut o = *b;
                released = o.on_removed_from_container();
                Some(o)
            },
            None => None,
        };
        let mut placements: Vec<Placement> = Vec::new();
        match child {
            Some(c) => {
                let ghost c0 = c;
                let mut c = c;
                let (ops, mid) = lay_out_at_origin(&mut c, self.size.0, self.size.1);
                proof {
                    lemma_laid_out(c0, mid@, c, self.size.0, self.size.1, ops@);
                }
                placements = ops;
                self.child = Some(Box::new(c));
            },
            None => {},
        }
        ChildSwap { old: old_child, released, placements }
    }

    /// Measures the child in the window's space and draws it at the window's
    /// origin; returns what the native toolkit is to apply.
    pub fn redraw(&mut self) -> (r: Vec<Placement>)
        requires
            window_wf(*old(self)),
        ensures
            window_wf(*final(self)),
            redrawn(*old(self), *final(self), r@),
    {
        match &mut self.child {
            Some(c) => {
                let ghost c0 = **c;
                let (ops, mid) = lay_out_at_origin(&mut **c, self.size.0, self.size.1);
                proof {
                    lemma_laid_out(c0, mid@, **c, self.size.0, self.size.1, ops@);
                }
                ops
            },
            None => Vec::new(),
        }
    }

    /// Re-measures and redraws the control with identifier `id` and the
    /// ancestors whose size depends on it: the tree is measured again from the
    /// window down, which is how a change of content, layout or visibility
    /// takes effect. Returns what the native toolkit is to apply; `None`, with
    /// nothing changed, where the window holds no such control.
    pub fn invalidate(&mut self, id: Id) -> (r: Option<Vec<Placement>>)
        requires
            window_wf(*old(self)),
        ensures
            window_wf(*final(self)),
            find_in_window(*old(self), id) is None ==> r is None && *final(self) == *old(self),
            find_in_window(*old(self), id) is Some ==> (r matches Some(ops) && redrawn(
                *old(self),
                *final(self),
                ops@,
            )),
    {
        if self.find_control_by_id(id).is_none() {
            return None;
        }
        Some(self.redraw())
    }

    /// The resize callback to run and the size to hand it, where one is set.
    pub fn on_size_allocate(&self) -> (r: Option<(HandlerId, u16, u16)>)
        ensures
            self.member.resize_handler is None ==> r is None,
            self.member.resize_handler matches Some(h) ==> r == Some((h, self.size.0, self.size.1)),
    {
        match self.member.resize_handler {
            Some(h) => Some((h, self.size.0, self.size.1)),
            None => None,
        }
    }

    /// Handles a resize of the native window to `(width, height)`: where the
    /// size changed it is kept (negative values taken as zero), the tree is
    /// measured and drawn anew in it, and what the toolkit is to apply is
    /// returned with the resize callback to run once and the new size to hand
    /// it; where nothing changed, `None`.
    pub fn on_resize_move(&mut self, width: i32, height: i32) -> (r: Option<(Vec<Placement>, Option<(HandlerId, u16, u16)>)>)
        requires
            window_wf(*old(self)),
        ensures
            window_wf(*final(self)),
            (coord_to_size_spec(width), coord_to_size_spec(height)) == old(self).size ==> r is None
                && *final(self) == *old(self),
            (coord_to_size_spec(width), coord_to_size_spec(height)) != old(self).size ==> {
                let size = (coord_to_size_spec(width), coord_to_size_spec(height));
                &&& r matches Some((ops, cb)) && redrawn(
                    Window { size, ..*old(self) },
                    *final(self),
                    ops@,
                ) && cb == match old(self).member.resize_handler {
                    Some(h) => Some((h, size.0, size.1)),
                    None => None,
                }
            },
    {
        let w = coord_to_size(width);
        let h = coord_to_size(height);
        if w == self.size.0 && h == self.size.1 {
            return None;
        }
        self.size = (w, h);
        let ops = self.redraw();
        Some((ops, self.on_size_allocate()))
    }

    /// The identifier of the member that holds the control with identifier
    /// `id` in the tree under the window: the window itself for its child.
    pub fn parent_of(&self, id: Id) -> (r: Option<Id>)
        ensures
            r == match self.child {
                Some(c) => if c.member.id == id {
                    Some(self.member.id)
                } else {
                    parent_in(*c, id)
                },
                None => None,
            },
    {
        match &self.child {
            Some(c) => if c.member.id == id {
                Some(self.member.id)
            } else {
                c.parent_of(id)
            },
            None => None,
        }
    }

    /// Finds the control with identifier `id` in the tree under the window,
    /// for change: whatever the caller makes of it takes its place.
    pub fn find_control_by_id_mut(&mut self, id: Id) -> (r: Option<&mut Control>)
        ensures
            r is Some <==> find_in_window(*old(self), id) is Some,
            r matches Some(x) ==> *x == find_in_window(*old(self), id)->0,
            r matches Some(x) ==> window_replaced(*old(self), *final(self), id, *final(x)),
            r is None ==> *final(self) == *old(self),
    {
        match &mut self.child {
            Some(c) => if c.member.id == id {
                Some(&mut **c)
            } else {
                c.find_control_by_id_mut(id)
            },
            None => None,
        }
    }

    /// Finds the control with identifier `id` in the tree under the window:
    /// its child, then what lies inside the child.
    pub fn find_control_by_id(&self, id: Id) -> (r: Option<&Control>)
        ensures
            r is Some <==> find_in_window(*self, id) is Some,
            r is Some ==> *r->0 == find_in_window(*self, id)->0,
    {
        match &self.child {
            Some(c) => if c.member.id == id {
                Some(&**c)
            } else {
                c.find_control_by_id(id)
            },
            None => None,
        }
    }
}

} // verus!
