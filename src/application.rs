use vstd::prelude::*;

use crate::control::MemberBase;
use crate::ids::{Id, IdRegistry};
use crate::window::{find_in_window, window_wf, Window, WindowStartSize};

verus! {

/// The application: its name and its open windows, in the order they were
/// opened.
pub struct Application {
    pub name: String,
    pub windows: Vec<Window>,
}

/// Where in the windows `ws` the member with identifier `id` is: the first
/// window that is that member or holds it.
pub open spec fn find_member(ws: Seq<Window>, id: Id) -> Option<MemberBase>
    decreases ws.len(),
{
    if ws.len() == 0 {
        None
    } else if ws[0].member.id == id {
        Some(ws[0].member)
    } else if find_in_window(ws[0], id) is Some {
        Some(find_in_window(ws[0], id)->0.member)
    } else {
        find_member(ws.subrange(1, ws.len() as int), id)
    }
}

/// Index of the first window with identifier `id`, if any.
pub open spec fn window_index(ws: Seq<Window>, id: Id) -> Option<int> {
    if exists|i: int| 0 <= i < ws.len() && ws[i].member.id == id {
        Some(choose|i: int| 0 <= i < ws.len() && ws[i].member.id == id && forall|j: int| 0 <= j < i ==> ws[j].member.id != id)
    } else {
        None
    }
}

/// The identifier of the first window among `ws` whose tree holds the
/// control with identifier `id`.
pub open spec fn root_in(ws: Seq<Window>, id: Id) -> Option<Id>
    decreases ws.len(),
{
    if ws.len() == 0 {
        None
    } else if find_in_window(ws[0], id) is Some {
        Some(ws[0].member.id)
    } else {
        root_in(ws.subrange(1, ws.len() as int), id)
    }
}

impl Application {
    pub fn with_name(name: String) -> (r: Application)
        ensures
            r.name@ == name@,
            r.windows@.len() == 0,
    {
        Application { name, windows: Vec::new() }
    }

    pub fn name(&self) -> (r: &str)
        ensures
            r@ == self.name@,
    {
        self.name.as_str()
    }

    /// Opens a new window and returns its identifier.
    pub fn new_window(&mut self, ids: &mut IdRegistry, title: String, size: WindowStartSize, screen: (u16, u16)) -> (r: Id)
        requires
            old(ids).upcoming() < usize::MAX,
        ensures
            r as nat == old(ids).upcoming(),
            final(ids).upcoming() == old(ids).upcoming() + 1,
            final(self).name == old(self).name,
            final(self).windows@.len() == old(self).windows@.len() + 1,
            final(self).windows@.drop_last() == old(self).windows@,
            final(self).windows@.last().member.id == r,
            final(self).windows@.last().title@ == title@,
            final(self).windows@.last().child is None,
            window_wf(final(self).windows@.last()),
    {
        let w = Window::new(ids, title, size, screen);
        let id = w.member.id;
        self.windows.push(w);
        proof {
            assert(self.windows@.drop_last() =~= old(self).windows@);
        }
        id
    }

    /// Handles the closing of the window with identifier `id`: it is dropped
    /// from the open windows. Returns whether no window is left open, which
    /// ends the event loop.
    pub fn close_window(&mut self, id: Id) -> (r: bool)
        ensures
            final(self).name == old(self).name,
            window_index(old(self).windows@, id) is None ==> final(self).windows@ == old(self).windows@,
            window_index(old(self).windows@, id) matches Some(i) ==> final(self).windows@ == old(self).windows@.remove(i),
            r == (final(self).windows@.len() == 0),
    {
        let mut i: usize = 0;
        while i < self.windows.len()
            invariant
                0 <= i <= self.windows.len(),
                self.windows@ == old(self).windows@,
                self.name == old(self).name,
                forall|j: int| 0 <= j < i ==> old(self).windows@[j].member.id != id,
            decreases self.windows.len() - i,
        {
            if self.windows[i].member.id == id {
                let ghost ws = self.windows@;
                proof {
                    let k = choose|k: int| 0 <= k < ws.len() && ws[k].member.id == id && forall|j: int| 0 <= j < k ==> ws[j].member.id != id;
                    assert(0 <= i < ws.len() && ws[i as int].member.id == id && forall|j: int| 0 <= j < i ==> ws[j].member.id != id);
                    assert(k == i);
                }
                self.windows.remove(i);
                return self.windows.len() == 0;
            }
            i = i + 1;
        }
        self.windows.len() == 0
    }

    /// Finds the member with identifier `id`: a window, or a control in one.
    pub fn find_member_by_id(&self, id: Id) -> (r: Option<&MemberBase>)
        ensures
            r is Some <==> find_member(self.windows@, id) is Some,
            r is Some ==> *r->0 == find_member(self.windows@, id)->0,
    {
        let mut i: usize = 0;
        proof {
            assert(self.windows@.subrange(0, self.windows@.len() as int) =~= self.windows@);
        }
        while i < self.windows.len()
            invariant
                0 <= i <= self.windows.len(),
                find_member(self.windows@, id) == find_member(self.windows@.subrange(i as int, self.windows@.len() as int), id),
            decreases self.windows.len() - i,
        {
            let ghost t = self.windows@.subrange(i as int, self.windows@.len() as int);
            proof {
                assert(t[0] == self.windows@[i as int]);
                assert(t.subrange(1, t.len() as int) =~= self.windows@.subrange(i + 1, self.windows@.len() as int));
            }
            let w = &self.windows[i];
            if w.member.id == id {
                return Some(&w.member);
            }
            match w.find_control_by_id(id) {
                Some(c) => {
                    return Some(&c.member);
                },
                None => {},
            }
            i = i + 1;
        }
        None
    }

    /// The identifier of the window whose tree holds the control with
    /// identifier `id`: the control's root.
    pub fn root_of(&self, id: Id) -> (r: Option<Id>)
        ensures
            r == root_in(self.windows@, id),
    {
        let mut i: usize = 0;
        proof {
            assert(self.windows@.subrange(0, self.windows@.len() as int) =~= self.windows@);
        }
        while i < self.windows.len()
            invariant
                0 <= i <= self.windows.len(),
                root_in(self.windows@, id) == root_in(self.windows@.subrange(i as int, self.windows@.len() as int), id),
            decreases self.windows.len() - i,
        {
            let ghost t = self.windows@.subrange(i as int, self.windows@.len() as int);
            proof {
                assert(t[0] == self.windows@[i as int]);
                assert(t.subrange(1, t.len() as int) =~= self.windows@.subrange(i + 1, self.windows@.len() as int));
            }
            if self.windows[i].find_control_by_id(id).is_some() {
                return Some(self.windows[i].member.id);
            }
            i = i + 1;
        }
        None
    }
}

} // verus!
