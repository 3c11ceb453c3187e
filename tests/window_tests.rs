use plygui::application::Application;
use plygui::bridge::Bridge;
use plygui::control::Control;
use plygui::ids::IdRegistry;
use plygui::layout::{Orientation, Params};
use plygui::window::{Window, WindowStartSize};

#[test]
fn window_start_size() {
    let mut ids = IdRegistry::new();
    let w = Window::new(&mut ids, String::from("t"), WindowStartSize::Exact(640, 480), (1920, 1080));
    assert_eq!(w.size(), (640, 480));
    assert_eq!(w.label(), "t");
    let f = Window::new(&mut ids, String::from("f"), WindowStartSize::Fullscreen, (1920, 1080));
    assert_eq!(f.size(), (1920, 1080));
    assert_ne!(w.id(), f.id());
}

#[test]
fn window_resize_redraws_tree() {
    let mut ids = IdRegistry::new();
    let mut w = Window::new(&mut ids, String::from("t"), WindowStartSize::Exact(640, 480), (0, 0));
    let mut l = Control::new_linear_layout(&mut ids, Orientation::Vertical);
    l.set_layout_params(Params::MatchParent, Params::MatchParent);
    let lid = l.id();
    let swap = w.set_child(Some(l));
    assert!(swap.old.is_none());
    assert_eq!(swap.placements.len(), 1);
    assert_eq!((swap.placements[0].width, swap.placements[0].height), (640, 480));
    let ops = w.redraw();
    assert_eq!(ops.len(), 1);
    assert_eq!((ops[0].width, ops[0].height), (640, 480));
    assert!(w.on_resize_move(640, 480).is_none());
    w.on_resize(Some(5));
    let (ops, cb) = w.on_resize_move(800, -3).unwrap();
    assert_eq!(cb, Some((5, 800, 0)));
    assert_eq!(w.on_size_allocate(), Some((5, 800, 0)));
    assert_eq!(w.size(), (800, 0));
    assert_eq!(ops[0].id, lid);
    assert_eq!((ops[0].width, ops[0].height), (800, 0));
    assert_eq!(w.find_control_by_id(lid).unwrap().id(), lid);
    let swap = w.set_child(None);
    assert_eq!(swap.released, vec![lid]);
    let old = swap.old.unwrap();
    assert_eq!(old.id(), lid);
    assert!(old.coords.is_none());
    assert!(w.child().is_none());
}

#[test]
fn application_lookup_and_close() {
    let mut ids = IdRegistry::new();
    let mut app = Application::with_name(String::from("demo"));
    assert_eq!(app.name(), "demo");
    let w1 = app.new_window(&mut ids, String::from("one"), WindowStartSize::Exact(10, 10), (0, 0));
    let w2 = app.new_window(&mut ids, String::from("two"), WindowStartSize::Exact(10, 10), (0, 0));
    let b = Control::new_button(&mut ids, String::from("b"));
    let bid = b.id();
    app.windows[1].set_child(Some(b));
    assert_eq!(app.find_member_by_id(w1).unwrap().id, w1);
    assert_eq!(app.find_member_by_id(bid).unwrap().id, bid);
    assert!(app.find_member_by_id(12345).is_none());
    assert!(!app.close_window(w1));
    assert!(!app.close_window(w1));
    assert!(app.close_window(w2));
}

#[test]
fn bridge_misses_stale_keys() {
    let mut bridge = Bridge::new();
    let k1 = bridge.bind(10);
    let k2 = bridge.bind(11);
    assert_eq!(bridge.resolve(k1), Some(10));
    assert_eq!(bridge.resolve(k2), Some(11));
    assert_eq!(bridge.unbind(k1), Some(10));
    assert_eq!(bridge.resolve(k1), None);
    assert_eq!(bridge.unbind(k1), None);
    let k3 = bridge.bind(12);
    assert_eq!(k3.index, k1.index);
    assert_eq!(bridge.resolve(k1), None);
    assert_eq!(bridge.resolve(k3), Some(12));
    assert_eq!(bridge.resolve_or_parent(Some(k1), Some(k2)), Some(11));
    assert_eq!(bridge.resolve_or_parent(Some(k3), Some(k2)), Some(12));
    assert_eq!(bridge.resolve_or_parent(None, None), None);
}

#[test]
fn window_find_control_by_id_mut() {
    let mut ids = IdRegistry::new();
    let mut w = Window::new(&mut ids, String::from("t"), WindowStartSize::Exact(100, 100), (0, 0));
    let b = Control::new_button(&mut ids, String::from("b"));
    let bid = b.id();
    w.set_child(Some(b));
    w.find_control_by_id_mut(bid).unwrap().on_click(Some(3));
    assert_eq!(w.child().unwrap().click_handler(), Some(3));
    assert!(w.find_control_by_id_mut(w.id()).is_none());
}

#[test]
fn parent_and_root_navigation() {
    let mut ids = IdRegistry::new();
    let mut app = Application::with_name(String::from("nav"));
    let wid = app.new_window(&mut ids, String::from("w"), WindowStartSize::Exact(10, 10), (0, 0));
    let mut l = Control::new_linear_layout(&mut ids, Orientation::Horizontal);
    let mut f = Control::new_frame(&mut ids, String::from("f"));
    let b = Control::new_button(&mut ids, String::from("b"));
    let (lid, fid, bid) = (l.id(), f.id(), b.id());
    f.set_child(Some(b));
    l.set_child_to(0, f);
    app.windows[0].set_child(Some(l));
    let w = &app.windows[0];
    assert_eq!(w.parent_of(lid), Some(wid));
    assert_eq!(w.parent_of(fid), Some(lid));
    assert_eq!(w.parent_of(bid), Some(fid));
    assert_eq!(w.parent_of(wid), None);
    assert_eq!(app.root_of(bid), Some(wid));
    assert_eq!(app.root_of(777), None);
}

#[test]
fn invalidate_remeasures_after_visibility_change() {
    let mut ids = IdRegistry::new();
    let mut w = Window::new(&mut ids, String::from("t"), WindowStartSize::Exact(300, 200), (0, 0));
    let mut l = Control::new_linear_layout(&mut ids, Orientation::Vertical);
    l.set_layout_params(Params::WrapContent, Params::WrapContent);
    let mut b = Control::new_button(&mut ids, String::from("b"));
    b.set_label(String::from("b"), (40, 10));
    b.set_layout_params(Params::WrapContent, Params::WrapContent);
    let bid = b.id();
    l.set_child_to(0, b);
    w.set_child(Some(l));
    assert_eq!(w.child().unwrap().size(), (40, 10));
    w.find_control_by_id_mut(bid).unwrap().set_visibility(plygui::layout::Visibility::Gone);
    let ops = w.invalidate(bid).unwrap();
    assert_eq!((ops[0].width, ops[0].height), (0, 0));
    assert!(!ops[1].shown);
    assert!(w.invalidate(999).is_none());
    assert_eq!(w.on_size_allocate(), None);
}
