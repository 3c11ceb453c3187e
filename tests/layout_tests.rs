use plygui::control::{Control, Kind};
use plygui::draw::Placement;
use plygui::ids::IdRegistry;
use plygui::layout::{Margins, Orientation, Params, Visibility};
use plygui::splitter::{children_sizes, position_to_ratio, splitter_after_drag, wrap_ratio};
use plygui::utils::coord_to_size;

fn button(ids: &mut IdRegistry, w: u16, h: u16) -> Control {
    let mut b = Control::new_button(ids, String::from("ok"));
    b.set_label(String::from("ok"), (w, h));
    b.set_layout_params(Params::WrapContent, Params::WrapContent);
    b
}

#[test]
fn coord_to_size_clamps_negative() {
    assert_eq!(coord_to_size(-5), 0);
    assert_eq!(coord_to_size(0), 0);
    assert_eq!(coord_to_size(100), 100);
    assert_eq!(coord_to_size(65535), 65535);
    assert_eq!(coord_to_size(70000), 4464);
}

#[test]
fn ids_are_pairwise_distinct() {
    let mut ids = IdRegistry::new();
    let mut seen = Vec::new();
    for _ in 0..100 {
        let b = Control::new_button(&mut ids, String::new());
        assert!(!seen.contains(&b.id()));
        seen.push(b.id());
    }
    assert_eq!(seen[0], 0);
    assert_eq!(seen[99], 99);
}

#[test]
fn gone_measures_to_zero() {
    let mut ids = IdRegistry::new();
    let mut b = button(&mut ids, 50, 20);
    b.set_layout_params(Params::Exact(100), Params::MatchParent);
    assert_eq!(b.measure(300, 400), (100, 400, true));
    b.set_visibility(Visibility::Gone);
    assert_eq!(b.measure(300, 400), (0, 0, true));
    assert_eq!(b.measure(10, 10), (0, 0, false));
    assert_eq!(b.size(), (0, 0));
}

#[test]
fn exact_policy_ignores_parent() {
    let mut ids = IdRegistry::new();
    let mut b = button(&mut ids, 50, 20);
    b.set_layout_params(Params::Exact(42), Params::Exact(17));
    assert_eq!(b.measure(0, 0), (42, 17, true));
    assert_eq!(b.measure(65535, 1), (42, 17, false));
    let mut l = Control::new_linear_layout(&mut ids, Orientation::Vertical);
    l.set_layout_params(Params::Exact(7), Params::Exact(9));
    assert_eq!(l.measure(500, 500), (7, 9, true));
}

#[test]
fn match_parent_takes_parent_space() {
    let mut ids = IdRegistry::new();
    let mut b = button(&mut ids, 50, 20);
    b.set_layout_params(Params::MatchParent, Params::MatchParent);
    assert_eq!(b.measure(320, 240), (320, 240, true));
}

#[test]
fn button_wrap_adds_margins() {
    let mut ids = IdRegistry::new();
    let mut b = button(&mut ids, 30, 10);
    b.set_margins(Margins::distinct(1, 2, 3, 4));
    assert_eq!(b.measure(500, 500), (34, 16, true));
}

#[test]
fn invisible_keeps_its_space() {
    let mut ids = IdRegistry::new();
    let mut b = button(&mut ids, 30, 10);
    b.set_visibility(Visibility::Invisible);
    assert_eq!(b.measure(500, 500), (30, 10, true));
}

#[test]
fn linear_layout_sizing() {
    let mut ids = IdRegistry::new();
    let mut l = Control::new_linear_layout(&mut ids, Orientation::Vertical);
    l.set_layout_params(Params::WrapContent, Params::WrapContent);
    assert!(l.set_child_to(0, button(&mut ids, 40, 10)).old.is_none());
    assert!(l.set_child_to(1, button(&mut ids, 25, 20)).old.is_none());
    let (w, h, _) = l.measure(800, 600);
    assert_eq!(h, 30);
    assert_eq!(w, 40);
    l.set_layout_params(Params::WrapContent, Params::MatchParent);
    let (_, h, changed) = l.measure(800, 600);
    assert_eq!(h, 600);
    assert!(changed);
}

#[test]
fn horizontal_layout_sums_widths() {
    let mut ids = IdRegistry::new();
    let mut l = Control::new_linear_layout(&mut ids, Orientation::Horizontal);
    l.set_layout_params(Params::WrapContent, Params::WrapContent);
    l.set_child_to(0, button(&mut ids, 40, 10));
    l.set_child_to(1, button(&mut ids, 25, 20));
    assert_eq!(l.measure(800, 600), (65, 20, true));
}

#[test]
fn empty_wrap_layout_measures_zero() {
    let mut ids = IdRegistry::new();
    let mut l = Control::new_linear_layout(&mut ids, Orientation::Horizontal);
    l.set_layout_params(Params::WrapContent, Params::WrapContent);
    assert_eq!(l.measure(800, 600), (0, 0, false));
}

#[test]
fn gone_children_take_no_space() {
    let mut ids = IdRegistry::new();
    let mut l = Control::new_linear_layout(&mut ids, Orientation::Vertical);
    l.set_layout_params(Params::WrapContent, Params::WrapContent);
    let mut hidden = button(&mut ids, 40, 10);
    hidden.set_visibility(Visibility::Gone);
    l.set_child_to(0, hidden);
    l.set_child_to(1, button(&mut ids, 25, 20));
    assert_eq!(l.measure(800, 600), (25, 20, true));
}

#[test]
fn frame_wraps_label_and_child() {
    let mut ids = IdRegistry::new();
    let mut f = Control::new_frame(&mut ids, String::from("box"));
    f.set_label(String::from("box"), (30, 12));
    f.set_layout_params(Params::WrapContent, Params::WrapContent);
    assert_eq!(f.measure(500, 500), (30, 12, true));
    f.set_child(Some(button(&mut ids, 50, 20)));
    assert_eq!(f.measure(500, 500), (50, 32, true));
}

#[test]
fn draw_twice_gives_same_placements() {
    let mut ids = IdRegistry::new();
    let mut l = Control::new_linear_layout(&mut ids, Orientation::Horizontal);
    l.set_child_to(0, button(&mut ids, 10, 5));
    l.set_child_to(1, button(&mut ids, 20, 5));
    l.on_added_to_container(3, 4, 200, 100);
    let first = l.draw(None);
    let second = l.draw(None);
    assert_eq!(first, second);
    assert_eq!(first.len(), 3);
    assert_eq!((first[0].x, first[0].y), (3, 4));
    assert_eq!((first[1].x, first[1].y), (0, 0));
    assert_eq!((first[2].x, first[2].y), (10, 0));
}

#[test]
fn draw_without_place_gives_nothing() {
    let mut ids = IdRegistry::new();
    let mut b = button(&mut ids, 10, 5);
    b.measure(100, 100);
    assert!(b.draw(None).is_empty());
    let ops = b.draw(Some((1, 2)));
    assert_eq!(
        ops,
        vec![Placement { id: b.id(), x: 1, y: 2, width: 10, height: 5, shown: true, enabled: true }]
    );
}

#[test]
fn draw_reports_visibility_state() {
    let mut ids = IdRegistry::new();
    let mut b = button(&mut ids, 10, 5);
    b.set_visibility(Visibility::Invisible);
    let ops = b.on_added_to_container(0, 0, 100, 100);
    assert!(ops[0].shown);
    assert!(!ops[0].enabled);
    b.set_visibility(Visibility::Gone);
    b.measure(100, 100);
    let ops = b.draw(None);
    assert!(!ops[0].shown);
    assert_eq!((ops[0].width, ops[0].height), (0, 0));
}

#[test]
fn set_child_round_trip() {
    let mut ids = IdRegistry::new();
    let mut f = Control::new_frame(&mut ids, String::from("f"));
    let c = button(&mut ids, 10, 5);
    let cid = c.id();
    assert!(f.set_child(Some(c)).old.is_none());
    let out = f.set_child(None).old.unwrap();
    assert_eq!(out.id(), cid);
    assert!(f.child().is_none());
    assert!(f.set_child(Some(out)).old.is_none());
    assert_eq!(f.child().unwrap().id(), cid);
}

#[test]
fn set_child_to_inserts_then_evicts() {
    let mut ids = IdRegistry::new();
    let mut l = Control::new_linear_layout(&mut ids, Orientation::Vertical);
    let a = button(&mut ids, 1, 1);
    let b = button(&mut ids, 2, 2);
    let c = button(&mut ids, 3, 3);
    let (ia, ib, ic) = (a.id(), b.id(), c.id());
    l.set_child_to(0, a);
    l.set_child_to(1, b);
    let out = l.set_child_to(0, c).old.unwrap();
    assert_eq!(out.id(), ib);
    assert_eq!(l.len(), 2);
    assert_eq!(l.child_at(0).unwrap().id(), ic);
    assert_eq!(l.child_at(1).unwrap().id(), ia);
    assert!(l.child_at(2).is_none());
}

#[test]
fn remove_child_from_takes_child_out() {
    let mut ids = IdRegistry::new();
    let mut l = Control::new_linear_layout(&mut ids, Orientation::Vertical);
    let a = button(&mut ids, 1, 1);
    let b = button(&mut ids, 2, 2);
    let ib = b.id();
    l.set_child_to(0, a);
    l.set_child_to(1, b);
    assert_eq!(l.remove_child_from(1).old.unwrap().id(), ib);
    assert_eq!(l.len(), 1);
    assert!(l.remove_child_from(5).old.is_none());
}

#[test]
fn detach_releases_children_first() {
    let mut ids = IdRegistry::new();
    let mut l = Control::new_linear_layout(&mut ids, Orientation::Vertical);
    let a = button(&mut ids, 1, 1);
    let mut f = Control::new_frame(&mut ids, String::from("f"));
    let inner = button(&mut ids, 1, 1);
    let (ia, ifr, iin) = (a.id(), f.id(), inner.id());
    f.set_child(Some(inner));
    l.set_child_to(0, a);
    l.set_child_to(1, f);
    l.on_added_to_container(0, 0, 100, 100);
    assert!(l.child_at(0).unwrap().coords.is_some());
    let order = l.on_removed_from_container();
    assert_eq!(order, vec![ia, iin, ifr, l.id()]);
    assert!(l.coords.is_none());
    assert!(l.child_at(1).unwrap().coords.is_none());
}

#[test]
fn find_control_by_id_searches_depth_first() {
    let mut ids = IdRegistry::new();
    let mut l = Control::new_linear_layout(&mut ids, Orientation::Vertical);
    let mut f = Control::new_frame(&mut ids, String::from("f"));
    let inner = button(&mut ids, 1, 1);
    let iin = inner.id();
    f.set_child(Some(inner));
    let fid = f.id();
    l.set_child_to(0, f);
    assert_eq!(l.find_control_by_id(iin).unwrap().id(), iin);
    assert_eq!(l.find_control_by_id(fid).unwrap().id(), fid);
    assert!(l.find_control_by_id(l.id()).is_none());
    assert!(l.find_control_by_id(999).is_none());
}

#[test]
fn splitter_ratio_wraps_below_whole() {
    assert_eq!(wrap_ratio(1_300_000), 300_000);
    assert_eq!(wrap_ratio(999_999), 999_999);
    assert_eq!(wrap_ratio(1_000_000), 0);
    let mut ids = IdRegistry::new();
    let a = button(&mut ids, 1, 1);
    let b = button(&mut ids, 1, 1);
    let mut s = Control::new_splitted(&mut ids, a, b, Orientation::Horizontal);
    assert_eq!(s.splitter(), 500_000);
    s.set_splitter(1_300_000);
    assert_eq!(s.splitter(), 300_000);
}

#[test]
fn splitter_pane_sizes() {
    assert_eq!(children_sizes(200, 500_000, 0, 0), (97, 97));
    assert_eq!(children_sizes(200, 300_000, 5, 5), (52, 132));
    assert_eq!(children_sizes(4, 500_000, 0, 0), (0, 0));
}

#[test]
fn splitter_measures_panes() {
    let mut ids = IdRegistry::new();
    let mut a = button(&mut ids, 1, 1);
    a.set_layout_params(Params::MatchParent, Params::MatchParent);
    let mut b = button(&mut ids, 1, 1);
    b.set_layout_params(Params::MatchParent, Params::MatchParent);
    let mut s = Control::new_splitted(&mut ids, a, b, Orientation::Horizontal);
    s.set_layout_params(Params::MatchParent, Params::MatchParent);
    assert_eq!(s.measure(200, 50), (200, 50, true));
    assert_eq!(s.first().unwrap().size(), (97, 50));
    assert_eq!(s.second().unwrap().size(), (97, 50));
    assert_eq!(s.handle_position(), 100);
}

#[test]
fn splitter_drag_ignores_small_moves() {
    assert_eq!(position_to_ratio(50, 200), 250_000);
    assert_eq!(position_to_ratio(50, 0), 500_000);
    assert_eq!(position_to_ratio(300, 200), 999_999);
    assert_eq!(splitter_after_drag(500_000, 0, 200), None);
    assert_eq!(splitter_after_drag(500_000, 100, 200), None);
    assert_eq!(splitter_after_drag(250_000, 50, 200), None);
    assert_eq!(splitter_after_drag(500_000, 50, 200), Some(250_000));
}

#[test]
fn splitter_moved_redraws() {
    let mut ids = IdRegistry::new();
    let a = button(&mut ids, 1, 1);
    let b = button(&mut ids, 1, 1);
    let mut s = Control::new_splitted(&mut ids, a, b, Orientation::Vertical);
    s.set_layout_params(Params::MatchParent, Params::MatchParent);
    s.on_added_to_container(0, 0, 100, 200);
    assert!(s.on_splitter_moved(100).is_empty());
    let ops = s.on_splitter_moved(50);
    assert_eq!(s.splitter(), 250_000);
    assert_eq!(ops.len(), 3);
}

#[test]
fn resize_callback_key_is_reported() {
    let mut ids = IdRegistry::new();
    let mut b = button(&mut ids, 10, 5);
    assert_eq!(b.on_size_allocate(), None);
    b.on_resize(Some(7));
    b.on_resize(Some(9));
    b.measure(100, 100);
    assert_eq!(b.on_size_allocate(), Some((9, 10, 5)));
}

#[test]
fn button_click_handler_is_replaced() {
    let mut ids = IdRegistry::new();
    let mut b = button(&mut ids, 10, 5);
    b.on_click(Some(1));
    b.on_click(Some(2));
    assert_eq!(b.click_handler(), Some(2));
    assert_eq!(b.label(), "ok");
    assert!(matches!(b.kind, Kind::Button { .. }));
    assert!(!b.is_container());
}

#[test]
fn find_control_by_id_mut_changes_in_place() {
    let mut ids = IdRegistry::new();
    let mut l = Control::new_linear_layout(&mut ids, Orientation::Vertical);
    l.set_layout_params(Params::WrapContent, Params::WrapContent);
    let mut f = Control::new_frame(&mut ids, String::from("f"));
    f.set_layout_params(Params::WrapContent, Params::WrapContent);
    let inner = button(&mut ids, 10, 10);
    let iin = inner.id();
    f.set_child(Some(inner));
    l.set_child_to(0, button(&mut ids, 5, 5));
    l.set_child_to(1, f);
    assert_eq!(l.measure(500, 500), (10, 15, true));
    let target = l.find_control_by_id_mut(iin).unwrap();
    target.set_label(String::from("longer"), (60, 10));
    assert_eq!(l.find_control_by_id(iin).unwrap().label(), "longer");
    assert_eq!(l.measure(500, 500), (60, 15, true));
    assert!(l.find_control_by_id_mut(4242).is_none());
}

#[test]
fn attached_frame_attaches_new_child() {
    let mut ids = IdRegistry::new();
    let mut f = Control::new_frame(&mut ids, String::from("f"));
    f.set_layout_params(Params::MatchParent, Params::MatchParent);
    f.set_margins(Margins::distinct(2, 2, 2, 2));
    assert!(f.on_added_to_container(5, 5, 100, 80).len() == 1);
    let mut old = button(&mut ids, 10, 5);
    old.set_layout_params(Params::MatchParent, Params::MatchParent);
    let oid = old.id();
    let swap = f.set_child(Some(old));
    assert!(swap.old.is_none());
    assert!(swap.released.is_empty());
    assert_eq!(
        swap.placements,
        vec![Placement { id: oid, x: 0, y: 0, width: 96, height: 76, shown: true, enabled: true }]
    );
    assert_eq!(f.child().unwrap().coords, Some((0, 0)));
    let mut l = Control::new_linear_layout(&mut ids, Orientation::Vertical);
    let inner = button(&mut ids, 1, 1);
    let (lid, iid) = (l.id(), inner.id());
    l.set_child_to(0, inner);
    let swap = f.set_child(Some(l));
    assert_eq!(swap.old.as_ref().unwrap().id(), oid);
    assert!(swap.old.unwrap().coords.is_none());
    assert_eq!(swap.released, vec![oid]);
    assert_eq!(swap.placements.len(), 2);
    assert_eq!(swap.placements[0].id, lid);
    assert_eq!(swap.placements[1].id, iid);
    let swap = f.set_child(None);
    assert_eq!(swap.released, vec![iid, lid]);
    assert!(swap.placements.is_empty());
}

#[test]
fn unattached_container_leaves_children_alone() {
    let mut ids = IdRegistry::new();
    let mut l = Control::new_linear_layout(&mut ids, Orientation::Vertical);
    let swap = l.set_child_to(0, button(&mut ids, 1, 1));
    assert!(swap.placements.is_empty());
    assert!(l.child_at(0).unwrap().coords.is_none());
    let swap = l.remove_child_from(0);
    assert!(swap.released.is_empty());
}

#[test]
fn attached_layout_attaches_and_releases() {
    let mut ids = IdRegistry::new();
    let mut l = Control::new_linear_layout(&mut ids, Orientation::Horizontal);
    l.set_layout_params(Params::MatchParent, Params::MatchParent);
    let a = button(&mut ids, 10, 5);
    let ia = a.id();
    l.set_child_to(0, a);
    l.on_added_to_container(0, 0, 100, 50);
    let c = button(&mut ids, 7, 3);
    let ic = c.id();
    let swap = l.set_child_to(0, c);
    assert_eq!(swap.old.unwrap().id(), ia);
    assert_eq!(swap.released, vec![ia]);
    assert_eq!(
        swap.placements,
        vec![Placement { id: ic, x: 0, y: 0, width: 7, height: 3, shown: true, enabled: true }]
    );
    let swap = l.remove_child_from(0);
    assert_eq!(swap.released, vec![ic]);
    let left_pane = button(&mut ids, 1, 1);
    let right_pane = button(&mut ids, 1, 1);
    let mut s = Control::new_splitted(&mut ids, left_pane, right_pane, Orientation::Horizontal);
    s.set_layout_params(Params::MatchParent, Params::MatchParent);
    s.on_added_to_container(0, 0, 200, 50);
    let mut pane = button(&mut ids, 1, 1);
    pane.set_layout_params(Params::MatchParent, Params::MatchParent);
    let pid = pane.id();
    let swap = s.set_child_to(1, pane);
    assert_eq!(swap.released.len(), 1);
    assert_eq!(swap.placements[0].id, pid);
    assert_eq!((swap.placements[0].width, swap.placements[0].height), (97, 50));
}

#[test]
fn many_ids_are_pairwise_distinct() {
    let mut ids = IdRegistry::new();
    let mut seen = std::collections::HashSet::new();
    for _ in 0..1000 {
        assert!(ids.can_issue());
        assert!(seen.insert(ids.next()));
    }
    assert_eq!(seen.len(), 1000);
}
