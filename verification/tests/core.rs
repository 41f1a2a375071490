use scene_kernel::dispatch::Invocation;
use scene_kernel::keymap::{map_key, Key};
use scene_kernel::math::cylinder_distance;
use scene_kernel::mouse_pointer::{collect_key_transitions, pick_keyboard_target};
use scene_kernel::node::{AliasInfo, AspectKind, Message, World, HANDLER_ZONE_CAPTURE};
use scene_kernel::registry::Registry;
use scene_kernel::zone::NoticeKind;

fn world_with_client() -> (World, u64) {
    let mut w = World::new();
    let c = w.create_client(true);
    (w, c)
}

fn make_spatial(w: &mut World, c: u64, name: &str, x: i64, y: i64, z: i64) -> u64 {
    let node = w.create_parent_name(c, &"/spatial".to_string(), &name.to_string(), true);
    let id = w.add_to_scenegraph(node).unwrap();
    w.add_spatial(id, None, x, y, z, true).unwrap();
    id
}

fn make_zone(w: &mut World, c: u64, name: &str, x: i64, y: i64, z: i64, length: i64, radius: i64) -> u64 {
    let root = make_spatial(w, c, &format!("{name}-root"), 0, 0, 0);
    let root_path = w.nodes[root as usize].get_path().clone();
    let id = w
        .create_cylinder_field_flex(c, &name.to_string(), &root_path, x, y, z, length, radius)
        .unwrap();
    w.add_zone(id, id).unwrap();
    id
}

#[test]
fn cylinder_distance_matches_known_values() {
    // length=2, radius=1 in milli-units; origin is 1.0 inside
    assert_eq!(cylinder_distance(2000, 1000, 0, 0, 0), -1000);
    // radial offset 5.0 is 4.0 outside the wall
    assert_eq!(cylinder_distance(2000, 1000, 5000, 0, 0), 4000);
    // a point exactly on the wall
    assert_eq!(cylinder_distance(2000, 1000, 1000, 0, 0), 0);
    // a point exactly on a cap
    assert_eq!(cylinder_distance(2000, 1000, 0, 0, 1000), 0);
    // outside past the rim: sqrt(3000^2 + 4000^2) = 5000
    assert_eq!(cylinder_distance(2000, 1000, 4000, 0, 5000), 5000);
}

#[test]
fn registry_snapshot_has_no_duplicates_or_removed_entries() {
    let mut r = Registry::new();
    r.add(1);
    r.add(2);
    r.add(2);
    r.add(3);
    r.remove(2);
    r.remove(2);
    let snap = r.get_valid_contents();
    assert_eq!(snap, vec![1, 3]);
}

#[test]
fn node_uid_is_21_chars() {
    let (mut w, c) = world_with_client();
    let id = make_spatial(&mut w, c, "a", 0, 0, 0);
    assert_eq!(w.nodes[id as usize].uid.len(), 21);
}

#[test]
fn alias_rejects_unlisted_signal_even_if_original_implements_it() {
    let (mut w, c) = world_with_client();
    let id = make_spatial(&mut w, c, "a", 0, 0, 0);
    w.add_local_signal(id, "boop".to_string(), 42);
    let info = AliasInfo {
        server_signals: vec!["other".to_string()],
        server_methods: vec![],
        client_signals: vec![],
        client_methods: vec![],
    };
    let a = w
        .alias_create(c, &"/alias".to_string(), &"a1".to_string(), id, info)
        .unwrap();
    // direct dispatch finds the handler
    let direct = w.send_local_signal(id, &"boop".to_string(), Message::from_data(vec![]));
    assert!(matches!(direct, Ok(Invocation { handler: 42, .. })));
    // through the alias the same name is rejected as not found
    let via_alias = w.send_local_signal(a, &"boop".to_string(), Message::from_data(vec![]));
    assert!(matches!(
        via_alias,
        Err(scene_kernel::node::ScenegraphError::SignalNotFound)
    ));
}

#[test]
fn alias_forwarding_strips_resources() {
    let (mut w, c) = world_with_client();
    let id = make_spatial(&mut w, c, "a", 0, 0, 0);
    w.add_local_signal(id, "boop".to_string(), 42);
    let info = AliasInfo {
        server_signals: vec!["boop".to_string()],
        server_methods: vec![],
        client_signals: vec![],
        client_methods: vec![],
    };
    let a = w
        .alias_create(c, &"/alias".to_string(), &"a1".to_string(), id, info)
        .unwrap();
    let msg = Message { data: vec![7], fds: vec![99] };
    let inv = w.send_local_signal(a, &"boop".to_string(), msg).unwrap();
    assert_eq!(inv.node, id);
    assert_eq!(inv.message.data, vec![7]);
    assert!(inv.message.fds.is_empty());
}

#[test]
fn broken_alias_after_original_destroyed() {
    let (mut w, c) = world_with_client();
    let id = make_spatial(&mut w, c, "a", 0, 0, 0);
    w.add_local_signal(id, "boop".to_string(), 42);
    let info = AliasInfo {
        server_signals: vec!["boop".to_string()],
        server_methods: vec![],
        client_signals: vec![],
        client_methods: vec![],
    };
    let a = w
        .alias_create(c, &"/alias".to_string(), &"a1".to_string(), id, info)
        .unwrap();
    w.destroy(id);
    let r = w.send_local_signal(a, &"boop".to_string(), Message::from_data(vec![]));
    assert!(matches!(r, Err(scene_kernel::node::ScenegraphError::BrokenAlias)));
}

#[test]
fn capture_scenario_release_fires_before_competitor_capture() {
    let (mut w, c) = world_with_client();
    // cylinder length=2, radius=1 centered at origin
    let z1 = make_zone(&mut w, c, "z1", 0, 0, 0, 2000, 1000);
    let s = make_spatial(&mut w, c, "obj", 0, 0, 0);
    // free spatial: old = infinity, new ~= -1.0
    let ev = w.capture(s, z1);
    assert_eq!(ev.len(), 1);
    assert_eq!(ev[0].kind, NoticeKind::Capture);
    assert_eq!(ev[0].zone_node, z1);
    // move it to radial offset 5: distance to z1 becomes ~4.0
    w.set_local_transform(s, 5000, 0, 0);
    // a competitor at absolute distance 1.5
    let z2 = make_zone(&mut w, c, "z2", 5000, 0, 2500, 2000, 1000);
    let ev2 = w.capture(s, z2);
    assert_eq!(ev2.len(), 2);
    assert_eq!(ev2[0].kind, NoticeKind::Release);
    assert_eq!(ev2[0].zone_node, z1);
    assert_eq!(ev2[1].kind, NoticeKind::Capture);
    assert_eq!(ev2[1].zone_node, z2);
}

#[test]
fn recapture_same_zone_is_noop() {
    let (mut w, c) = world_with_client();
    let z1 = make_zone(&mut w, c, "z1", 0, 0, 0, 2000, 1000);
    let s = make_spatial(&mut w, c, "obj", 0, 0, 0);
    let parent_before = w.get_parent(s);
    assert_eq!(w.capture(s, z1).len(), 1);
    // second capture into the zone that already holds it: no events
    let ev = w.capture(s, z1);
    assert!(ev.is_empty());
    assert_eq!(w.get_parent(s), parent_before);
}

#[test]
fn capture_tie_keeps_spatial_with_incumbent() {
    let (mut w, c) = world_with_client();
    let z1 = make_zone(&mut w, c, "z1", 0, 0, 0, 2000, 1000);
    let s = make_spatial(&mut w, c, "obj", 0, 0, 0);
    assert_eq!(w.capture(s, z1).len(), 1);
    // an identical competitor at the same pose: same absolute distance
    let z2 = make_zone(&mut w, c, "z2", 0, 0, 0, 2000, 1000);
    let ev = w.capture(s, z2);
    assert!(ev.is_empty());
}

#[test]
fn zone_diff_emits_one_leave_one_enter() {
    // previous visible {A, B}; new {B, C}
    let (w, _c) = world_with_client();
    let old_tbl = vec![("A".to_string(), 1u64), ("B".to_string(), 2u64)];
    let new_tbl = vec![("B".to_string(), 5u64), ("C".to_string(), 6u64)];
    let ev = w.zone_diff_events(0, &old_tbl, &new_tbl);
    assert_eq!(ev.len(), 2);
    assert_eq!(ev[0].kind, NoticeKind::Enter);
    assert_eq!(ev[0].uid, "C");
    assert_eq!(ev[1].kind, NoticeKind::Leave);
    assert_eq!(ev[1].uid, "A");
}

#[test]
fn zone_visible_retains_captured_object_outside_field() {
    let (mut w, c) = world_with_client();
    let z1 = make_zone(&mut w, c, "z1", 0, 0, 0, 2000, 1000);
    let s = make_spatial(&mut w, c, "obj", 0, 0, 0);
    w.capture(s, z1);
    // move it far outside the volume; it stays visible because captured
    w.set_local_transform(s, 900000, 0, 0);
    let vis = w.zone_visible(z1).unwrap();
    assert!(vis.contains(&s));
}

#[test]
fn zone_visible_fails_when_field_destroyed() {
    let (mut w, c) = world_with_client();
    let z1 = make_zone(&mut w, c, "z1", 0, 0, 0, 2000, 1000);
    w.destroy(z1);
    // a second zone pointing at the dead field node
    let s = make_spatial(&mut w, c, "obj", 0, 0, 0);
    let node = w.create_parent_name(c, &"/spatial/zone".to_string(), &"z2".to_string(), true);
    let z2 = w.add_to_scenegraph(node).unwrap();
    w.add_spatial(z2, None, 0, 0, 0, false).unwrap();
    w.add_zone(z2, z1).unwrap();
    let r = w.zone_visible(z2);
    assert!(matches!(r, Err(scene_kernel::node::NodeError::FieldGone)));
    let _ = s;
}

#[test]
fn capture_flex_decodes_path_and_captures() {
    let (mut w, c) = world_with_client();
    let z1 = make_zone(&mut w, c, "z1", 0, 0, 0, 2000, 1000);
    let s = make_spatial(&mut w, c, "obj", 0, 0, 0);
    let path = w.nodes[s as usize].get_path().clone();
    let payload = stardust_xr::schemas::flex::serialize(&path).unwrap();
    let ev = w.capture_flex(z1, c, &payload).unwrap();
    assert_eq!(ev.len(), 1);
    assert_eq!(ev[0].kind, NoticeKind::Capture);
    // the event payload is a flexbuffer of the uid, not the raw uid bytes
    let decoded: String = stardust_xr::schemas::flex::deserialize(&ev[0].data).unwrap();
    assert_eq!(decoded, w.nodes[s as usize].uid);
    assert_ne!(ev[0].data, w.nodes[s as usize].uid.as_bytes());
}

#[test]
fn destroy_releases_captured_spatials() {
    let (mut w, c) = world_with_client();
    let z1 = make_zone(&mut w, c, "z1", 0, 0, 0, 2000, 1000);
    let s = make_spatial(&mut w, c, "obj", 0, 0, 0);
    w.capture(s, z1);
    w.destroy(z1);
    // the spatial is free again and its pre-capture parent restored
    assert_eq!(w.get_parent(s), None);
    let ev = w.release(s);
    assert!(ev.is_empty());
}

#[test]
fn set_enabled_and_aspects() {
    let (mut w, c) = world_with_client();
    let id = make_spatial(&mut w, c, "a", 0, 0, 0);
    w.set_enabled(id, false);
    assert!(!w.nodes[id as usize].enabled);
    assert!(w.nodes[id as usize].get_aspect(AspectKind::Spatial).is_ok());
    assert!(w.nodes[id as usize].get_aspect(AspectKind::Zone).is_err());
}

#[test]
fn double_spatial_attachment_fails() {
    let (mut w, c) = world_with_client();
    let id = make_spatial(&mut w, c, "a", 0, 0, 0);
    let r = w.add_spatial(id, None, 0, 0, 0, false);
    assert!(matches!(r, Err(scene_kernel::node::NodeError::SlotOccupied)));
}

#[test]
fn zone_signals_are_registered() {
    let (mut w, c) = world_with_client();
    let z1 = make_zone(&mut w, c, "z1", 0, 0, 0, 2000, 1000);
    let inv = w
        .send_local_signal(z1, &"capture".to_string(), Message::from_data(vec![]))
        .unwrap();
    assert_eq!(inv.handler, HANDLER_ZONE_CAPTURE);
}

#[test]
fn remote_fanout_delivers_to_scoped_observers_once() {
    let (mut w, c) = world_with_client();
    let id = make_spatial(&mut w, c, "a", 0, 0, 0);
    let info = AliasInfo {
        server_signals: vec![],
        server_methods: vec![],
        client_signals: vec!["ping".to_string()],
        client_methods: vec![],
    };
    let a = w
        .alias_create(c, &"/alias".to_string(), &"a1".to_string(), id, info)
        .unwrap();
    let msg = Message { data: vec![1, 2], fds: vec![4] };
    let deliveries = w.send_remote_signal(id, &"ping".to_string(), &msg);
    // one through the alias (resources stripped), one on the node's own channel
    assert_eq!(deliveries.len(), 2);
    assert_eq!(deliveries[0].node, a);
    assert!(deliveries[0].fds.is_empty());
    assert_eq!(deliveries[1].node, id);
    assert_eq!(deliveries[1].fds, vec![4]);
}

#[test]
fn map_key_matches_input_event_codes() {
    assert_eq!(map_key(Key::Esc), Some(1));
    assert_eq!(map_key(Key::A), Some(30));
    assert_eq!(map_key(Key::Return), Some(28));
    assert_eq!(map_key(Key::Backtick), None);
    assert_eq!(map_key(Key::Numpad0), Some(512));
}

#[test]
fn keyboard_focus_picks_nearest_deepest_with_late_tie() {
    // candidates: (receiver, deepest, closest)
    let v = vec![(1u64, 500i64, 10i64), (2, 300, 10), (3, 300, 10), (4, 300, 100)];
    assert_eq!(pick_keyboard_target(&v), Some(3));
    let none = vec![(1u64, -5i64, 10i64), (2, 500, 100)];
    assert_eq!(pick_keyboard_target(&none), None);
}

#[test]
fn key_transition_signs() {
    let states = vec![(30u32, true, false), (31, false, true), (32, false, false)];
    assert_eq!(collect_key_transitions(&states), vec![30, -31]);
}

#[test]
fn field_construction_rejects_unresolvable_parent_path() {
    let (mut w, c) = world_with_client();
    let r = w.create_cylinder_field_flex(
        c,
        &"f".to_string(),
        &"/nowhere".to_string(),
        0,
        0,
        0,
        2000,
        1000,
    );
    assert!(matches!(r, Err(scene_kernel::node::NodeError::PathMissing)));
    // a path naming a non-spatial node is told apart from a missing one
    let plain = w.create_parent_name(c, &"/data".to_string(), &"blob".to_string(), true);
    let plain_id = w.add_to_scenegraph(plain).unwrap();
    let plain_path = w.nodes[plain_id as usize].get_path().clone();
    let r2 = w.create_cylinder_field_flex(
        c,
        &"f".to_string(),
        &plain_path,
        0,
        0,
        0,
        2000,
        1000,
    );
    assert!(matches!(r2, Err(scene_kernel::node::NodeError::AspectMissing)));
}

#[test]
fn zone_construction_resolves_parent_and_field_paths() {
    let (mut w, c) = world_with_client();
    let root = make_spatial(&mut w, c, "root", 0, 0, 0);
    let root_path = w.nodes[root as usize].get_path().clone();
    let f = w
        .create_cylinder_field_flex(c, &"vol".to_string(), &root_path, 0, 0, 0, 2000, 1000)
        .unwrap();
    let f_path = w.nodes[f as usize].get_path().clone();
    let z = w
        .create_zone_flex(c, &"zone".to_string(), &root_path, &f_path, 0, 0, 0)
        .unwrap();
    // the zone node answers the zone protocol
    let inv = w
        .send_local_signal(z, &"update".to_string(), Message::from_data(vec![]))
        .unwrap();
    assert_eq!(inv.handler, scene_kernel::node::HANDLER_ZONE_UPDATE);
    // a bad field path fails without publishing anything
    let before = w.nodes.len();
    let r = w.create_zone_flex(c, &"z2".to_string(), &root_path, &"/no-field".to_string(), 0, 0, 0);
    assert!(r.is_err());
    assert_eq!(w.nodes.len(), before);
}

#[test]
fn destroy_flex_honors_destroyable_flag() {
    let mut w = World::new();
    let internal = w.create_client(false);
    let pointer = scene_kernel::eye_pointer::EyePointer::new(&mut w, internal).unwrap();
    // server-internal objects are not client-destroyable
    w.destroy_flex(pointer.spatial);
    assert!(w.nodes[pointer.spatial as usize].alive);
    let c = w.create_client(true);
    let id = make_spatial(&mut w, c, "gone", 0, 0, 0);
    w.destroy_flex(id);
    assert!(!w.nodes[id as usize].alive);
}

#[test]
fn destroy_without_client_is_noop_and_destroyable_flag_guards() {
    let mut w = World::new();
    let c = w.create_client(true);
    let id = make_spatial(&mut w, c, "a", 0, 0, 0);
    assert!(w.nodes[id as usize].alive);
    w.destroy(id);
    assert!(!w.nodes[id as usize].alive);
}
