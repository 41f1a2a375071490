//! The flat-screen mouse pointer object: a server-internal node whose
//! spatial follows the mouse ray, plus the keyboard forwarding decisions:
//! which pulse receiver gets key input, and which key transitions to send.

use vstd::prelude::*;

use crate::node::{NodeError, World};

verus! {

/// The keyboard datamap the pointer forwards: a keymap id and the pressed
/// (positive) and released (negative) key codes of the frame.
#[derive(Debug, Clone)]
pub struct KeyboardEvent {
    pub keymap_id: String,
    pub keys: Vec<i32>,
}

impl Default for KeyboardEvent {
    /// The flat-screen keymap with no keys changed.
    fn default() -> (r: KeyboardEvent)
        ensures
            r.keymap_id@ == "flatscreen"@,
            r.keys@ == Seq::<i32>::empty(),
    {
        let s = "flatscreen";
        KeyboardEvent { keymap_id: s.to_string(), keys: Vec::new() }
    }
}

/// The mouse pointer: its node, spatial, input method, and current
/// keyboard datamap.
pub struct MousePointer {
    pub node: u64,
    pub spatial: u64,
    pub pointer: u64,
    pub keyboard_datamap: KeyboardEvent,
}

impl MousePointer {
    /// Build the pointer's node on the server-internal client and register
    /// the flat-screen keymap (compiled by the host keyboard library) under
    /// its well-known id.
    pub fn new(world: &mut World, internal_client: u64, keymap: String) -> (r: Result<
        MousePointer,
        NodeError,
    >)
        requires
            old(world).wf(),
            (internal_client as int) < old(world).clients@.len(),
        ensures
            final(world).wf(),
            r is Ok <==> old(world).client_alive(internal_client as int),
            r is Err ==> r->Err_0 is ClientGone,
            r is Ok ==> ({
                &&& (r->Ok_0.node as int) < final(world).nodes@.len()
                &&& !final(world).nodes@[r->Ok_0.node as int].destroyable
                &&& final(world).nodes@[r->Ok_0.node as int].spatial is Some
                &&& final(world).nodes@[r->Ok_0.node as int].spatial->Some_0.parent is None
                &&& final(world).nodes@[r->Ok_0.node as int].spatial->Some_0.x == 0
                &&& final(world).nodes@[r->Ok_0.node as int].spatial->Some_0.y == 0
                &&& final(world).nodes@[r->Ok_0.node as int].spatial->Some_0.z == 0
                &&& final(world).nodes@[r->Ok_0.node as int].input_method
                &&& final(world).nodes@[r->Ok_0.node as int].pulse_sender
                &&& final(world).keymaps@.len() == old(world).keymaps@.len() + 1
                &&& final(world).keymaps@[0].0@ == "flatscreen"@
                &&& r->Ok_0.keyboard_datamap.keymap_id@ == "flatscreen"@
                &&& r->Ok_0.keyboard_datamap.keys@ == Seq::<i32>::empty()
            }),
    {
        let _nn = world.nodes.len();
        let name = crate::ident::generate_uid();
        let empty = String::new();
        let node = world.create_parent_name(internal_client, &empty, &name, false);
        let id = match world.add_to_scenegraph(node) {
            Ok(id) => id,
            Err(e) => {
                return Err(e);
            },
        };
        match world.add_spatial(id, None, 0, 0, 0, false) {
            Ok(_) => (),
            Err(e) => {
                return Err(e);
            },
        }
        let ghost w1 = *world;
        world.nodes[id as usize].input_method = true;
        proof {
            assert(w1.node_wf(id as int));
            assert(world.node_wf(id as int));
            crate::node::lemma_one_node_changed(w1, *world, id as int);
        }
        let ghost w2 = *world;
        world.nodes[id as usize].pulse_sender = true;
        proof {
            assert(w2.node_wf(id as int));
            assert(world.node_wf(id as int));
            crate::node::lemma_one_node_changed(w2, *world, id as int);
        }
        let fl = "flatscreen";
        let ghost w3 = *world;
        world.keymaps.insert(0, (fl.to_string(), keymap));
        proof {
            assert(world.keymaps@[0].0@ == "flatscreen"@);
            assert forall|j: int| 0 <= j < world.nodes@.len() implies world.node_wf(j) by {
                assert(w3.node_wf(j));
            }
            assert forall|cc: int| 0 <= cc < world.clients@.len() implies world.client_wf(
                cc,
            ) by {
                assert(w3.client_wf(cc));
            }
            assert(world.wf());
        }
        Ok(
            MousePointer {
                node: id,
                spatial: id,
                pointer: id,
                keyboard_datamap: KeyboardEvent::default(),
            },
        )
    }
}

/// How close a receiver's field must come to the pointer ray before it can
/// take keyboard focus, in fixed-point units.
pub const KEY_FOCUS_DISTANCE: i64 = 50;

/// Whether a ray-marched receiver can take keyboard focus: the ray must
/// reach forward and pass close enough.
pub open spec fn focus_candidate(deepest: i64, closest: i64) -> bool {
    deepest > 0 && closest < KEY_FOCUS_DISTANCE
}

/// Pick the pulse receiver that takes this frame's keyboard input from the
/// ray-march results `(receiver, deepest point distance, closest distance)`:
/// among receivers the ray enters (deepest point ahead, passing within the
/// focus distance), the one whose deepest point is nearest wins, and on a
/// tie the one later in registry order.
pub fn pick_keyboard_target(candidates: &Vec<(u64, i64, i64)>) -> (r: Option<u64>)
    ensures
        r is None ==> (forall|j: int|
            0 <= j < candidates@.len() ==> !focus_candidate(
                (#[trigger] candidates@[j]).1,
                candidates@[j].2,
            )),
        r is Some ==> (exists|k: int|
            0 <= k < candidates@.len() && focus_candidate(
                (#[trigger] candidates@[k]).1,
                candidates@[k].2,
            ) && candidates@[k].0 == r->Some_0 && (forall|j: int|
                0 <= j < candidates@.len() && focus_candidate(
                    (#[trigger] candidates@[j]).1,
                    candidates@[j].2,
                ) ==> candidates@[k].1 <= candidates@[j].1) && (forall|j: int|
                k < j < candidates@.len() && focus_candidate(
                    (#[trigger] candidates@[j]).1,
                    candidates@[j].2,
                ) ==> candidates@[k].1 < candidates@[j].1)),
{
    let n = candidates.len();
    let mut best: usize = 0;
    let mut found = false;
    let mut i: usize = 0;
    while i < n
        invariant
            0 <= i <= n,
            n == candidates@.len(),
            !found ==> (forall|j: int|
                0 <= j < i ==> !focus_candidate(
                    (#[trigger] candidates@[j]).1,
                    candidates@[j].2,
                )),
            found ==> 0 <= (best as int) < i && focus_candidate(
                candidates@[best as int].1,
                candidates@[best as int].2,
            ),
            found ==> (forall|j: int|
                0 <= j < i && focus_candidate((#[trigger] candidates@[j]).1, candidates@[j].2)
                    ==> candidates@[best as int].1 <= candidates@[j].1),
            found ==> (forall|j: int|
                (best as int) < j < i && focus_candidate(
                    (#[trigger] candidates@[j]).1,
                    candidates@[j].2,
                ) ==> candidates@[best as int].1 < candidates@[j].1),
        decreases n - i,
    {
        let c = candidates[i];
        if c.1 > 0 && c.2 < KEY_FOCUS_DISTANCE {
            if !found {
                found = true;
                best = i;
            } else if !(candidates[best].1 < c.1) {
                best = i;
            }
        }
        i += 1;
    }
    if found {
        Some(candidates[best].0)
    } else {
        None
    }
}

/// The signed key transition list of a frame: for each key state `(code,
/// just pressed, just released)`, the code counts positively when pressed
/// and negatively when released, in order.
pub open spec fn key_transitions(s: Seq<(u32, bool, bool)>) -> Seq<i32>
    decreases s.len(),
{
    if s.len() == 0 {
        Seq::empty()
    } else {
        let head: Seq<i32> = if s[0].1 {
            seq![s[0].0 as i32]
        } else if s[0].2 {
            seq![(-(s[0].0 as int)) as i32]
        } else {
            Seq::empty()
        };
        head + key_transitions(s.drop_first())
    }
}

/// Collect the signed key transitions of a frame.
pub fn collect_key_transitions(states: &Vec<(u32, bool, bool)>) -> (r: Vec<i32>)
    requires
        forall|j: int| 0 <= j < states@.len() ==> (#[trigger] states@[j]).0 <= 0x7FFF_FFFF,
    ensures
        r@ == key_transitions(states@),
{
    let mut out: Vec<i32> = Vec::new();
    let n = states.len();
    let mut i: usize = 0;
    proof {
        assert(states@.skip(0) =~= states@);
        assert(out@ + key_transitions(states@.skip(0)) =~= key_transitions(states@));
    }
    while i < n
        invariant
            0 <= i <= n,
            n == states@.len(),
            forall|j: int| 0 <= j < states@.len() ==> (#[trigger] states@[j]).0 <= 0x7FFF_FFFF,
            key_transitions(states@) == out@ + key_transitions(states@.skip(i as int)),
        decreases n - i,
    {
        let ghost oprev = out@;
        let c = states[i];
        if c.1 {
            out.push(c.0 as i32);
        } else if c.2 {
            out.push(-(c.0 as i32));
        }
        proof {
            assert(states@.skip(i as int)[0] == states@[i as int]);
            assert(states@.skip(i as int).drop_first() =~= states@.skip(i as int + 1));
            assert(key_transitions(states@) =~= out@ + key_transitions(
                states@.skip(i as int + 1),
            ));
        }
        i += 1;
    }
    proof {
        assert(states@.skip(n as int) =~= Seq::<(u32, bool, bool)>::empty());
        assert(out@ =~= key_transitions(states@));
    }
    out
}

} // verus!
