//! The gaze pointer object: a server-internal node whose spatial follows
//! the eye ray each frame; the ray itself is sampled by the host layer.

use vstd::prelude::*;

use crate::node::{NodeError, World};

verus! {

/// A keyboard event as the gaze surface forwards it.
#[derive(Debug, Clone)]
pub struct KeyboardEvent {
    pub keyboard: String,
    pub keymap: Option<String>,
    pub keys_up: Option<Vec<u32>>,
    pub keys_down: Option<Vec<u32>>,
}

/// The gaze pointer: its node's spatial and its input method node.
pub struct EyePointer {
    pub spatial: u64,
    pub pointer: u64,
}

impl EyePointer {
    /// Build the pointer's node on the server-internal client: a spatial at
    /// the origin and an input-method marker, never client-destroyable.
    pub fn new(world: &mut World, internal_client: u64) -> (r: Result<EyePointer, NodeError>)
        requires
            old(world).wf(),
            (internal_client as int) < old(world).clients@.len(),
        ensures
            final(world).wf(),
            r is Ok <==> old(world).client_alive(internal_client as int),
            r is Err ==> r->Err_0 is ClientGone,
            r is Ok ==> ({
                &&& (r->Ok_0.spatial as int) < final(world).nodes@.len()
                &&& r->Ok_0.pointer == r->Ok_0.spatial
                &&& final(world).nodes@[r->Ok_0.spatial as int].spatial is Some
                &&& final(world).nodes@[r->Ok_0.spatial as int].spatial->Some_0.parent is None
                &&& final(world).nodes@[r->Ok_0.spatial as int].spatial->Some_0.x == 0
                &&& final(world).nodes@[r->Ok_0.spatial as int].spatial->Some_0.y == 0
                &&& final(world).nodes@[r->Ok_0.spatial as int].spatial->Some_0.z == 0
                &&& final(world).nodes@[r->Ok_0.spatial as int].input_method
                &&& !final(world).nodes@[r->Ok_0.spatial as int].destroyable
            }),
    {
        let _nn = world.nodes.len();
        let name = crate::ident::generate_uid();
        let empty = new_string_empty();
        let node = world.create_parent_name(internal_client, &empty, &name, false);
        let id = match world.add_to_scenegraph(node) {
            Ok(id) => id,
            Err(e) => {
                return Err(e);
            },
        };
        match world.add_spatial(id, None, 0, 0, 0, false) {
            Ok(_) => (),
            Err(e) => {
                return Err(e);
            },
        }
        let ghost prev = *world;
        world.nodes[id as usize].input_method = true;
        proof {
            assert(prev.node_wf(id as int));
            assert(world.node_wf(id as int));
            crate::node::lemma_one_node_changed(prev, *world, id as int);
        }
        Ok(EyePointer { spatial: id, pointer: id })
    }
}

/// An empty parent path, for top-level internal objects.
fn new_string_empty() -> (r: String)
    ensures
        r@ == Seq::<char>::empty(),
{
    String::new()
}

} // verus!
