//! The spatial capability: a world-frame origin, a swappable parent link,
//! the pre-capture parent snapshot, and the back-reference to the capturing
//! zone. Positions are fixed-point integers in world units; re-parenting
//! keeps the stored origin, as an in-place parent swap does.

use vstd::prelude::*;

use crate::math::POS_LIMIT;
use crate::node::{lemma_one_node_changed, NodeError, Spatial, World};

verus! {

impl World {
    /// Attach the spatial capability to a published node; at most once over
    /// the node's lifetime. A zoneable spatial also enters the global
    /// registry that zone recomputes enumerate.
    #[verifier::rlimit(50)]
    pub fn add_spatial(
        &mut self,
        id: u64,
        parent: Option<u64>,
        x: i64,
        y: i64,
        z: i64,
        zoneable: bool,
    ) -> (r: Result<(), NodeError>)
        requires
            old(self).wf(),
            (id as int) < old(self).nodes@.len(),
            parent is Some ==> (parent->Some_0 as int) < old(self).nodes@.len(),
            -POS_LIMIT <= x <= POS_LIMIT,
            -POS_LIMIT <= y <= POS_LIMIT,
            -POS_LIMIT <= z <= POS_LIMIT,
        ensures
            final(self).wf(),
            final(self).nodes@.len() == old(self).nodes@.len(),
            final(self).clients@ == old(self).clients@,
            final(self).sounds@ == old(self).sounds@,
            final(self).keymaps@ == old(self).keymaps@,
            forall|j: int|
                0 <= j < old(self).nodes@.len() && j != id as int ==> final(self).nodes@[j]
                    == old(self).nodes@[j],
            match r {
                Ok(_) => {
                    &&& old(self).nodes@[id as int].spatial is None
                    &&& final(self).nodes@[id as int] == node_with_spatial(
                        old(self).nodes@[id as int],
                        Spatial { parent, old_parent: None, zone: None, x, y, z },
                    )
                    &&& (zoneable && !old(self).zoneables@.contains(id)
                        ==> final(self).zoneables@ == old(self).zoneables@.push(id))
                    &&& (zoneable && old(self).zoneables@.contains(id) ==> final(self).zoneables@
                        == old(self).zoneables@)
                    &&& (!zoneable ==> final(self).zoneables@ == old(self).zoneables@)
                },
                Err(e) => {
                    &&& e is SlotOccupied
                    &&& old(self).nodes@[id as int].spatial is Some
                    &&& *final(self) == *old(self)
                },
            },
    {
        let _nn = self.nodes.len();
        if self.nodes[id as usize].spatial.is_some() {
            return Err(NodeError::SlotOccupied);
        }
        let ghost prev = *self;
        self.nodes[id as usize].spatial = Some(
            Spatial { parent, old_parent: None, zone: None, x, y, z },
        );
        if zoneable {
            self.zoneables.add(id);
        }
        proof {
            assert(prev.node_wf(id as int));
            assert(self.node_wf(id as int));
            lemma_one_node_changed(prev, *self, id as int);
        }
        Ok(())
    }

    /// Overwrite the spatial's local transform (here: its origin).
    pub fn set_local_transform(&mut self, id: u64, x: i64, y: i64, z: i64)
        requires
            old(self).wf(),
            (id as int) < old(self).nodes@.len(),
            old(self).nodes@[id as int].spatial is Some,
            -POS_LIMIT <= x <= POS_LIMIT,
            -POS_LIMIT <= y <= POS_LIMIT,
            -POS_LIMIT <= z <= POS_LIMIT,
        ensures
            final(self).wf(),
            final(self).nodes@.len() == old(self).nodes@.len(),
            final(self).clients@ == old(self).clients@,
            final(self).zoneables@ == old(self).zoneables@,
            final(self).sounds@ == old(self).sounds@,
            final(self).keymaps@ == old(self).keymaps@,
            forall|j: int|
                0 <= j < old(self).nodes@.len() && j != id as int ==> final(self).nodes@[j]
                    == old(self).nodes@[j],
            final(self).nodes@[id as int] == node_with_spatial(
                old(self).nodes@[id as int],
                Spatial {
                    x,
                    y,
                    z,
                    ..old(self).nodes@[id as int].spatial->Some_0
                },
            ),
    {
        let _nn = self.nodes.len();
        let ghost prev = *self;
        let s = self.nodes[id as usize].spatial.unwrap();
        self.nodes[id as usize].spatial = Some(Spatial { x, y, z, ..s });
        proof {
            assert(prev.node_wf(id as int));
            assert(self.node_wf(id as int));
            lemma_one_node_changed(prev, *self, id as int);
        }
    }

    /// Swap the spatial's parent link. In this model the stored origin is
    /// world-frame, so the origin is unchanged, as with an in-place swap.
    pub fn set_spatial_parent(&mut self, id: u64, parent: Option<u64>)
        requires
            old(self).wf(),
            (id as int) < old(self).nodes@.len(),
            old(self).nodes@[id as int].spatial is Some,
            parent is Some ==> (parent->Some_0 as int) < old(self).nodes@.len(),
        ensures
            final(self).wf(),
            final(self).nodes@.len() == old(self).nodes@.len(),
            final(self).clients@ == old(self).clients@,
            final(self).zoneables@ == old(self).zoneables@,
            final(self).sounds@ == old(self).sounds@,
            final(self).keymaps@ == old(self).keymaps@,
            forall|j: int|
                0 <= j < old(self).nodes@.len() && j != id as int ==> final(self).nodes@[j]
                    == old(self).nodes@[j],
            final(self).nodes@[id as int] == node_with_spatial(
                old(self).nodes@[id as int],
                Spatial {
                    parent,
                    ..old(self).nodes@[id as int].spatial->Some_0
                },
            ),
    {
        let _nn = self.nodes.len();
        let ghost prev = *self;
        let s = self.nodes[id as usize].spatial.unwrap();
        self.nodes[id as usize].spatial = Some(Spatial { parent, ..s });
        proof {
            assert(prev.node_wf(id as int));
            assert(self.node_wf(id as int));
            lemma_one_node_changed(prev, *self, id as int);
        }
    }

    /// Swap the spatial's parent link while keeping its world-frame pose.
    pub fn set_spatial_parent_in_place(&mut self, id: u64, parent: Option<u64>)
        requires
            old(self).wf(),
            (id as int) < old(self).nodes@.len(),
            old(self).nodes@[id as int].spatial is Some,
            parent is Some ==> (parent->Some_0 as int) < old(self).nodes@.len(),
        ensures
            final(self).wf(),
            final(self).nodes@.len() == old(self).nodes@.len(),
            final(self).clients@ == old(self).clients@,
            final(self).zoneables@ == old(self).zoneables@,
            final(self).sounds@ == old(self).sounds@,
            final(self).keymaps@ == old(self).keymaps@,
            forall|j: int|
                0 <= j < old(self).nodes@.len() && j != id as int ==> final(self).nodes@[j]
                    == old(self).nodes@[j],
            final(self).nodes@[id as int] == node_with_spatial(
                old(self).nodes@[id as int],
                Spatial {
                    parent,
                    ..old(self).nodes@[id as int].spatial->Some_0
                },
            ),
    {
        self.set_spatial_parent(id, parent)
    }

    /// The spatial's current parent link.
    pub fn get_parent(&self, id: u64) -> (r: Option<u64>)
        requires
            self.wf(),
            (id as int) < self.nodes@.len(),
            self.nodes@[id as int].spatial is Some,
        ensures
            r == self.nodes@[id as int].spatial->Some_0.parent,
    {
        let _nn = self.nodes.len();
        self.nodes[id as usize].spatial.unwrap().parent
    }
}

/// The given node with only its spatial slot replaced.
pub open spec fn node_with_spatial(n: crate::node::Node, s: Spatial) -> crate::node::Node {
    crate::node::Node { spatial: Some(s), ..n }
}

} // verus!
