//! The field capability: a pure geometric predicate exposing a signed
//! distance. The capped-cylinder variant stores its length and radius
//! normalized to their absolute values; a size update replaces both
//! parameters and never leaves a half-written shape behind.

use vstd::prelude::*;

use crate::math::{abs64, cyl_distance, cylinder_distance, COORD_LIMIT};
use crate::node::{
    lemma_one_node_changed, node_ident_eq, node_misc_caps_eq, FieldShape, NodeError, World,
    HANDLER_FIELD_SET_SIZE,
};
use crate::table::{tbl_lookup, tbl_unique};

verus! {

/// Signed distance of the query point to the node's field, in the field's
/// local frame.
pub open spec fn field_local_distance(w: World, id: int, px: int, py: int, pz: int) -> int {
    match w.nodes@[id].field->Some_0 {
        FieldShape::Cylinder { length, radius } => cyl_distance(
            length as int,
            radius as int,
            px,
            py,
            pz,
        ),
    }
}

/// Signed distance from the field of node `f` to the origin of the spatial
/// of node `s`, with the query point carried into the field's frame by the
/// two world-frame origins.
pub open spec fn field_distance_spec(w: World, f: int, s: int) -> int {
    let fs = w.nodes@[f].spatial->Some_0;
    let ss = w.nodes@[s].spatial->Some_0;
    field_local_distance(w, f, ss.x - fs.x, ss.y - fs.y, ss.z - fs.z)
}

impl World {
    /// Attach a capped-cylinder field to a node that already carries a
    /// spatial; at most once. Negative inputs are normalized to their
    /// absolute value. Registers the size-update signal.
    #[verifier::rlimit(50)]
    pub fn add_cylinder_field(&mut self, id: u64, length: i64, radius: i64) -> (r: Result<
        (),
        NodeError,
    >)
        requires
            old(self).wf(),
            (id as int) < old(self).nodes@.len(),
            -COORD_LIMIT <= length <= COORD_LIMIT,
            -COORD_LIMIT <= radius <= COORD_LIMIT,
        ensures
            final(self).wf(),
            final(self).nodes@.len() == old(self).nodes@.len(),
            final(self).clients@ == old(self).clients@,
            final(self).zoneables@ == old(self).zoneables@,
            final(self).sounds@ == old(self).sounds@,
            final(self).keymaps@ == old(self).keymaps@,
            forall|j: int|
                0 <= j < old(self).nodes@.len() && j != id as int ==> final(self).nodes@[j]
                    == old(self).nodes@[j],
            match r {
                Ok(_) => {
                    &&& old(self).nodes@[id as int].spatial is Some
                    &&& old(self).nodes@[id as int].field is None
                    &&& final(self).nodes@[id as int].field == Some(
                        FieldShape::Cylinder { length: abs64(length), radius: abs64(radius) },
                    )
                    &&& node_ident_eq(final(self).nodes@[id as int], old(self).nodes@[id as int])
                    &&& node_misc_caps_eq(
                        final(self).nodes@[id as int],
                        old(self).nodes@[id as int],
                    )
                    &&& final(self).nodes@[id as int].spatial == old(
                        self,
                    ).nodes@[id as int].spatial
                    &&& final(self).nodes@[id as int].zone == old(self).nodes@[id as int].zone
                    &&& final(self).nodes@[id as int].sound == old(self).nodes@[id as int].sound
                    &&& tbl_lookup(
                        final(self).nodes@[id as int].local_signals@,
                        "set_size"@,
                    ) == Some(HANDLER_FIELD_SET_SIZE)
                    &&& (forall|k: Seq<char>|
                        k != "set_size"@ ==> tbl_lookup(
                            final(self).nodes@[id as int].local_signals@,
                            k,
                        ) == tbl_lookup(old(self).nodes@[id as int].local_signals@, k))
                },
                Err(e) => {
                    &&& (e is SpatialMissing || e is SlotOccupied)
                    &&& (e is SpatialMissing <==> old(self).nodes@[id as int].spatial is None)
                    &&& (e is SlotOccupied ==> old(self).nodes@[id as int].field is Some)
                    &&& *final(self) == *old(self)
                },
            },
    {
        let _nn = self.nodes.len();
        if self.nodes[id as usize].spatial.is_none() {
            return Err(NodeError::SpatialMissing);
        }
        if self.nodes[id as usize].field.is_some() {
            return Err(NodeError::SlotOccupied);
        }
        let name = set_size_name();
        self.add_local_signal(id, name, HANDLER_FIELD_SET_SIZE);
        let ghost prev = *self;
        let al: i64 = if length < 0 {
            -length
        } else {
            length
        };
        let ar: i64 = if radius < 0 {
            -radius
        } else {
            radius
        };
        self.nodes[id as usize].field = Some(FieldShape::Cylinder { length: al, radius: ar });
        proof {
            assert(prev.node_wf(id as int));
            assert(self.node_wf(id as int));
            lemma_one_node_changed(prev, *self, id as int);
        }
        Ok(())
    }

    /// Replace the cylinder's shape parameters, normalizing negative inputs
    /// to their absolute value. Nothing else about the node changes.
    #[verifier::rlimit(100)]
    pub fn set_size(&mut self, id: u64, length: i64, radius: i64)
        requires
            old(self).wf(),
            (id as int) < old(self).nodes@.len(),
            old(self).nodes@[id as int].field is Some,
            -COORD_LIMIT <= length <= COORD_LIMIT,
            -COORD_LIMIT <= radius <= COORD_LIMIT,
        ensures
            final(self).wf(),
            final(self).nodes@.len() == old(self).nodes@.len(),
            final(self).clients@ == old(self).clients@,
            final(self).zoneables@ == old(self).zoneables@,
            final(self).sounds@ == old(self).sounds@,
            final(self).keymaps@ == old(self).keymaps@,
            forall|j: int|
                0 <= j < old(self).nodes@.len() && j != id as int ==> final(self).nodes@[j]
                    == old(self).nodes@[j],
            final(self).nodes@[id as int].field == Some(
                FieldShape::Cylinder { length: abs64(length), radius: abs64(radius) },
            ),
            node_ident_eq(final(self).nodes@[id as int], old(self).nodes@[id as int]),
            node_misc_caps_eq(final(self).nodes@[id as int], old(self).nodes@[id as int]),
            final(self).nodes@[id as int].spatial == old(self).nodes@[id as int].spatial,
            final(self).nodes@[id as int].zone == old(self).nodes@[id as int].zone,
            final(self).nodes@[id as int].sound == old(self).nodes@[id as int].sound,
            final(self).nodes@[id as int].local_signals == old(
                self,
            ).nodes@[id as int].local_signals,
            final(self).nodes@[id as int].local_methods == old(
                self,
            ).nodes@[id as int].local_methods,
            final(self).nodes@[id as int].enabled == old(self).nodes@[id as int].enabled,
    {
        let _nn = self.nodes.len();
        let ghost prev = *self;
        let al: i64 = if length < 0 {
            -length
        } else {
            length
        };
        let ar: i64 = if radius < 0 {
            -radius
        } else {
            radius
        };
        self.nodes[id as usize].field = Some(FieldShape::Cylinder { length: al, radius: ar });
        proof {
            assert(prev.node_wf(id as int));
            assert(self.node_wf(id as int));
            lemma_one_node_changed(prev, *self, id as int);
        }
    }

    /// The size-update dispatch entry: applies an already decoded size to
    /// the node's field.
    pub fn set_size_flex(&mut self, id: u64, length: i64, radius: i64) -> (r: Result<
        (),
        NodeError,
    >)
        requires
            old(self).wf(),
            (id as int) < old(self).nodes@.len(),
            old(self).nodes@[id as int].field is Some,
            -COORD_LIMIT <= length <= COORD_LIMIT,
            -COORD_LIMIT <= radius <= COORD_LIMIT,
        ensures
            final(self).wf(),
            r is Ok,
            final(self).nodes@.len() == old(self).nodes@.len(),
            forall|j: int|
                0 <= j < old(self).nodes@.len() && j != id as int ==> final(self).nodes@[j]
                    == old(self).nodes@[j],
            final(self).nodes@[id as int].field == Some(
                FieldShape::Cylinder { length: abs64(length), radius: abs64(radius) },
            ),
            final(self).clients@ == old(self).clients@,
            final(self).zoneables@ == old(self).zoneables@,
            final(self).sounds@ == old(self).sounds@,
            final(self).keymaps@ == old(self).keymaps@,
    {
        self.set_size(id, length, radius);
        Ok(())
    }

    /// Signed distance from the node's field to a point given in the
    /// field's local frame.
    pub fn local_distance(&self, id: u64, px: i64, py: i64, pz: i64) -> (d: i64)
        requires
            self.wf(),
            (id as int) < self.nodes@.len(),
            self.nodes@[id as int].field is Some,
            -COORD_LIMIT <= px <= COORD_LIMIT,
            -COORD_LIMIT <= py <= COORD_LIMIT,
            -COORD_LIMIT <= pz <= COORD_LIMIT,
        ensures
            d == field_local_distance(*self, id as int, px as int, py as int, pz as int),
    {
        let _nn = self.nodes.len();
        proof {
            assert(self.node_wf(id as int));
        }
        match self.nodes[id as usize].field {
            Some(FieldShape::Cylinder { length, radius }) => {
                cylinder_distance(length, radius, px, py, pz)
            },
            None => 0,
        }
    }

    /// Signed distance from the field of node `f` to the origin of the
    /// spatial of node `s`.
    pub fn field_distance(&self, f: u64, s: u64) -> (d: i64)
        requires
            self.wf(),
            (f as int) < self.nodes@.len(),
            (s as int) < self.nodes@.len(),
            self.nodes@[f as int].field is Some,
            self.nodes@[s as int].spatial is Some,
        ensures
            d == field_distance_spec(*self, f as int, s as int),
    {
        let _nn = self.nodes.len();
        proof {
            assert(self.node_wf(f as int));
            assert(self.node_wf(s as int));
        }
        let fs = self.nodes[f as usize].spatial.unwrap();
        let ss = self.nodes[s as usize].spatial.unwrap();
        self.local_distance(f, ss.x - fs.x, ss.y - fs.y, ss.z - fs.z)
    }

    /// The construction entry for a cylinder field: resolves the parent
    /// path in the calling client's scenegraph, and only then publishes a
    /// node under the field root, attaches a spatial under that parent at
    /// the given origin, and attaches the field itself — so no partially
    /// capable node is ever visible when a check fails.
    pub fn create_cylinder_field_flex(
        &mut self,
        client: u64,
        name: &String,
        parent_path: &String,
        x: i64,
        y: i64,
        z: i64,
        length: i64,
        radius: i64,
    ) -> (r: Result<u64, NodeError>)
        requires
            old(self).wf(),
            (client as int) < old(self).clients@.len(),
            -crate::math::POS_LIMIT <= x <= crate::math::POS_LIMIT,
            -crate::math::POS_LIMIT <= y <= crate::math::POS_LIMIT,
            -crate::math::POS_LIMIT <= z <= crate::math::POS_LIMIT,
            -COORD_LIMIT <= length <= COORD_LIMIT,
            -COORD_LIMIT <= radius <= COORD_LIMIT,
        ensures
            final(self).wf(),
            r is Err ==> *final(self) == *old(self),
            r is Ok <==> (old(self).client_alive(client as int)
                && crate::zone::resolves_to_spatial(*old(self), client as int, parent_path@)),
            r is Err ==> (r->Err_0 is ClientGone <==> !old(self).client_alive(client as int)),
            (r is Err && old(self).client_alive(client as int)) ==> ({
                &&& (r->Err_0 is PathMissing <==> tbl_lookup(
                    old(self).clients@[client as int].scenegraph@,
                    parent_path@,
                ) is None)
                &&& (r->Err_0 is AspectMissing <==> (tbl_lookup(
                    old(self).clients@[client as int].scenegraph@,
                    parent_path@,
                ) is Some && !crate::zone::resolves_to_spatial(
                    *old(self),
                    client as int,
                    parent_path@,
                )))
            }),
            match r {
                Ok(id) => {
                    &&& id as int == old(self).nodes@.len()
                    &&& final(self).nodes@.len() == old(self).nodes@.len() + 1
                    &&& final(self).nodes@[id as int].path@ == "/field"@ + seq!['/'] + name@
                    &&& final(self).nodes@[id as int].spatial is Some
                    &&& final(self).nodes@[id as int].spatial->Some_0.x == x
                    &&& final(self).nodes@[id as int].spatial->Some_0.y == y
                    &&& final(self).nodes@[id as int].spatial->Some_0.z == z
                    &&& final(self).nodes@[id as int].spatial->Some_0.parent == Some(
                        tbl_lookup(
                            old(self).clients@[client as int].scenegraph@,
                            parent_path@,
                        )->Some_0,
                    )
                    &&& final(self).nodes@[id as int].field == Some(
                        FieldShape::Cylinder { length: abs64(length), radius: abs64(radius) },
                    )
                    &&& (forall|j: int|
                        0 <= j < old(self).nodes@.len() ==> final(self).nodes@[j] == old(self).nodes@[j])
                },
                Err(_) => true,
            },
    {
        let _nc = self.clients.len();
        if !self.clients[client as usize].alive {
            return Err(NodeError::ClientGone);
        }
        let p = match self.find_spatial(client, parent_path) {
            Ok(p) => p,
            Err(e) => {
                return Err(e);
            },
        };
        let base = field_root();
        let node = self.create_parent_name(client, &base, name, true);
        let id = match self.add_to_scenegraph(node) {
            Ok(id) => id,
            Err(e) => {
                return Err(e);
            },
        };
        let r1 = self.add_spatial(id, Some(p), x, y, z, false);
        proof {
            assert(r1 is Ok);
        }
        let r2 = self.add_cylinder_field(id, length, radius);
        proof {
            assert(r2 is Ok);
        }
        Ok(id)
    }
}

/// The literal name of the size-update signal.
fn set_size_name() -> (r: String)
    ensures
        r@ == "set_size"@,
{
    let s = "set_size";
    s.to_string()
}

/// The literal path under which field nodes are created.
fn field_root() -> (r: String)
    ensures
        r@ == "/field"@,
{
    let s = "/field";
    s.to_string()
}

} // verus!
