//! The zone capability: capturing nearby spatials into an exclusive,
//! re-parented binding, with sticky tie-breaking (an incumbent zone keeps an
//! object unless a challenger is strictly closer), and releasing them with
//! the pre-capture parent restored.

use vstd::prelude::*;

use crate::field::field_distance_spec;
use crate::math::{abs_i, COORD_LIMIT};
use crate::node::{
    lemma_one_node_changed, node_ident_eq, node_misc_caps_eq, zone_wf, NodeError, Spatial, World,
    Zone, HANDLER_ZONE_CAPTURE, HANDLER_ZONE_RELEASE, HANDLER_ZONE_UPDATE,
};
use crate::table::{tbl_lookup, tbl_remove, tbl_unique};
use crate::wire::{flex_str_decode, flex_str_encode, flex_write_str};

verus! {

/// The outbound notifications the zone protocol emits.
#[derive(Debug, Clone, Copy, PartialEq, Eq, Structural)]
pub enum NoticeKind {
    Capture,
    Release,
    Enter,
    Leave,
}

/// One notification owed to a zone's client: the zone node whose channel
/// carries it, the affected object's uid, and the uid's encoded payload.
pub struct ZoneEvent {
    pub kind: NoticeKind,
    pub zone_node: u64,
    pub uid: String,
    pub data: Vec<u8>,
}

/// Mathematical image of a `ZoneEvent`.
pub struct ZoneEventView {
    pub kind: NoticeKind,
    pub zone_node: int,
    pub uid: Seq<char>,
    pub data: Seq<u8>,
}

impl View for ZoneEvent {
    type V = ZoneEventView;

    open spec fn view(&self) -> ZoneEventView {
        ZoneEventView {
            kind: self.kind,
            zone_node: self.zone_node as int,
            uid: self.uid@,
            data: self.data@,
        }
    }
}

/// A field node that still resolves: alive, with its field and spatial.
pub open spec fn field_ok(w: World, f: int) -> bool {
    &&& w.node_alive(f)
    &&& w.nodes@[f].field is Some
    &&& w.nodes@[f].spatial is Some
}

/// The field node bounding the zone carried by node `z`.
pub open spec fn zone_field(w: World, z: int) -> int {
    w.nodes@[z].zone->Some_0.field as int
}

/// The zone node currently holding spatial `s`, if it still resolves to a
/// live zone.
pub open spec fn holding_zone(w: World, s: int) -> Option<int> {
    match w.nodes@[s].spatial->Some_0.zone {
        None => None,
        Some(z) => {
            if w.node_alive(z as int) && w.nodes@[z as int].zone is Some {
                Some(z as int)
            } else {
                None
            }
        },
    }
}

/// Signed distance from a spatial's current zone to the spatial's origin:
/// absent (infinitely far) when the spatial is free, or the zone or its
/// field is gone.
pub open spec fn zone_distance_spec(w: World, s: int) -> Option<int> {
    match holding_zone(w, s) {
        None => None,
        Some(z) => {
            if field_ok(w, zone_field(w, z)) {
                Some(field_distance_spec(w, zone_field(w, z), s))
            } else {
                None
            }
        },
    }
}

/// The distance a capturing zone offers: absent when its field is gone.
pub open spec fn capture_new_distance(w: World, s: int, z: int) -> Option<int> {
    if w.nodes@[z].zone is Some && field_ok(w, zone_field(w, z)) {
        Some(field_distance_spec(w, zone_field(w, z), s))
    } else {
        None
    }
}

/// The strict-inequality capture rule: a challenger wins only with a
/// strictly smaller absolute distance; an absent distance is infinitely
/// far, so equal distances keep the incumbent and a free spatial is won by
/// any resolvable distance.
pub open spec fn capture_wins(new_d: Option<int>, old_d: Option<int>) -> bool {
    match new_d {
        None => false,
        Some(n) => match old_d {
            None => true,
            Some(o) => abs_i(n) < abs_i(o),
        },
    }
}

impl World {
    /// Signed distance from the spatial's current zone to its origin, or
    /// nothing when free (treated as infinitely far by the capture rule).
    pub fn zone_distance(&self, s: u64) -> (d: Option<i64>)
        requires
            self.wf(),
            (s as int) < self.nodes@.len(),
            self.nodes@[s as int].spatial is Some,
        ensures
            d is Some <==> zone_distance_spec(*self, s as int) is Some,
            d is Some ==> d->Some_0 as int == zone_distance_spec(*self, s as int)->Some_0,
    {
        let _nn = self.nodes.len();
        proof {
            assert(self.node_wf(s as int));
        }
        let sp = self.nodes[s as usize].spatial.unwrap();
        let z = match sp.zone {
            None => {
                return None;
            },
            Some(z) => z,
        };
        if !self.nodes[z as usize].alive {
            return None;
        }
        proof {
            assert(self.node_wf(z as int));
        }
        let f = match &self.nodes[z as usize].zone {
            None => {
                return None;
            },
            Some(zo) => zo.field,
        };
        if self.nodes[f as usize].alive && self.nodes[f as usize].field.is_some()
            && self.nodes[f as usize].spatial.is_some() {
            Some(self.field_distance(f, s))
        } else {
            None
        }
    }

    /// Restore the spatial's pre-capture parent unconditionally; if it is
    /// currently held by a live zone, drop it from that zone's captured set
    /// and owe that zone's client one release notification.
    #[verifier::rlimit(100)]
    pub fn release(&mut self, s: u64) -> (ev: Vec<ZoneEvent>)
        requires
            old(self).wf(),
            (s as int) < old(self).nodes@.len(),
            old(self).nodes@[s as int].spatial is Some,
        ensures
            final(self).wf(),
            final(self).nodes@.len() == old(self).nodes@.len(),
            final(self).clients@ == old(self).clients@,
            final(self).zoneables@ == old(self).zoneables@,
            final(self).sounds@ == old(self).sounds@,
            final(self).keymaps@ == old(self).keymaps@,
            final(self).nodes@[s as int].spatial == Some(
                Spatial {
                    parent: old(self).nodes@[s as int].spatial->Some_0.old_parent,
                    old_parent: None,
                    zone: None,
                    x: old(self).nodes@[s as int].spatial->Some_0.x,
                    y: old(self).nodes@[s as int].spatial->Some_0.y,
                    z: old(self).nodes@[s as int].spatial->Some_0.z,
                },
            ),
            node_ident_eq(final(self).nodes@[s as int], old(self).nodes@[s as int]),
            node_misc_caps_eq(final(self).nodes@[s as int], old(self).nodes@[s as int]),
            final(self).nodes@[s as int].local_signals == old(
                self,
            ).nodes@[s as int].local_signals,
            final(self).nodes@[s as int].local_methods == old(
                self,
            ).nodes@[s as int].local_methods,
            final(self).nodes@[s as int].enabled == old(self).nodes@[s as int].enabled,
            final(self).nodes@[s as int].field == old(self).nodes@[s as int].field,
            final(self).nodes@[s as int].sound == old(self).nodes@[s as int].sound,
            match holding_zone(*old(self), s as int) {
                Some(zr) => {
                    &&& ev@.map_values(|e: ZoneEvent| e@) == seq![
                        ZoneEventView {
                            kind: NoticeKind::Release,
                            zone_node: zr,
                            uid: old(self).nodes@[s as int].uid@,
                            data: flex_str_encode(old(self).nodes@[s as int].uid@),
                        },
                    ]
                    &&& final(self).nodes@[zr].zone is Some
                    &&& final(self).nodes@[zr].zone->Some_0.captured@ == old(
                        self,
                    ).nodes@[zr].zone->Some_0.captured@.remove_value(s)
                    &&& final(self).nodes@[zr].zone->Some_0.field == old(
                        self,
                    ).nodes@[zr].zone->Some_0.field
                    &&& final(self).nodes@[zr].zone->Some_0.previous == old(
                        self,
                    ).nodes@[zr].zone->Some_0.previous
                    &&& (zr != s as int ==> final(self).nodes@[zr] == (crate::node::Node {
                        zone: final(self).nodes@[zr].zone,
                        ..old(self).nodes@[zr]
                    }))
                    &&& (zr == s as int ==> final(self).nodes@[s as int].zone is Some)
                    &&& (zr != s as int ==> final(self).nodes@[s as int].zone == old(self).nodes@[s as int].zone)
                    &&& (forall|j: int|
                        0 <= j < old(self).nodes@.len() && j != s as int && j != zr
                            ==> final(self).nodes@[j] == old(self).nodes@[j])
                },
                None => {
                    &&& ev@.len() == 0
                    &&& final(self).nodes@[s as int].zone == old(self).nodes@[s as int].zone
                    &&& (forall|j: int|
                        0 <= j < old(self).nodes@.len() && j != s as int ==> final(self).nodes@[j] == old(self).nodes@[j])
                },
            },
    {
        let _nn = self.nodes.len();
        proof {
            assert(old(self).node_wf(s as int));
        }
        let sp = self.nodes[s as usize].spatial.unwrap();
        let ghost w0 = *self;
        self.nodes[s as usize].spatial = Some(
            Spatial {
                parent: sp.old_parent,
                old_parent: None,
                zone: None,
                x: sp.x,
                y: sp.y,
                z: sp.z,
            },
        );
        proof {
            assert(w0.node_wf(s as int));
            assert(self.node_wf(s as int));
            lemma_one_node_changed(w0, *self, s as int);
        }
        let zr = match sp.zone {
            None => {
                return Vec::new();
            },
            Some(z) => z,
        };
        if !self.nodes[zr as usize].alive {
            return Vec::new();
        }
        let ghost w1 = *self;
        let has_zone = self.nodes[zr as usize].zone.is_some();
        if !has_zone {
            return Vec::new();
        }
        match &mut self.nodes[zr as usize].zone {
            Some(zo) => {
                proof {
                    assert(w1.node_wf(zr as int));
                }
                zo.captured.remove(s);
            },
            None => {},
        }
        proof {
            assert(w1.node_wf(zr as int));
            let cap = self.nodes@[zr as int].zone->Some_0.captured;
            let oldcap = w1.nodes@[zr as int].zone->Some_0.captured;
            assert forall|j: int| 0 <= j < cap@.len() implies ((#[trigger] cap@[j]) as int)
                < self.nodes@.len() by {
                let x = cap@[j];
                assert(cap@.contains(x));
                if x != s {
                    assert(oldcap@.contains(x));
                    let k = choose|k: int| 0 <= k < oldcap@.len() && oldcap@[k] == x;
                    assert((oldcap@[k] as int) < w1.nodes@.len());
                }
            }
            assert(self.node_wf(zr as int));
            lemma_one_node_changed(w1, *self, zr as int);
        }
        let uid = self.nodes[s as usize].uid.clone();
        let data = flex_write_str(&uid);
        let mut ev: Vec<ZoneEvent> = Vec::new();
        ev.push(ZoneEvent { kind: NoticeKind::Release, zone_node: zr, uid, data });
        proof {
            assert(ev@.map_values(|e: ZoneEvent| e@) =~= seq![
                ZoneEventView {
                    kind: NoticeKind::Release,
                    zone_node: zr as int,
                    uid: old(self).nodes@[s as int].uid@,
                    data: flex_str_encode(old(self).nodes@[s as int].uid@),
                },
            ]);
        }
        ev
    }
}

impl World {
    /// Attempt to capture spatial `s` into the zone on node `z`. The
    /// transition happens exactly when the zone's field resolves and offers
    /// a strictly smaller absolute distance than the spatial's current
    /// zone (infinitely far when free): first the spatial is released from
    /// the zone currently holding it, owing that client a release
    /// notification (a no-op for a free spatial, whose parent is left
    /// untouched), then its current parent is snapshotted as the new
    /// pre-capture snapshot, the zone takes it, and the new zone's client
    /// is owed a capture notification. Otherwise nothing changes and
    /// nothing is sent.
    /// Whether the zone on node `z` wins spatial `s` under the
    /// strict-inequality rule.
    pub fn capture_decision(&self, s: u64, z: u64) -> (r: bool)
        requires
            self.wf(),
            (s as int) < self.nodes@.len(),
            (z as int) < self.nodes@.len(),
            self.nodes@[s as int].spatial is Some,
            self.nodes@[z as int].zone is Some,
        ensures
            r == capture_wins(
                capture_new_distance(*self, s as int, z as int),
                zone_distance_spec(*self, s as int),
            ),
    {
        let _nn = self.nodes.len();
        proof {
            assert(self.node_wf(s as int));
            assert(self.node_wf(z as int));
        }
        let old_d = self.zone_distance(s);
        let zf = match &self.nodes[z as usize].zone {
            Some(zo) => zo.field,
            None => 0,
        };
        let new_d: Option<i64> = if self.nodes[zf as usize].alive && self.nodes[zf
            as usize].field.is_some() && self.nodes[zf as usize].spatial.is_some() {
            Some(self.field_distance(zf, s))
        } else {
            None
        };
        proof {
            if new_d is Some {
                lemma_field_distance_range(*self, zf as int, s as int);
            }
            if old_d is Some {
                let zr = holding_zone(*self, s as int)->Some_0;
                assert(self.node_wf(zr));
                lemma_field_distance_range(*self, zone_field(*self, zr), s as int);
            }
        }
        match new_d {
            None => false,
            Some(n) => {
                let na: i64 = if n < 0 {
                    -n
                } else {
                    n
                };
                match old_d {
                    None => true,
                    Some(o) => {
                        let oa: i64 = if o < 0 {
                            -o
                        } else {
                            o
                        };
                        na < oa
                    },
                }
            },
        }
    }

    /// Bind spatial `s` to the zone on node `z`: snapshot its current
    /// parent as the new pre-capture snapshot, point it at the zone, and
    /// enter it into the zone's captured set.
    #[verifier::rlimit(100)]
    fn bind_to_zone(&mut self, s: u64, z: u64)
        requires
            old(self).wf(),
            (s as int) < old(self).nodes@.len(),
            (z as int) < old(self).nodes@.len(),
            old(self).nodes@[s as int].spatial is Some,
            old(self).nodes@[z as int].zone is Some,
        ensures
            final(self).wf(),
            final(self).nodes@.len() == old(self).nodes@.len(),
            final(self).clients@ == old(self).clients@,
            final(self).zoneables@ == old(self).zoneables@,
            final(self).sounds@ == old(self).sounds@,
            final(self).keymaps@ == old(self).keymaps@,
            final(self).nodes@[s as int].spatial == Some(
                Spatial {
                    parent: old(self).nodes@[s as int].spatial->Some_0.parent,
                    old_parent: old(self).nodes@[s as int].spatial->Some_0.parent,
                    zone: Some(z),
                    x: old(self).nodes@[s as int].spatial->Some_0.x,
                    y: old(self).nodes@[s as int].spatial->Some_0.y,
                    z: old(self).nodes@[s as int].spatial->Some_0.z,
                },
            ),
            node_ident_eq(final(self).nodes@[s as int], old(self).nodes@[s as int]),
            node_misc_caps_eq(final(self).nodes@[s as int], old(self).nodes@[s as int]),
            final(self).nodes@[s as int].field == old(self).nodes@[s as int].field,
            final(self).nodes@[s as int].sound == old(self).nodes@[s as int].sound,
            final(self).nodes@[s as int].local_signals == old(self).nodes@[s as int].local_signals,
            final(self).nodes@[s as int].local_methods == old(self).nodes@[s as int].local_methods,
            final(self).nodes@[s as int].enabled == old(self).nodes@[s as int].enabled,
            (s as int != z as int ==> final(self).nodes@[s as int].zone == old(self).nodes@[s as int].zone),
            final(self).nodes@[z as int].zone is Some,
            final(self).nodes@[z as int].zone->Some_0.captured@.contains(s),
            forall|x: u64|
                x != s ==> final(self).nodes@[z as int].zone->Some_0.captured@.contains(x)
                    == old(self).nodes@[z as int].zone->Some_0.captured@.contains(x),
            final(self).nodes@[z as int].zone->Some_0.field == old(self).nodes@[z as int].zone->Some_0.field,
            final(self).nodes@[z as int].zone->Some_0.previous == old(self).nodes@[z as int].zone->Some_0.previous,
            forall|j: int|
                0 <= j < old(self).nodes@.len() && j != s as int && j != z as int
                    ==> final(self).nodes@[j] == old(self).nodes@[j],
    {
        let _nn = self.nodes.len();
        proof {
            assert(self.node_wf(s as int));
            assert(self.node_wf(z as int));
        }
        let ghost w1 = *self;
        let sp = self.nodes[s as usize].spatial.unwrap();
        self.nodes[s as usize].spatial = Some(
            Spatial {
                parent: sp.parent,
                old_parent: sp.parent,
                zone: Some(z),
                x: sp.x,
                y: sp.y,
                z: sp.z,
            },
        );
        proof {
            assert(w1.node_wf(s as int));
            assert(self.node_wf(s as int));
            lemma_one_node_changed(w1, *self, s as int);
        }
        let ghost w2 = *self;
        match &mut self.nodes[z as usize].zone {
            Some(zo) => {
                proof {
                    assert(w2.node_wf(z as int));
                }
                zo.captured.add(s);
            },
            None => {},
        }
        proof {
            assert(w2.node_wf(z as int));
            assert(zone_wf(w2.nodes@[z as int].zone->Some_0, w2.nodes@.len() as int));
            let cap = self.nodes@[z as int].zone->Some_0.captured;
            let oldcap = w2.nodes@[z as int].zone->Some_0.captured;
            assert forall|j: int| 0 <= j < cap@.len() implies ((#[trigger] cap@[j]) as int)
                < self.nodes@.len() by {
                let x = cap@[j];
                assert(cap@.contains(x));
                if x != s {
                    assert(oldcap@.contains(x));
                    let k = choose|k: int| 0 <= k < oldcap@.len() && oldcap@[k] == x;
                    assert((oldcap@[k] as int) < w2.nodes@.len());
                }
            }
            assert(self.node_wf(z as int));
            lemma_one_node_changed(w2, *self, z as int);
            assert(w2.nodes@[z as int].zone is Some);
            if z != s {
                assert(w2.nodes@[z as int].zone == old(self).nodes@[z as int].zone);
            }
        }
    }

    #[verifier::rlimit(100)]
    #[verifier::spinoff_prover]
    pub fn capture(&mut self, s: u64, z: u64) -> (ev: Vec<ZoneEvent>)
        requires
            old(self).wf(),
            (s as int) < old(self).nodes@.len(),
            (z as int) < old(self).nodes@.len(),
            old(self).nodes@[s as int].spatial is Some,
            old(self).nodes@[z as int].zone is Some,
            old(self).node_alive(z as int),
        ensures
            final(self).wf(),
            final(self).nodes@.len() == old(self).nodes@.len(),
            final(self).clients@ == old(self).clients@,
            final(self).zoneables@ == old(self).zoneables@,
            final(self).sounds@ == old(self).sounds@,
            final(self).keymaps@ == old(self).keymaps@,
            !capture_wins(
                capture_new_distance(*old(self), s as int, z as int),
                zone_distance_spec(*old(self), s as int),
            ) ==> (*final(self) == *old(self) && ev@.len() == 0),
            capture_wins(
                capture_new_distance(*old(self), s as int, z as int),
                zone_distance_spec(*old(self), s as int),
            ) ==> ({
                let zr_opt = holding_zone(*old(self), s as int);
                let osp = old(self).nodes@[s as int].spatial->Some_0;
                &&& final(self).nodes@[s as int].spatial == Some(
                    (match zr_opt {
                        Some(_) => Spatial {
                            parent: osp.old_parent,
                            old_parent: osp.old_parent,
                            zone: Some(z),
                            x: osp.x,
                            y: osp.y,
                            z: osp.z,
                        },
                        None => Spatial {
                            parent: osp.parent,
                            old_parent: osp.parent,
                            zone: Some(z),
                            x: osp.x,
                            y: osp.y,
                            z: osp.z,
                        },
                    }),
                )
                &&& node_ident_eq(final(self).nodes@[s as int], old(self).nodes@[s as int])
                &&& node_misc_caps_eq(final(self).nodes@[s as int], old(self).nodes@[s as int])
                &&& final(self).nodes@[s as int].field == old(self).nodes@[s as int].field
                &&& final(self).nodes@[s as int].sound == old(self).nodes@[s as int].sound
                &&& final(self).nodes@[s as int].local_signals == old(self).nodes@[s as int].local_signals
                &&& final(self).nodes@[s as int].local_methods == old(self).nodes@[s as int].local_methods
                &&& final(self).nodes@[s as int].enabled == old(self).nodes@[s as int].enabled
                &&& ((s as int != z as int && (match zr_opt {
                    Some(zr) => zr != s as int,
                    None => true,
                })) ==> final(self).nodes@[s as int].zone == old(self).nodes@[s as int].zone)
                &&& ev@.map_values(|e: ZoneEvent| e@) == (match zr_opt {
                    Some(zr) => seq![
                        ZoneEventView {
                            kind: NoticeKind::Release,
                            zone_node: zr,
                            uid: old(self).nodes@[s as int].uid@,
                            data: flex_str_encode(old(self).nodes@[s as int].uid@),
                        },
                    ],
                    None => Seq::<ZoneEventView>::empty(),
                }) + seq![
                    ZoneEventView {
                        kind: NoticeKind::Capture,
                        zone_node: z as int,
                        uid: old(self).nodes@[s as int].uid@,
                        data: flex_str_encode(old(self).nodes@[s as int].uid@),
                    },
                ]
                &&& final(self).nodes@[z as int].zone is Some
                &&& final(self).nodes@[z as int].zone->Some_0.captured@.contains(s)
                &&& (forall|x: u64|
                    x != s ==> final(self).nodes@[z as int].zone->Some_0.captured@.contains(x)
                        == old(self).nodes@[z as int].zone->Some_0.captured@.contains(x))
                &&& (match zr_opt {
                    Some(zr) => zr != z as int ==> final(self).nodes@[zr].zone->Some_0.captured@
                        == old(self).nodes@[zr].zone->Some_0.captured@.remove_value(s),
                    None => true,
                })
                &&& (forall|j: int|
                    0 <= j < old(self).nodes@.len() && j != s as int && j != z as int
                        && (match zr_opt {
                        Some(zr) => j != zr,
                        None => true,
                    }) ==> final(self).nodes@[j] == old(self).nodes@[j])
            }),
    {
        let _nn = self.nodes.len();
        proof {
            assert(self.node_wf(s as int));
            assert(self.node_wf(z as int));
        }
        let wins = self.capture_decision(s, z);
        if !wins {
            return Vec::new();
        }
        let sp0 = self.nodes[s as usize].spatial.unwrap();
        let held: bool = match sp0.zone {
            Some(zr) => self.nodes[zr as usize].alive && self.nodes[zr as usize].zone.is_some(),
            None => false,
        };
        let mut ev = if held {
            self.release(s)
        } else {
            Vec::new()
        };
        self.bind_to_zone(s, z);
        let ghost pre_push = ev@;
        let uid = self.nodes[s as usize].uid.clone();
        let data = flex_write_str(&uid);
        ev.push(ZoneEvent { kind: NoticeKind::Capture, zone_node: z, uid, data });
        proof {
            lemma_zone_event_map_push(
                pre_push,
                ZoneEvent {
                    kind: NoticeKind::Capture,
                    zone_node: z,
                    uid: final(self).nodes@[s as int].uid,
                    data: ev@[ev@.len() - 1].data,
                },
            );
            assert(ev@.map_values(|e: ZoneEvent| e@) =~= pre_push.map_values(
                |e: ZoneEvent| e@,
            ).push(ev@[ev@.len() - 1]@));
        }
        ev
    }

    /// Attach the zone capability to a node that already carries a spatial;
    /// at most once. Registers the capture, release and recompute signals.
    #[verifier::rlimit(100)]
    pub fn add_zone(&mut self, id: u64, field: u64) -> (r: Result<(), NodeError>)
        requires
            old(self).wf(),
            (id as int) < old(self).nodes@.len(),
            (field as int) < old(self).nodes@.len(),
        ensures
            final(self).wf(),
            final(self).nodes@.len() == old(self).nodes@.len(),
            final(self).clients@ == old(self).clients@,
            final(self).zoneables@ == old(self).zoneables@,
            final(self).sounds@ == old(self).sounds@,
            final(self).keymaps@ == old(self).keymaps@,
            forall|j: int|
                0 <= j < old(self).nodes@.len() && j != id as int ==> final(self).nodes@[j]
                    == old(self).nodes@[j],
            match r {
                Ok(_) => {
                    &&& old(self).nodes@[id as int].spatial is Some
                    &&& old(self).nodes@[id as int].zone is None
                    &&& final(self).nodes@[id as int].zone matches Some(zo) && zo.field == field
                        && zo.captured@.len() == 0 && zo.previous@.len() == 0
                    &&& node_ident_eq(final(self).nodes@[id as int], old(self).nodes@[id as int])
                    &&& node_misc_caps_eq(
                        final(self).nodes@[id as int],
                        old(self).nodes@[id as int],
                    )
                    &&& final(self).nodes@[id as int].spatial == old(self).nodes@[id as int].spatial
                    &&& final(self).nodes@[id as int].field == old(self).nodes@[id as int].field
                    &&& final(self).nodes@[id as int].sound == old(self).nodes@[id as int].sound
                    &&& tbl_lookup(final(self).nodes@[id as int].local_signals@, "capture"@)
                        == Some(HANDLER_ZONE_CAPTURE)
                    &&& tbl_lookup(final(self).nodes@[id as int].local_signals@, "release"@)
                        == Some(HANDLER_ZONE_RELEASE)
                    &&& tbl_lookup(final(self).nodes@[id as int].local_signals@, "update"@)
                        == Some(HANDLER_ZONE_UPDATE)
                    &&& (forall|k: Seq<char>|
                        k != "capture"@ && k != "release"@ && k != "update"@ ==> tbl_lookup(
                            final(self).nodes@[id as int].local_signals@,
                            k,
                        ) == tbl_lookup(old(self).nodes@[id as int].local_signals@, k))
                },
                Err(e) => {
                    &&& (e is SpatialMissing || e is SlotOccupied)
                    &&& (e is SpatialMissing <==> old(self).nodes@[id as int].spatial is None)
                    &&& (e is SlotOccupied ==> old(self).nodes@[id as int].zone is Some)
                    &&& *final(self) == *old(self)
                },
            },
    {
        let _nn = self.nodes.len();
        if self.nodes[id as usize].spatial.is_none() {
            return Err(NodeError::SpatialMissing);
        }
        if self.nodes[id as usize].zone.is_some() {
            return Err(NodeError::SlotOccupied);
        }
        proof {
            reveal_strlit("capture");
            reveal_strlit("release");
            reveal_strlit("update");
            assert("capture"@[0] == 'c' && "release"@[0] == 'r' && "update"@[0] == 'u');
        }
        let s1 = "capture";
        self.add_local_signal(id, s1.to_string(), HANDLER_ZONE_CAPTURE);
        let s2 = "release";
        self.add_local_signal(id, s2.to_string(), HANDLER_ZONE_RELEASE);
        let s3 = "update";
        self.add_local_signal(id, s3.to_string(), HANDLER_ZONE_UPDATE);
        let ghost prev = *self;
        self.nodes[id as usize].zone = Some(
            Zone { field, captured: crate::registry::Registry::new(), previous: Vec::new() },
        );
        proof {
            assert(prev.node_wf(id as int));
            assert(self.node_wf(id as int));
            lemma_one_node_changed(prev, *self, id as int);
        }
        Ok(())
    }
}

/// Mapping a pushed event sequence to views pushes the event's view.
proof fn lemma_zone_event_map_push(a: Seq<ZoneEvent>, e: ZoneEvent)
    ensures
        a.push(e).map_values(|x: ZoneEvent| x@) == a.map_values(|x: ZoneEvent| x@).push(e@),
{
    assert(a.push(e).map_values(|x: ZoneEvent| x@) =~= a.map_values(|x: ZoneEvent| x@).push(
        e@,
    ));
}

/// Every distance a resolvable field yields over well-formed state is small
/// enough that its absolute value stays in range.
pub proof fn lemma_field_distance_range(w: World, f: int, s: int)
    requires
        w.wf(),
        0 <= f < w.nodes@.len(),
        0 <= s < w.nodes@.len(),
        w.nodes@[f].field is Some,
        w.nodes@[f].spatial is Some,
        w.nodes@[s].spatial is Some,
    ensures
        -COORD_LIMIT <= field_distance_spec(w, f, s) <= 0x1_8000_0000,
{
    assert(w.node_wf(f));
    assert(w.node_wf(s));
    let fs = w.nodes@[f].spatial->Some_0;
    let ss = w.nodes@[s].spatial->Some_0;
    match w.nodes@[f].field->Some_0 {
        crate::node::FieldShape::Cylinder { length, radius } => {
            crate::math::lemma_cyl_distance_range(
                length as int,
                radius as int,
                ss.x - fs.x,
                ss.y - fs.y,
                ss.z - fs.z,
            );
        },
    }
}

impl World {
    /// Restore one spatial's pre-capture parent and clear its zone link,
    /// silently: the piece of release that zone teardown performs when the
    /// zone's own channel is already gone.
    fn restore_spatial(&mut self, s: u64)
        requires
            old(self).wf(),
            (s as int) < old(self).nodes@.len(),
            old(self).nodes@[s as int].spatial is Some,
        ensures
            final(self).wf(),
            final(self).nodes@.len() == old(self).nodes@.len(),
            final(self).clients@ == old(self).clients@,
            final(self).zoneables@ == old(self).zoneables@,
            final(self).sounds@ == old(self).sounds@,
            final(self).keymaps@ == old(self).keymaps@,
            forall|j: int|
                0 <= j < old(self).nodes@.len() && j != s as int ==> final(self).nodes@[j]
                    == old(self).nodes@[j],
            final(self).nodes@[s as int] == crate::spatial::node_with_spatial(
                old(self).nodes@[s as int],
                Spatial {
                    parent: old(self).nodes@[s as int].spatial->Some_0.old_parent,
                    old_parent: None,
                    zone: None,
                    x: old(self).nodes@[s as int].spatial->Some_0.x,
                    y: old(self).nodes@[s as int].spatial->Some_0.y,
                    z: old(self).nodes@[s as int].spatial->Some_0.z,
                },
            ),
    {
        let _nn = self.nodes.len();
        proof {
            assert(self.node_wf(s as int));
        }
        let ghost prev = *self;
        let sp = self.nodes[s as usize].spatial.unwrap();
        self.nodes[s as usize].spatial = Some(
            Spatial {
                parent: sp.old_parent,
                old_parent: None,
                zone: None,
                x: sp.x,
                y: sp.y,
                z: sp.z,
            },
        );
        proof {
            assert(prev.node_wf(s as int));
            assert(self.node_wf(s as int));
            lemma_one_node_changed(prev, *self, s as int);
        }
    }

    /// Restore the pre-capture parent of everything the (already dead)
    /// node's zone still captured; nothing else changes.
    #[verifier::rlimit(100)]
    #[verifier::spinoff_prover]
    fn restore_captured_of(&mut self, id: u64)
        requires
            old(self).wf(),
            (id as int) < old(self).nodes@.len(),
            !old(self).nodes@[id as int].alive,
        ensures
            final(self).wf(),
            final(self).nodes@.len() == old(self).nodes@.len(),
            final(self).clients@ == old(self).clients@,
            final(self).zoneables@ == old(self).zoneables@,
            final(self).sounds@ == old(self).sounds@,
            final(self).keymaps@ == old(self).keymaps@,
            forall|j: int|
                0 <= j < old(self).nodes@.len() ==> ((#[trigger] final(self).nodes@[j]) == old(self).nodes@[j] || (
                    old(self).nodes@[id as int].zone is Some
                        && old(self).nodes@[id as int].zone->Some_0.captured@.contains(j as u64)
                        && j != id as int && old(self).nodes@[j].alive && old(self).nodes@[j].spatial is Some
                        && final(self).nodes@[j] == crate::spatial::node_with_spatial(
                        old(self).nodes@[j],
                        Spatial {
                            parent: old(self).nodes@[j].spatial->Some_0.old_parent,
                            old_parent: None,
                            zone: None,
                            x: old(self).nodes@[j].spatial->Some_0.x,
                            y: old(self).nodes@[j].spatial->Some_0.y,
                            z: old(self).nodes@[j].spatial->Some_0.z,
                        },
                    )
                )),
            old(self).nodes@[id as int].zone is Some ==> (forall|k: int|
                0 <= k < old(self).nodes@[id as int].zone->Some_0.captured@.len() ==> ({
                    let x = (#[trigger] old(self).nodes@[id as int].zone->Some_0.captured@[k]) as int;
                    (x != id as int && old(self).nodes@[x].alive && old(self).nodes@[x].spatial
                        is Some) ==> final(self).nodes@[x].spatial == Some(
                        Spatial {
                            parent: old(self).nodes@[x].spatial->Some_0.old_parent,
                            old_parent: None,
                            zone: None,
                            x: old(self).nodes@[x].spatial->Some_0.x,
                            y: old(self).nodes@[x].spatial->Some_0.y,
                            z: old(self).nodes@[x].spatial->Some_0.z,
                        },
                    )
                })),
    {
        let _nn = self.nodes.len();
        proof {
            assert(self.node_wf(id as int));
        }
        let cap_list: Vec<u64> = match &self.nodes[id as usize].zone {
            Some(zo) => zo.captured.get_valid_contents(),
            None => Vec::new(),
        };
        let n = cap_list.len();
        let mut i: usize = 0;
        while i < n
            invariant
                0 <= i <= n,
                n == cap_list@.len(),
                self.wf(),
                self.nodes@.len() == old(self).nodes@.len(),
                (id as int) < self.nodes@.len(),
                cap_list@.no_duplicates(),
                forall|k: int|
                    0 <= k < cap_list@.len() ==> ((#[trigger] cap_list@[k]) as int)
                        < self.nodes@.len(),
                old(self).nodes@[id as int].zone is Some ==> cap_list@ == old(self).nodes@[id as int].zone->Some_0.captured@,
                old(self).nodes@[id as int].zone is None ==> cap_list@.len() == 0,
                self.clients@ == old(self).clients@,
                self.zoneables@ == old(self).zoneables@,
                self.sounds@ == old(self).sounds@,
                self.keymaps@ == old(self).keymaps@,
                forall|j: int|
                    0 <= j < old(self).nodes@.len() ==> ((#[trigger] self.nodes@[j]) == old(self).nodes@[j] || (
                        old(self).nodes@[id as int].zone is Some
                            && old(self).nodes@[id as int].zone->Some_0.captured@.contains(j as u64)
                            && j != id as int && old(self).nodes@[j].alive && old(self).nodes@[j].spatial is Some
                            && self.nodes@[j] == crate::spatial::node_with_spatial(
                            old(self).nodes@[j],
                            Spatial {
                                parent: old(self).nodes@[j].spatial->Some_0.old_parent,
                                old_parent: None,
                                zone: None,
                                x: old(self).nodes@[j].spatial->Some_0.x,
                                y: old(self).nodes@[j].spatial->Some_0.y,
                                z: old(self).nodes@[j].spatial->Some_0.z,
                            },
                        )
                    )),
                forall|k: int|
                    0 <= k < i ==> ({
                        let x = (#[trigger] cap_list@[k]) as int;
                        (x != id as int && old(self).nodes@[x].alive && old(self).nodes@[x].spatial
                            is Some) ==> self.nodes@[x].spatial == Some(
                            Spatial {
                                parent: old(self).nodes@[x].spatial->Some_0.old_parent,
                                old_parent: None,
                                zone: None,
                                x: old(self).nodes@[x].spatial->Some_0.x,
                                y: old(self).nodes@[x].spatial->Some_0.y,
                                z: old(self).nodes@[x].spatial->Some_0.z,
                            },
                        )
                    }),
                forall|k: int|
                    i <= k < cap_list@.len() ==> self.nodes@[(#[trigger] cap_list@[k]) as int]
                        == old(self).nodes@[cap_list@[k] as int],
            decreases n - i,
        {
            let _nn2 = self.nodes.len();
            let x = cap_list[i];
            let ghost before = *self;
            if x != id && self.nodes[x as usize].alive && self.nodes[x as usize].spatial.is_some() {
                self.restore_spatial(x);
                proof {
                    assert(before.nodes@[x as int] == old(self).nodes@[x as int]);
                    assert forall|k: int|
                        i + 1 <= k < cap_list@.len() implies self.nodes@[(
                        #[trigger] cap_list@[k]) as int] == old(self).nodes@[cap_list@[k] as int] by {
                        if cap_list@[k] != x {
                            assert(self.nodes@[cap_list@[k] as int] == before.nodes@[cap_list@[k] as int]);
                        } else {
                            assert(cap_list@[k] == cap_list@[i as int]);
                        }
                    }
                    assert(cap_list@.contains(x));
                }
            }
            i += 1;
        }
    }

    /// Remove a node from its owning client's scenegraph (the owning
    /// reference), which destroys it: the node goes dead, its entry leaves
    /// the per-kind registries as a dropped weak reference would, and a
    /// zone it carried releases every spatial it still captured, restoring
    /// their pre-capture parents. A node already destroyed, or whose
    /// client is gone, stays as it is.
    #[verifier::rlimit(100)]
    #[verifier::spinoff_prover]
    pub fn destroy(&mut self, id: u64)
        requires
            old(self).wf(),
            (id as int) < old(self).nodes@.len(),
        ensures
            final(self).wf(),
            final(self).nodes@.len() == old(self).nodes@.len(),
            !destroy_active(*old(self), id as int) ==> *final(self) == *old(self),
            destroy_active(*old(self), id as int) ==> ({
                &&& !final(self).nodes@[id as int].alive
                &&& tbl_lookup(
                    final(self).clients@[old(self).nodes@[id as int].client->Some_0 as int].scenegraph@,
                    old(self).nodes@[id as int].path@,
                ) is None
                &&& (forall|j: int|
                    0 <= j < old(self).nodes@.len() && j != id as int
                        ==> final(self).nodes@[j].alive == old(self).nodes@[j].alive)
                &&& (old(self).nodes@[id as int].spatial is Some ==> final(self).zoneables@
                    == old(self).zoneables@.remove_value(id))
                &&& (old(self).nodes@[id as int].spatial is None ==> final(self).zoneables@
                    == old(self).zoneables@)
                &&& (old(self).nodes@[id as int].sound is Some ==> final(self).sounds@ == old(self).sounds@.remove_value(id))
                &&& (old(self).nodes@[id as int].sound is None ==> final(self).sounds@ == old(self).sounds@)
                &&& final(self).clients@.len() == old(self).clients@.len()
                &&& final(self).keymaps@ == old(self).keymaps@
                &&& (forall|cc: int|
                    0 <= cc < old(self).clients@.len() ==> (#[trigger] final(self).clients@[cc]).alive
                        == old(self).clients@[cc].alive && final(self).clients@[cc].has_transport
                        == old(self).clients@[cc].has_transport)
                &&& (forall|j: int|
                    0 <= j < old(self).nodes@.len() ==> node_skeleton_eq(
                        #[trigger] final(self).nodes@[j],
                        old(self).nodes@[j],
                    ))
                &&& (old(self).nodes@[id as int].zone is Some ==> (forall|k: int|
                    0 <= k < old(self).nodes@[id as int].zone->Some_0.captured@.len() ==> ({
                        let x = (#[trigger] old(self).nodes@[id as int].zone->Some_0.captured@[k]) as int;
                        (x != id as int && old(self).nodes@[x].alive && old(self).nodes@[x].spatial
                            is Some) ==> final(self).nodes@[x].spatial == Some(
                            Spatial {
                                parent: old(self).nodes@[x].spatial->Some_0.old_parent,
                                old_parent: None,
                                zone: None,
                                x: old(self).nodes@[x].spatial->Some_0.x,
                                y: old(self).nodes@[x].spatial->Some_0.y,
                                z: old(self).nodes@[x].spatial->Some_0.z,
                            },
                        )
                    })))
            }),
    {
        let _nn = self.nodes.len();
        let _nc = self.clients.len();
        proof {
            assert(self.node_wf(id as int));
        }
        if !self.nodes[id as usize].alive {
            return ;
        }
        let c: u64 = match self.nodes[id as usize].client {
            Some(c) => c,
            None => {
                return ;
            },
        };
        if !self.clients[c as usize].alive {
            return ;
        }
        let path = self.nodes[id as usize].path.clone();
        proof {
            assert(old(self).client_wf(c as int));
        }
        tbl_remove(&mut self.clients[c as usize].scenegraph, &path);
        proof {
            assert forall|cc: int| 0 <= cc < self.clients@.len() implies self.client_wf(cc) by {
                assert(old(self).client_wf(cc));
                if cc != c as int {
                    assert(self.clients@[cc] == old(self).clients@[cc]);
                } else {
                    assert forall|j: int|
                        0 <= j < self.clients@[cc].scenegraph@.len() implies ((
                        #[trigger] self.clients@[cc].scenegraph@[j]).1 as int)
                            < self.nodes@.len() by {
                        let e = self.clients@[cc].scenegraph@[j];
                        assert(old(self).clients@[cc].scenegraph@.contains(e));
                        let k = choose|k: int|
                            0 <= k < old(self).clients@[cc].scenegraph@.len() && old(self).clients@[cc].scenegraph@[k] == e;
                        assert((old(self).clients@[cc].scenegraph@[k].1 as int)
                            < old(self).nodes@.len());
                    }
                }
            }
            assert forall|j: int| 0 <= j < self.nodes@.len() implies self.node_wf(j) by {
                assert(old(self).node_wf(j));
            }
            assert(self.wf());
        }
        let ghost w1 = *self;
        self.nodes[id as usize].alive = false;
        proof {
            assert(w1.node_wf(id as int));
            assert(self.node_wf(id as int));
            lemma_one_node_changed(w1, *self, id as int);
        }
        let ghost mid0 = *self;
        self.destroy_cleanup(id);
        proof {
            assert(mid0.nodes@[id as int].spatial == old(self).nodes@[id as int].spatial);
            assert(mid0.nodes@[id as int].sound == old(self).nodes@[id as int].sound);
            assert(mid0.nodes@[id as int].zone == old(self).nodes@[id as int].zone);
            assert forall|j: int|
                0 <= j < old(self).nodes@.len() implies node_skeleton_eq(
                #[trigger] self.nodes@[j],
                old(self).nodes@[j],
            ) by {
                assert(node_skeleton_eq(self.nodes@[j], mid0.nodes@[j]));
                assert(node_skeleton_eq(mid0.nodes@[j], old(self).nodes@[j]));
            }
            assert forall|j: int|
                0 <= j < old(self).nodes@.len() && j != id as int implies self.nodes@[j].alive
                    == old(self).nodes@[j].alive by {
                assert(self.nodes@[j].alive == mid0.nodes@[j].alive);
            }
        }
    }

    /// The weak-death consequences of a node that has just gone dead: it
    /// leaves its original's alias registry and the per-kind registries,
    /// its holder's captured set forgets it, and a zone it carried has
    /// every captured spatial's pre-capture parent restored.
    #[verifier::rlimit(100)]
    #[verifier::spinoff_prover]
    fn destroy_cleanup(&mut self, id: u64)
        requires
            old(self).wf(),
            (id as int) < old(self).nodes@.len(),
            !old(self).nodes@[id as int].alive,
        ensures
            final(self).wf(),
            final(self).nodes@.len() == old(self).nodes@.len(),
            final(self).clients@ == old(self).clients@,
            final(self).keymaps@ == old(self).keymaps@,
            (old(self).nodes@[id as int].spatial is Some ==> final(self).zoneables@ == old(self).zoneables@.remove_value(id)),
            (old(self).nodes@[id as int].spatial is None ==> final(self).zoneables@ == old(self).zoneables@),
            (old(self).nodes@[id as int].sound is Some ==> final(self).sounds@ == old(self).sounds@.remove_value(id)),
            (old(self).nodes@[id as int].sound is None ==> final(self).sounds@ == old(self).sounds@),
            forall|j: int|
                0 <= j < old(self).nodes@.len() ==> #[trigger] final(self).nodes@[j].alive == old(self).nodes@[j].alive,
            forall|j: int|
                0 <= j < old(self).nodes@.len() ==> node_skeleton_eq(
                    #[trigger] final(self).nodes@[j],
                    old(self).nodes@[j],
                ),
            old(self).nodes@[id as int].zone is Some ==> (forall|k: int|
                0 <= k < old(self).nodes@[id as int].zone->Some_0.captured@.len() ==> ({
                    let x = (#[trigger] old(self).nodes@[id as int].zone->Some_0.captured@[k]) as int;
                    (x != id as int && old(self).nodes@[x].alive && old(self).nodes@[x].spatial
                        is Some) ==> final(self).nodes@[x].spatial == Some(
                        Spatial {
                            parent: old(self).nodes@[x].spatial->Some_0.old_parent,
                            old_parent: None,
                            zone: None,
                            x: old(self).nodes@[x].spatial->Some_0.x,
                            y: old(self).nodes@[x].spatial->Some_0.y,
                            z: old(self).nodes@[x].spatial->Some_0.z,
                        },
                    )
                })),
    {
        let _nn = self.nodes.len();
        let _nc = self.clients.len();
        proof {
            assert(self.node_wf(id as int));
        }
        self.unregister_dead(id);
        let ghost mid = *self;
        self.restore_captured_of(id);
        proof {
            assert(mid.nodes@[id as int].zone == old(self).nodes@[id as int].zone);
            assert forall|j: int|
                0 <= j < old(self).nodes@.len() implies #[trigger] self.nodes@[j].alive == old(self).nodes@[j].alive by {
                if self.nodes@[j] != mid.nodes@[j] {
                }
            }
            assert forall|j: int|
                0 <= j < old(self).nodes@.len() implies node_skeleton_eq(
                #[trigger] self.nodes@[j],
                old(self).nodes@[j],
            ) by {
                if self.nodes@[j] != mid.nodes@[j] {
                    assert(node_skeleton_eq(mid.nodes@[j], old(self).nodes@[j]));
                }
            }
            if old(self).nodes@[id as int].zone is Some {
                assert forall|k: int|
                    0 <= k < old(self).nodes@[id as int].zone->Some_0.captured@.len() implies ({
                    let x = (#[trigger] old(self).nodes@[id as int].zone->Some_0.captured@[k]) as int;
                    (x != id as int && old(self).nodes@[x].alive && old(self).nodes@[x].spatial
                        is Some) ==> self.nodes@[x].spatial == Some(
                        Spatial {
                            parent: old(self).nodes@[x].spatial->Some_0.old_parent,
                            old_parent: None,
                            zone: None,
                            x: old(self).nodes@[x].spatial->Some_0.x,
                            y: old(self).nodes@[x].spatial->Some_0.y,
                            z: old(self).nodes@[x].spatial->Some_0.z,
                        },
                    )
                }) by {
                    let x = old(self).nodes@[id as int].zone->Some_0.captured@[k] as int;
                    assert(mid.nodes@[id as int].zone->Some_0.captured@[k] == old(self).nodes@[id as int].zone->Some_0.captured@[k]);
                    assert(mid.nodes@[x].spatial == old(self).nodes@[x].spatial);
                    assert(mid.nodes@[x].alive == old(self).nodes@[x].alive);
                }
            }
        }
    }

    /// Drop a dead node from its original's alias registry, the zoneable
    /// registry, its holder's captured set, and the sound registry, as its
    /// dying weak references would.
    #[verifier::rlimit(100)]
    #[verifier::spinoff_prover]
    fn unregister_dead(&mut self, id: u64)
        requires
            old(self).wf(),
            (id as int) < old(self).nodes@.len(),
            !old(self).nodes@[id as int].alive,
        ensures
            final(self).wf(),
            final(self).nodes@.len() == old(self).nodes@.len(),
            final(self).clients@ == old(self).clients@,
            final(self).keymaps@ == old(self).keymaps@,
            (old(self).nodes@[id as int].spatial is Some ==> final(self).zoneables@ == old(self).zoneables@.remove_value(id)),
            (old(self).nodes@[id as int].spatial is None ==> final(self).zoneables@ == old(self).zoneables@),
            (old(self).nodes@[id as int].sound is Some ==> final(self).sounds@ == old(self).sounds@.remove_value(id)),
            (old(self).nodes@[id as int].sound is None ==> final(self).sounds@ == old(self).sounds@),
            forall|j: int|
                0 <= j < old(self).nodes@.len() ==> #[trigger] final(self).nodes@[j].alive == old(self).nodes@[j].alive,
            forall|j: int|
                0 <= j < old(self).nodes@.len() ==> #[trigger] final(self).nodes@[j].spatial == old(self).nodes@[j].spatial,
            forall|j: int|
                0 <= j < old(self).nodes@.len() ==> node_skeleton_eq(
                    #[trigger] final(self).nodes@[j],
                    old(self).nodes@[j],
                ),
            final(self).nodes@[id as int].zone == old(self).nodes@[id as int].zone,
    {
        let _nn = self.nodes.len();
        let _nc = self.clients.len();
        proof {
            assert(self.node_wf(id as int));
        }
        // a proxy node leaves its original's alias registry, as its weak
        // registration would die
        let alias_orig: Option<u64> = match &self.nodes[id as usize].alias {
            Some(a) => Some(a.original),
            None => None,
        };
        match alias_orig {
            Some(orig) => {
                let ghost w2 = *self;
                proof {
                    assert(w2.node_wf(orig as int));
                }
                self.nodes[orig as usize].aliases.remove(id);
                proof {
                    assert(w2.node_wf(orig as int));
                    let al = self.nodes@[orig as int].aliases;
                    let oldal = w2.nodes@[orig as int].aliases;
                    assert forall|j: int|
                        0 <= j < al@.len() implies (orig as int) < ((#[trigger] al@[j]) as int)
                            < self.nodes@.len() by {
                        let x = al@[j];
                        assert(al@.contains(x));
                        if x != id {
                            assert(oldal@.contains(x));
                            let k = choose|k: int| 0 <= k < oldal@.len() && oldal@[k] == x;
                            assert((orig as int) < (oldal@[k] as int) < w2.nodes@.len());
                        } else {
                            assert(!al@.contains(id));
                        }
                    }
                    assert(self.node_wf(orig as int));
                    lemma_one_node_changed(w2, *self, orig as int);
                }
            },
            None => {},
        }
        let ghost ga = *self;
        // a spatial leaves the zoneable registry and its holder's captured set
        let holder: Option<u64> = match &self.nodes[id as usize].spatial {
            Some(sp) => sp.zone,
            None => None,
        };
        if self.nodes[id as usize].spatial.is_some() {
            let ghost wza = *self;
            self.zoneables.remove(id);
            proof {
                assert forall|j: int|
                    0 <= j < self.zoneables@.len() implies ((#[trigger] self.zoneables@[j]) as int)
                        < self.nodes@.len() by {
                    let x = self.zoneables@[j];
                    assert(self.zoneables@.contains(x));
                    if x != id {
                        assert(wza.zoneables@.contains(x));
                        let k = choose|k: int|
                            0 <= k < wza.zoneables@.len() && wza.zoneables@[k] == x;
                        assert((wza.zoneables@[k] as int) < wza.nodes@.len());
                    }
                }
                assert forall|j: int| 0 <= j < self.nodes@.len() implies self.node_wf(j) by {
                    assert(wza.node_wf(j));
                }
                assert forall|cc: int| 0 <= cc < self.clients@.len() implies self.client_wf(
                    cc,
                ) by {
                    assert(wza.client_wf(cc));
                }
                assert(self.wf());
            }
            match holder {
                Some(zr) => {
                    proof {
                        assert(self.node_wf(id as int));
                    }
                    if self.nodes[zr as usize].alive {
                        let ghost w3 = *self;
                        match &mut self.nodes[zr as usize].zone {
                            Some(zo) => {
                                proof {
                                    assert(w3.node_wf(zr as int));
                                }
                                zo.captured.remove(id);
                            },
                            None => {},
                        }
                        proof {
                            assert(w3.node_wf(zr as int));
                            if self.nodes@[zr as int].zone is Some {
                                let cap = self.nodes@[zr as int].zone->Some_0.captured;
                                let oldcap = w3.nodes@[zr as int].zone->Some_0.captured;
                                assert forall|j: int|
                                    0 <= j < cap@.len() implies ((#[trigger] cap@[j]) as int)
                                        < self.nodes@.len() by {
                                    let x = cap@[j];
                                    assert(cap@.contains(x));
                                    if x != id {
                                        assert(oldcap@.contains(x));
                                        let k = choose|k: int|
                                            0 <= k < oldcap@.len() && oldcap@[k] == x;
                                        assert((oldcap@[k] as int) < w3.nodes@.len());
                                    }
                                }
                            }
                            assert(self.node_wf(zr as int));
                            lemma_one_node_changed(w3, *self, zr as int);
                        }
                    }
                },
                None => {},
            }
        }
        let ghost gh = *self;
        // a sound leaves the sound registry
        if self.nodes[id as usize].sound.is_some() {
            let ghost wsa = *self;
            self.sounds.remove(id);
            proof {
                assert forall|j: int|
                    0 <= j < self.sounds@.len() implies ((#[trigger] self.sounds@[j]) as int)
                        < self.nodes@.len() by {
                    let x = self.sounds@[j];
                    assert(self.sounds@.contains(x));
                    if x != id {
                        assert(wsa.sounds@.contains(x));
                        let k = choose|k: int|
                            0 <= k < wsa.sounds@.len() && wsa.sounds@[k] == x;
                        assert((wsa.sounds@[k] as int) < wsa.nodes@.len());
                    }
                }
                assert forall|j: int| 0 <= j < self.nodes@.len() implies self.node_wf(j) by {
                    assert(wsa.node_wf(j));
                }
                assert forall|cc: int| 0 <= cc < self.clients@.len() implies self.client_wf(
                    cc,
                ) by {
                    assert(wsa.client_wf(cc));
                }
                assert(self.wf());
            }
        }
        proof {
            assert(self.nodes@ == gh.nodes@);
            assert forall|j: int|
                0 <= j < old(self).nodes@.len() implies #[trigger] self.nodes@[j].spatial
                    == old(self).nodes@[j].spatial by {
                assert(gh.nodes@[j].spatial == ga.nodes@[j].spatial);
                assert(ga.nodes@[j].spatial == old(self).nodes@[j].spatial);
            }
            assert forall|j: int|
                0 <= j < old(self).nodes@.len() implies #[trigger] self.nodes@[j].alive == old(self).nodes@[j].alive by {
                assert(gh.nodes@[j].alive == ga.nodes@[j].alive);
                assert(ga.nodes@[j].alive == old(self).nodes@[j].alive);
            }
            assert forall|j: int|
                0 <= j < old(self).nodes@.len() implies node_skeleton_eq(
                #[trigger] self.nodes@[j],
                old(self).nodes@[j],
            ) by {
                assert(node_skeleton_eq(gh.nodes@[j], ga.nodes@[j]));
                assert(node_skeleton_eq(ga.nodes@[j], old(self).nodes@[j]));
            }
            assert(self.nodes@[id as int].zone == gh.nodes@[id as int].zone);
        }
    }
}

impl World {
    /// The protocol destroy request: honored only for nodes their client
    /// may destroy; a node whose destroyable flag is off stays untouched.
    pub fn destroy_flex(&mut self, id: u64)
        requires
            old(self).wf(),
            (id as int) < old(self).nodes@.len(),
        ensures
            final(self).wf(),
            !old(self).nodes@[id as int].destroyable ==> *final(self) == *old(self),
            (old(self).nodes@[id as int].destroyable && !destroy_active(
                *old(self),
                id as int,
            )) ==> *final(self) == *old(self),
            (old(self).nodes@[id as int].destroyable && destroy_active(*old(self), id as int))
                ==> !final(self).nodes@[id as int].alive,
    {
        let _nn = self.nodes.len();
        if self.nodes[id as usize].destroyable {
            self.destroy(id);
        }
    }
}

impl World {
    /// The construction entry for a zone: resolves the parent path to a
    /// spatial node and the field path to a field node in the calling
    /// client's scenegraph, and only then publishes a node under the zone
    /// root, attaches a spatial under that parent at the given origin, and
    /// attaches the zone bound to that field — so no partially capable node
    /// is ever visible when a check fails.
    pub fn create_zone_flex(
        &mut self,
        client: u64,
        name: &String,
        parent_path: &String,
        field_path: &String,
        x: i64,
        y: i64,
        z: i64,
    ) -> (r: Result<u64, NodeError>)
        requires
            old(self).wf(),
            (client as int) < old(self).clients@.len(),
            -crate::math::POS_LIMIT <= x <= crate::math::POS_LIMIT,
            -crate::math::POS_LIMIT <= y <= crate::math::POS_LIMIT,
            -crate::math::POS_LIMIT <= z <= crate::math::POS_LIMIT,
        ensures
            final(self).wf(),
            r is Err ==> *final(self) == *old(self),
            r is Ok <==> (old(self).client_alive(client as int) && resolves_to_spatial(
                *old(self),
                client as int,
                parent_path@,
            ) && resolves_to_field(*old(self), client as int, field_path@)),
            r is Err ==> (r->Err_0 is ClientGone <==> !old(self).client_alive(client as int)),
            match r {
                Ok(id) => {
                    &&& id as int == old(self).nodes@.len()
                    &&& final(self).nodes@.len() == old(self).nodes@.len() + 1
                    &&& final(self).nodes@[id as int].path@ == "/spatial/zone"@ + seq!['/']
                        + name@
                    &&& final(self).nodes@[id as int].spatial is Some
                    &&& final(self).nodes@[id as int].spatial->Some_0.x == x
                    &&& final(self).nodes@[id as int].spatial->Some_0.y == y
                    &&& final(self).nodes@[id as int].spatial->Some_0.z == z
                    &&& final(self).nodes@[id as int].spatial->Some_0.parent == Some(
                        tbl_lookup(
                            old(self).clients@[client as int].scenegraph@,
                            parent_path@,
                        )->Some_0,
                    )
                    &&& final(self).nodes@[id as int].zone matches Some(zo) && zo.field
                        == tbl_lookup(
                        old(self).clients@[client as int].scenegraph@,
                        field_path@,
                    )->Some_0 && zo.captured@.len() == 0 && zo.previous@.len() == 0
                    &&& tbl_lookup(final(self).nodes@[id as int].local_signals@, "capture"@)
                        == Some(HANDLER_ZONE_CAPTURE)
                    &&& tbl_lookup(final(self).nodes@[id as int].local_signals@, "release"@)
                        == Some(HANDLER_ZONE_RELEASE)
                    &&& tbl_lookup(final(self).nodes@[id as int].local_signals@, "update"@)
                        == Some(HANDLER_ZONE_UPDATE)
                    &&& (forall|j: int|
                        0 <= j < old(self).nodes@.len() ==> final(self).nodes@[j] == old(self).nodes@[j])
                },
                Err(_) => true,
            },
    {
        let _nc = self.clients.len();
        if !self.clients[client as usize].alive {
            return Err(NodeError::ClientGone);
        }
        let p = match self.find_spatial(client, parent_path) {
            Ok(p) => p,
            Err(e) => {
                return Err(e);
            },
        };
        let f = match self.find_field(client, field_path) {
            Ok(f) => f,
            Err(e) => {
                return Err(e);
            },
        };
        let base = zone_root();
        let node = self.create_parent_name(client, &base, name, true);
        let id = match self.add_to_scenegraph(node) {
            Ok(id) => id,
            Err(e) => {
                return Err(e);
            },
        };
        let r1 = self.add_spatial(id, Some(p), x, y, z, false);
        proof {
            assert(r1 is Ok);
        }
        let r2 = self.add_zone(id, f);
        proof {
            assert(r2 is Ok);
        }
        Ok(id)
    }
}

/// The literal path under which zone nodes are created.
fn zone_root() -> (r: String)
    ensures
        r@ == "/spatial/zone"@,
{
    let s = "/spatial/zone";
    s.to_string()
}

/// Destroying a node has effect only while the node is alive and its
/// owning client still resolves.
pub open spec fn destroy_active(w: World, id: int) -> bool {
    &&& w.nodes@[id].alive
    &&& w.nodes@[id].client is Some
    &&& w.client_alive(w.nodes@[id].client->Some_0 as int)
}

/// The fields of a node that destroying any node never rewrites: slot
/// presence, field shape, and identity.
pub open spec fn node_skeleton_eq(a: crate::node::Node, b: crate::node::Node) -> bool {
    &&& (a.zone is Some <==> b.zone is Some)
    &&& (a.spatial is Some <==> b.spatial is Some)
    &&& a.field == b.field
    &&& a.uid == b.uid
    &&& a.client == b.client
    &&& a.has_transport == b.has_transport
}

/// Whether a path in a client's scenegraph names a node carrying a
/// spatial.
pub open spec fn resolves_to_spatial(w: World, client: int, path: Seq<char>) -> bool {
    match tbl_lookup(w.clients@[client].scenegraph@, path) {
        Some(s) => w.nodes@[s as int].spatial is Some,
        None => false,
    }
}

/// Whether a path in a client's scenegraph names a node carrying a field.
pub open spec fn resolves_to_field(w: World, client: int, path: Seq<char>) -> bool {
    match tbl_lookup(w.clients@[client].scenegraph@, path) {
        Some(f) => w.nodes@[f as int].field is Some,
        None => false,
    }
}

/// The spatial node a zone dispatch payload names: the decoded path, bound
/// in the calling client's scenegraph to a node with the capability.
pub open spec fn flex_spatial_target(w: World, client: int, data: Seq<u8>) -> Option<int> {
    match flex_str_decode(data) {
        None => None,
        Some(p) => match tbl_lookup(w.clients@[client].scenegraph@, p) {
            Some(s) => if w.nodes@[s as int].spatial is Some {
                Some(s as int)
            } else {
                None
            },
            None => None,
        },
    }
}

/// The visibility rule of a zone recompute: an object stays visible while
/// captured (even momentarily outside the volume), and otherwise becomes
/// visible only strictly inside the field and strictly closer, in raw
/// signed distance, than it is to its own current zone.
pub open spec fn zone_sees(w: World, zid: int, s: int) -> bool {
    &&& w.node_alive(s)
    &&& w.nodes@[s].spatial is Some
    &&& {
        ||| w.nodes@[zid].zone->Some_0.captured@.contains(s as u64)
        ||| {
            let d = field_distance_spec(w, zone_field(w, zid), s);
            &&& d < 0
            &&& (match zone_distance_spec(w, s) {
                None => true,
                Some(o) => o > d,
            })
        }
    }
}

impl World {
    /// The set of zoneable spatials a recompute of this zone would project:
    /// those already captured, plus those strictly inside the field and
    /// strictly closer to it than to their own zone. Fails with a
    /// distinguished error when the zone's field has been destroyed.
    pub fn zone_visible(&self, zid: u64) -> (r: Result<Vec<u64>, NodeError>)
        requires
            self.wf(),
            (zid as int) < self.nodes@.len(),
            self.nodes@[zid as int].zone is Some,
        ensures
            match r {
                Ok(vis) => {
                    &&& field_ok(*self, zone_field(*self, zid as int))
                    &&& vis@.no_duplicates()
                    &&& (forall|j: int|
                        0 <= j < vis@.len() ==> self.zoneables@.contains(#[trigger] vis@[j])
                            && zone_sees(*self, zid as int, vis@[j] as int))
                    &&& (forall|j: int|
                        0 <= j < self.zoneables@.len() && zone_sees(
                            *self,
                            zid as int,
                            self.zoneables@[j] as int,
                        ) ==> vis@.contains(#[trigger] self.zoneables@[j]))
                },
                Err(e) => {
                    &&& e is FieldGone
                    &&& !field_ok(*self, zone_field(*self, zid as int))
                },
            },
    {
        let _nn = self.nodes.len();
        proof {
            assert(self.node_wf(zid as int));
        }
        let zf = match &self.nodes[zid as usize].zone {
            Some(zo) => zo.field,
            None => 0,
        };
        if !(self.nodes[zf as usize].alive && self.nodes[zf as usize].field.is_some()
            && self.nodes[zf as usize].spatial.is_some()) {
            return Err(NodeError::FieldGone);
        }
        let candidates = self.zoneables.get_valid_contents();
        let mut vis: Vec<u64> = Vec::new();
        let n = candidates.len();
        let mut i: usize = 0;
        while i < n
            invariant
                0 <= i <= n,
                self.wf(),
                (zid as int) < self.nodes@.len(),
                self.nodes@[zid as int].zone is Some,
                field_ok(*self, zone_field(*self, zid as int)),
                zf as int == zone_field(*self, zid as int),
                n == candidates@.len(),
                candidates@ == self.zoneables@,
                candidates@.no_duplicates(),
                forall|k: int|
                    0 <= k < candidates@.len() ==> ((#[trigger] candidates@[k]) as int)
                        < self.nodes@.len(),
                vis@.no_duplicates(),
                forall|j: int|
                    0 <= j < vis@.len() ==> self.zoneables@.contains(#[trigger] vis@[j])
                        && zone_sees(*self, zid as int, vis@[j] as int),
                forall|j: int|
                    0 <= j < i ==> (zone_sees(*self, zid as int, candidates@[j] as int)
                        ==> vis@.contains(#[trigger] candidates@[j])),
                forall|j: int|
                    0 <= j < vis@.len() ==> (exists|k: int|
                        0 <= k < i && candidates@[k] == #[trigger] vis@[j]),
            decreases n - i,
        {
            let _nn2 = self.nodes.len();
            let s = candidates[i];
            let mut take = false;
            if self.nodes[s as usize].alive && self.nodes[s as usize].spatial.is_some() {
                let captured = match &self.nodes[zid as usize].zone {
                    Some(zo) => zo.captured.contains(s),
                    None => false,
                };
                if captured {
                    take = true;
                } else {
                    let d = self.field_distance(zf, s);
                    if d < 0 {
                        match self.zone_distance(s) {
                            None => {
                                take = true;
                            },
                            Some(o) => {
                                if o > d {
                                    take = true;
                                }
                            },
                        }
                    }
                }
            }
            let ghost vprev = vis@;
            if take {
                proof {
                    assert forall|j: int| 0 <= j < vis@.len() implies vis@[j] != s by {
                        let k = choose|k: int| 0 <= k < i && candidates@[k] == vis@[j];
                        if candidates@[k] == s {
                            assert(candidates@[k] == candidates@[i as int]);
                        }
                    }
                }
                vis.push(s);
                proof {
                    assert forall|p: int, q: int|
                        0 <= p < q < vis@.len() implies vis@[p] != vis@[q] by {
                        if q == vis@.len() - 1 {
                            assert(vis@[p] == vprev[p]);
                            assert(vprev[p] != s);
                        }
                    }
                }
            }
            proof {
                if !take {
                    assert(!zone_sees(*self, zid as int, s as int));
                }
                assert forall|j: int|
                    0 <= j < i + 1 implies (zone_sees(*self, zid as int, candidates@[j] as int)
                        ==> vis@.contains(#[trigger] candidates@[j])) by {
                    if j < i {
                        if zone_sees(*self, zid as int, candidates@[j] as int) {
                            assert(vprev.contains(candidates@[j]));
                            let k = choose|k: int|
                                0 <= k < vprev.len() && vprev[k] == candidates@[j];
                            assert(vis@[k] == candidates@[j]);
                        }
                    } else {
                        if take {
                            assert(vis@[vis@.len() - 1] == s);
                        }
                    }
                }
                assert forall|j: int|
                    0 <= j < vis@.len() implies (exists|k: int|
                        0 <= k < i + 1 && candidates@[k] == #[trigger] vis@[j]) by {
                    if j < vprev.len() {
                        assert(vis@[j] == vprev[j]);
                        let k = choose|k: int| 0 <= k < i && candidates@[k] == vprev[j];
                        assert(0 <= k < i + 1 && candidates@[k] == vis@[j]);
                    } else {
                        assert(vis@[j] == s && candidates@[i as int] == s);
                    }
                }
            }
            i += 1;
        }
        proof {
            assert forall|j: int|
                0 <= j < self.zoneables@.len() && zone_sees(
                    *self,
                    zid as int,
                    self.zoneables@[j] as int,
                ) implies vis@.contains(#[trigger] self.zoneables@[j]) by {
                assert(candidates@[j] == self.zoneables@[j]);
            }
        }
        Ok(vis)
    }

    /// The dispatch entry for a zone's capture signal: decode the payload
    /// as a node path, resolve it in the calling client's scenegraph to a
    /// spatial, and attempt the capture. Succeeds exactly when the payload
    /// decodes to a path naming a spatial node of the calling client; the
    /// capture itself then follows the strict-inequality rule.
    pub fn capture_flex(&mut self, zid: u64, calling_client: u64, data: &Vec<u8>) -> (r: Result<
        Vec<ZoneEvent>,
        NodeError,
    >)
        requires
            old(self).wf(),
            (zid as int) < old(self).nodes@.len(),
            (calling_client as int) < old(self).clients@.len(),
            old(self).nodes@[zid as int].zone is Some,
            old(self).node_alive(zid as int),
        ensures
            final(self).wf(),
            r is Err ==> *final(self) == *old(self),
            r is Ok <==> flex_spatial_target(*old(self), calling_client as int, data@) is Some,
            flex_str_decode(data@) is None ==> (r matches Err(e) && e is PayloadInvalid),
            r is Ok ==> ({
                let s = flex_spatial_target(*old(self), calling_client as int, data@)->Some_0;
                let ev = r->Ok_0;
                &&& (!capture_wins(
                    capture_new_distance(*old(self), s, zid as int),
                    zone_distance_spec(*old(self), s),
                ) ==> (*final(self) == *old(self) && ev@.len() == 0))
                &&& (capture_wins(
                    capture_new_distance(*old(self), s, zid as int),
                    zone_distance_spec(*old(self), s),
                ) ==> ({
                    let zr_opt = holding_zone(*old(self), s);
                    &&& final(self).nodes@[s].spatial is Some
                    &&& final(self).nodes@[s].spatial->Some_0.zone == Some(zid)
                    &&& final(self).nodes@[zid as int].zone is Some
                    &&& final(self).nodes@[zid as int].zone->Some_0.captured@.contains(s as u64)
                    &&& ev@.map_values(|e: ZoneEvent| e@) == (match zr_opt {
                        Some(zr) => seq![
                            ZoneEventView {
                                kind: NoticeKind::Release,
                                zone_node: zr,
                                uid: old(self).nodes@[s].uid@,
                                data: flex_str_encode(old(self).nodes@[s].uid@),
                            },
                        ],
                        None => Seq::<ZoneEventView>::empty(),
                    }) + seq![
                        ZoneEventView {
                            kind: NoticeKind::Capture,
                            zone_node: zid as int,
                            uid: old(self).nodes@[s].uid@,
                            data: flex_str_encode(old(self).nodes@[s].uid@),
                        },
                    ]
                }))
            }),
    {
        let path = match crate::wire::flex_read_str(data) {
            Some(p) => p,
            None => {
                return Err(NodeError::PayloadInvalid);
            },
        };
        let s = match self.find_spatial(calling_client, &path) {
            Ok(s) => s,
            Err(e) => {
                return Err(e);
            },
        };
        Ok(self.capture(s, zid))
    }

    /// The dispatch entry for a zone's release signal: succeeds exactly
    /// when the payload decodes to a path naming a spatial node of the
    /// calling client, and then performs the unconditional release.
    pub fn release_flex(&mut self, calling_client: u64, data: &Vec<u8>) -> (r: Result<
        Vec<ZoneEvent>,
        NodeError,
    >)
        requires
            old(self).wf(),
            (calling_client as int) < old(self).clients@.len(),
        ensures
            final(self).wf(),
            r is Err ==> *final(self) == *old(self),
            r is Ok <==> flex_spatial_target(*old(self), calling_client as int, data@) is Some,
            flex_str_decode(data@) is None ==> (r matches Err(e) && e is PayloadInvalid),
            r is Ok ==> ({
                let s = flex_spatial_target(*old(self), calling_client as int, data@)->Some_0;
                let ev = r->Ok_0;
                &&& final(self).nodes@[s].spatial == Some(
                    Spatial {
                        parent: old(self).nodes@[s].spatial->Some_0.old_parent,
                        old_parent: None,
                        zone: None,
                        x: old(self).nodes@[s].spatial->Some_0.x,
                        y: old(self).nodes@[s].spatial->Some_0.y,
                        z: old(self).nodes@[s].spatial->Some_0.z,
                    },
                )
                &&& (match holding_zone(*old(self), s) {
                    Some(zr) => ev@.map_values(|e: ZoneEvent| e@) == seq![
                        ZoneEventView {
                            kind: NoticeKind::Release,
                            zone_node: zr,
                            uid: old(self).nodes@[s].uid@,
                            data: flex_str_encode(old(self).nodes@[s].uid@),
                        },
                    ],
                    None => ev@.len() == 0,
                })
            }),
    {
        let path = match crate::wire::flex_read_str(data) {
            Some(p) => p,
            None => {
                return Err(NodeError::PayloadInvalid);
            },
        };
        let s = match self.find_spatial(calling_client, &path) {
            Ok(s) => s,
            Err(e) => {
                return Err(e);
            },
        };
        Ok(self.release(s))
    }

    /// Resolve a path in a client's scenegraph to a node carrying a
    /// spatial: succeeds exactly when the path is bound and the node has
    /// the capability.
    pub fn find_spatial(&self, client: u64, path: &String) -> (r: Result<u64, NodeError>)
        requires
            self.wf(),
            (client as int) < self.clients@.len(),
        ensures
            r is Ok <==> resolves_to_spatial(*self, client as int, path@),
            match r {
                Ok(s) => {
                    &&& tbl_lookup(self.clients@[client as int].scenegraph@, path@) == Some(s)
                    &&& (s as int) < self.nodes@.len()
                    &&& self.nodes@[s as int].spatial is Some
                },
                Err(e) => {
                    &&& (e is PathMissing <==> tbl_lookup(
                        self.clients@[client as int].scenegraph@,
                        path@,
                    ) is None)
                    &&& (e is AspectMissing <==> (tbl_lookup(
                        self.clients@[client as int].scenegraph@,
                        path@,
                    ) is Some && !resolves_to_spatial(*self, client as int, path@)))
                },
            },
    {
        let _nc = self.clients.len();
        let _nn = self.nodes.len();
        proof {
            assert(self.client_wf(client as int));
        }
        let s = match crate::table::tbl_get(&self.clients[client as usize].scenegraph, path) {
            Some(s) => s,
            None => {
                return Err(NodeError::PathMissing);
            },
        };
        proof {
            crate::table::lemma_tbl_lookup_char(
                self.clients@[client as int].scenegraph@,
                path@,
            );
            let sg = self.clients@[client as int].scenegraph@;
            assert(sg.contains(sg[choose|k: int| 0 <= k < sg.len() && sg[k].0@ == path@]));
        }
        let ghost sg = self.clients@[client as int].scenegraph@;
        proof {
            assert(exists|k: int| 0 <= k < sg.len() && sg[k].1 == s) by {
                let k = choose|k: int| 0 <= k < sg.len() && #[trigger] sg[k].0@ == path@;
            }
            let k = choose|k: int| 0 <= k < sg.len() && #[trigger] sg[k].1 == s;
            assert((sg[k].1 as int) < self.nodes@.len());
        }
        if self.nodes[s as usize].spatial.is_some() {
            Ok(s)
        } else {
            Err(NodeError::AspectMissing)
        }
    }

    /// Resolve a path in a client's scenegraph to a node carrying a field:
    /// succeeds exactly when the path is bound and the node has the
    /// capability.
    pub fn find_field(&self, client: u64, path: &String) -> (r: Result<u64, NodeError>)
        requires
            self.wf(),
            (client as int) < self.clients@.len(),
        ensures
            r is Ok <==> resolves_to_field(*self, client as int, path@),
            match r {
                Ok(f) => {
                    &&& tbl_lookup(self.clients@[client as int].scenegraph@, path@) == Some(f)
                    &&& (f as int) < self.nodes@.len()
                    &&& self.nodes@[f as int].field is Some
                },
                Err(e) => {
                    &&& (e is PathMissing <==> tbl_lookup(
                        self.clients@[client as int].scenegraph@,
                        path@,
                    ) is None)
                    &&& (e is AspectMissing <==> (tbl_lookup(
                        self.clients@[client as int].scenegraph@,
                        path@,
                    ) is Some && !resolves_to_field(*self, client as int, path@)))
                },
            },
    {
        let _nc = self.clients.len();
        let _nn = self.nodes.len();
        proof {
            assert(self.client_wf(client as int));
        }
        let f = match crate::table::tbl_get(&self.clients[client as usize].scenegraph, path) {
            Some(f) => f,
            None => {
                return Err(NodeError::PathMissing);
            },
        };
        let ghost sg = self.clients@[client as int].scenegraph@;
        proof {
            assert(exists|k: int| 0 <= k < sg.len() && #[trigger] sg[k].1 == f) by {
                crate::table::lemma_tbl_lookup_char(sg, path@);
                let k = choose|k: int| 0 <= k < sg.len() && #[trigger] sg[k].0@ == path@;
            }
            let k = choose|k: int| 0 <= k < sg.len() && #[trigger] sg[k].1 == f;
            assert((sg[k].1 as int) < self.nodes@.len());
        }
        if self.nodes[f as usize].field.is_some() {
            Ok(f)
        } else {
            Err(NodeError::AspectMissing)
        }
    }

    /// The enter/leave diff of a visibility recompute: one enter for every
    /// uid newly bound in the visibility map, one leave for every uid no
    /// longer bound, nothing for a uid in both, keyed by uid.
    #[verifier::rlimit(100)]
    #[verifier::spinoff_prover]
    pub fn zone_diff_events(
        &self,
        zid: u64,
        old_tbl: &Vec<(String, u64)>,
        new_tbl: &Vec<(String, u64)>,
    ) -> (ev: Vec<ZoneEvent>)
        requires
            tbl_unique(old_tbl@),
            tbl_unique(new_tbl@),
        ensures
            forall|i: int|
                0 <= i < ev@.len() ==> ((#[trigger] ev@[i]).kind == NoticeKind::Enter
                    || ev@[i].kind == NoticeKind::Leave) && ev@[i].zone_node == zid
                    && ev@[i].data@ == flex_str_encode(ev@[i].uid@),
            forall|i: int|
                0 <= i < ev@.len() && (#[trigger] ev@[i]).kind == NoticeKind::Enter ==> tbl_lookup(
                    new_tbl@,
                    ev@[i].uid@,
                ) is Some && tbl_lookup(old_tbl@, ev@[i].uid@) is None,
            forall|i: int|
                0 <= i < ev@.len() && (#[trigger] ev@[i]).kind == NoticeKind::Leave ==> tbl_lookup(
                    old_tbl@,
                    ev@[i].uid@,
                ) is Some && tbl_lookup(new_tbl@, ev@[i].uid@) is None,
            forall|j: int|
                0 <= j < new_tbl@.len() && tbl_lookup(old_tbl@, (#[trigger] new_tbl@[j]).0@)
                    is None ==> exists|i: int|
                    0 <= i < ev@.len() && (#[trigger] ev@[i]).kind == NoticeKind::Enter
                        && ev@[i].uid@ == new_tbl@[j].0@,
            forall|j: int|
                0 <= j < old_tbl@.len() && tbl_lookup(new_tbl@, (#[trigger] old_tbl@[j]).0@)
                    is None ==> exists|i: int|
                    0 <= i < ev@.len() && (#[trigger] ev@[i]).kind == NoticeKind::Leave
                        && ev@[i].uid@ == old_tbl@[j].0@,
            forall|i: int, j: int|
                0 <= i < j < ev@.len() && (#[trigger] ev@[i]).kind == (#[trigger] ev@[j]).kind
                    ==> ev@[i].uid@ != ev@[j].uid@,
    {
        let mut ev: Vec<ZoneEvent> = Vec::new();
        let n = new_tbl.len();
        let mut i: usize = 0;
        while i < n
            invariant
                0 <= i <= n,
                n == new_tbl@.len(),
                tbl_unique(old_tbl@),
                tbl_unique(new_tbl@),
                forall|k: int|
                    0 <= k < ev@.len() ==> (#[trigger] ev@[k]).kind == NoticeKind::Enter
                        && ev@[k].zone_node == zid && ev@[k].data@ == flex_str_encode(
                        ev@[k].uid@,
                    ) && tbl_lookup(new_tbl@, ev@[k].uid@) is Some && tbl_lookup(
                        old_tbl@,
                        ev@[k].uid@,
                    ) is None,
                forall|j: int|
                    0 <= j < i && tbl_lookup(old_tbl@, (#[trigger] new_tbl@[j]).0@) is None
                        ==> exists|k: int|
                        0 <= k < ev@.len() && (#[trigger] ev@[k]).kind == NoticeKind::Enter
                            && ev@[k].uid@ == new_tbl@[j].0@,
                forall|k: int|
                    0 <= k < ev@.len() ==> (exists|jj: int|
                        0 <= jj < i && (#[trigger] ev@[k]).uid@ == new_tbl@[jj].0@),
                forall|k1: int, k2: int|
                    0 <= k1 < k2 < ev@.len() ==> (#[trigger] ev@[k1]).uid@ != (
                    #[trigger] ev@[k2]).uid@,
            decreases n - i,
        {
            let uid = new_tbl[i].0.clone();
            let ghost eprev = ev@;
            if crate::table::tbl_get(old_tbl, &uid).is_none() {
                proof {
                    crate::table::lemma_tbl_lookup_char(new_tbl@, uid@);
                }
                let data = flex_write_str(&uid);
                ev.push(ZoneEvent { kind: NoticeKind::Enter, zone_node: zid, uid, data });
                proof {
                    assert(forall|k: int| 0 <= k < eprev.len() ==> ev@[k] == eprev[k]);
                    assert(ev@[ev@.len() - 1].uid@ == new_tbl@[i as int].0@);
                    assert forall|k: int|
                        0 <= k < ev@.len() - 1 implies (#[trigger] ev@[k]).uid@ != ev@[ev@.len()
                        - 1].uid@ by {
                        let jj = choose|jj: int|
                            0 <= jj < i && (#[trigger] eprev[k]).uid@ == new_tbl@[jj].0@;
                        assert(new_tbl@[jj].0@ != new_tbl@[i as int].0@);
                    }
                }
            }
            proof {
                assert forall|j: int|
                    0 <= j < i + 1 && tbl_lookup(old_tbl@, (#[trigger] new_tbl@[j]).0@) is None
                        implies exists|k: int|
                        0 <= k < ev@.len() && (#[trigger] ev@[k]).kind == NoticeKind::Enter
                            && ev@[k].uid@ == new_tbl@[j].0@ by {
                    if j < i {
                        let k = choose|k: int|
                            0 <= k < eprev.len() && (#[trigger] eprev[k]).kind
                                == NoticeKind::Enter && eprev[k].uid@ == new_tbl@[j].0@;
                        assert(ev@[k] == eprev[k]);
                    } else {
                        assert(ev@[ev@.len() - 1].kind == NoticeKind::Enter && ev@[ev@.len()
                            - 1].uid@ == new_tbl@[j].0@);
                    }
                }
            }
            i += 1;
        }
        let ghost enters = ev@;
        let m = old_tbl.len();
        let mut j: usize = 0;
        while j < m
            invariant
                0 <= j <= m,
                m == old_tbl@.len(),
                tbl_unique(old_tbl@),
                tbl_unique(new_tbl@),
                ev@.len() >= enters.len(),
                ev@.subrange(0, enters.len() as int) == enters,
                forall|k: int|
                    0 <= k < enters.len() ==> (#[trigger] ev@[k]).kind == NoticeKind::Enter
                        && ev@[k].zone_node == zid && ev@[k].data@ == flex_str_encode(
                        ev@[k].uid@,
                    ) && tbl_lookup(new_tbl@, ev@[k].uid@) is Some && tbl_lookup(
                        old_tbl@,
                        ev@[k].uid@,
                    ) is None,
                forall|jj: int|
                    0 <= jj < new_tbl@.len() && tbl_lookup(
                        old_tbl@,
                        (#[trigger] new_tbl@[jj]).0@,
                    ) is None ==> exists|k: int|
                        0 <= k < ev@.len() && (#[trigger] ev@[k]).kind == NoticeKind::Enter
                            && ev@[k].uid@ == new_tbl@[jj].0@,
                forall|k: int|
                    enters.len() <= k < ev@.len() ==> (#[trigger] ev@[k]).kind
                        == NoticeKind::Leave && ev@[k].zone_node == zid && ev@[k].data@
                        == flex_str_encode(ev@[k].uid@) && tbl_lookup(old_tbl@, ev@[k].uid@)
                        is Some && tbl_lookup(new_tbl@, ev@[k].uid@) is None,
                forall|jj: int|
                    0 <= jj < j && tbl_lookup(new_tbl@, (#[trigger] old_tbl@[jj]).0@) is None
                        ==> exists|k: int|
                        0 <= k < ev@.len() && (#[trigger] ev@[k]).kind == NoticeKind::Leave
                            && ev@[k].uid@ == old_tbl@[jj].0@,
                forall|k1: int, k2: int|
                    0 <= k1 < k2 < enters.len() ==> (#[trigger] ev@[k1]).uid@ != (
                    #[trigger] ev@[k2]).uid@,
                forall|k: int|
                    enters.len() <= k < ev@.len() ==> (exists|jj: int|
                        0 <= jj < j && (#[trigger] ev@[k]).uid@ == old_tbl@[jj].0@),
                forall|k1: int, k2: int|
                    enters.len() <= k1 < k2 < ev@.len() ==> (#[trigger] ev@[k1]).uid@ != (
                    #[trigger] ev@[k2]).uid@,
            decreases m - j,
        {
            let uid = old_tbl[j].0.clone();
            let ghost eprev = ev@;
            if crate::table::tbl_get(new_tbl, &uid).is_none() {
                proof {
                    crate::table::lemma_tbl_lookup_char(old_tbl@, uid@);
                }
                let data = flex_write_str(&uid);
                ev.push(ZoneEvent { kind: NoticeKind::Leave, zone_node: zid, uid, data });
                proof {
                    assert(forall|k: int| 0 <= k < eprev.len() ==> ev@[k] == eprev[k]);
                    assert(ev@.subrange(0, enters.len() as int) =~= eprev.subrange(
                        0,
                        enters.len() as int,
                    ));
                    assert(ev@[ev@.len() - 1].uid@ == old_tbl@[j as int].0@);
                    assert forall|k: int|
                        enters.len() <= k < ev@.len() - 1 implies (#[trigger] ev@[k]).uid@
                            != ev@[ev@.len() - 1].uid@ by {
                        let jj = choose|jj: int|
                            0 <= jj < j && (#[trigger] eprev[k]).uid@ == old_tbl@[jj].0@;
                        assert(old_tbl@[jj].0@ != old_tbl@[j as int].0@);
                    }
                }
            }
            proof {
                assert forall|jj: int|
                    0 <= jj < j + 1 && tbl_lookup(new_tbl@, (#[trigger] old_tbl@[jj]).0@)
                        is None implies exists|k: int|
                        0 <= k < ev@.len() && (#[trigger] ev@[k]).kind == NoticeKind::Leave
                            && ev@[k].uid@ == old_tbl@[jj].0@ by {
                    if jj < j {
                        let k = choose|k: int|
                            0 <= k < eprev.len() && (#[trigger] eprev[k]).kind
                                == NoticeKind::Leave && eprev[k].uid@ == old_tbl@[jj].0@;
                        assert(ev@[k] == eprev[k]);
                    } else {
                        assert(ev@[ev@.len() - 1].kind == NoticeKind::Leave && ev@[ev@.len()
                            - 1].uid@ == old_tbl@[jj].0@);
                    }
                }
            }
            j += 1;
        }
        ev
    }
}

} // verus!
