//! The object model: addressable nodes with dynamic dispatch tables and
//! set-once capability slots, owned by a world that holds every live
//! instance. Non-owning edges (alias to original, spatial to zone, zone to
//! field) are ids that resolve against the world and can find their target
//! gone; the world's well-formedness keeps every stored id in range.

use vstd::prelude::*;

use crate::ident::{generate_uid, join_path};
use crate::math::{COORD_LIMIT, POS_LIMIT};
use crate::registry::Registry;
use crate::table::{tbl_lookup, tbl_set, tbl_unique};

verus! {

/// Dispatch failure taxonomy. An alias deliberately reports a forbidden name
/// with the same error as an unknown one.
#[derive(Debug, Clone)]
pub enum ScenegraphError {
    SignalNotFound,
    MethodNotFound,
    BrokenAlias,
    SignalError { error: String },
}

/// Construction-time and lookup failures of the object model itself.
#[derive(Debug, Clone)]
pub enum NodeError {
    ClientGone,
    SpatialMissing,
    FieldGone,
    SlotOccupied,
    AspectMissing,
    TransportMissing,
    PathMissing,
    PayloadInvalid,
}

/// The capability slots a node can carry, each settable at most once.
#[derive(Debug, Clone, Copy, PartialEq, Eq, Structural)]
pub enum AspectKind {
    Spatial,
    Field,
    Zone,
    Sound,
    InputMethod,
    InputHandler,
    Item,
    ItemAcceptor,
    ItemUi,
    PulseSender,
    PulseReceiver,
    Drawable,
}

/// A dispatch payload: structured bytes plus out-of-band resource handles.
pub struct Message {
    pub data: Vec<u8>,
    pub fds: Vec<u64>,
}

impl Message {
    /// Wrap plain bytes as a payload carrying no resources.
    pub fn from_data(data: Vec<u8>) -> (m: Message)
        ensures
            m.data@ == data@,
            m.fds@ == Seq::<u64>::empty(),
    {
        Message { data, fds: Vec::new() }
    }
}

/// The four allow-lists of a capability-scoped proxy: names it accepts from
/// its own client (forwarded inbound) and names the original may push back
/// out to that client.
pub struct AliasInfo {
    pub server_signals: Vec<String>,
    pub server_methods: Vec<String>,
    pub client_signals: Vec<String>,
    pub client_methods: Vec<String>,
}

/// Proxy identity of a node: the original it forwards to, and the scope.
pub struct Alias {
    pub original: u64,
    pub info: AliasInfo,
}

/// Spatial capability: a world-frame origin, a swappable parent link, the
/// parent snapshot taken at capture time, and the capturing zone, if any.
#[derive(Clone, Copy)]
pub struct Spatial {
    pub parent: Option<u64>,
    pub old_parent: Option<u64>,
    pub zone: Option<u64>,
    pub x: i64,
    pub y: i64,
    pub z: i64,
}

/// Geometric field capability; parameters are stored normalized nonnegative.
#[derive(Clone, Copy)]
pub enum FieldShape {
    Cylinder { length: i64, radius: i64 },
}

/// Zone capability: the field that bounds it, the spatials it currently
/// captures, and the visibility map of the last recompute (object uid to the
/// alias node projecting it).
pub struct Zone {
    pub field: u64,
    pub captured: Registry,
    pub previous: Vec<(String, u64)>,
}

/// Sound capability: a resolved audio path and the pending playback state.
pub struct Sound {
    pub audio_path: String,
    pub loaded: bool,
    pub has_instance: bool,
    pub play_pending: bool,
    pub stop_pending: bool,
}

/// An addressable scene object.
pub struct Node {
    pub alive: bool,
    pub uid: String,
    pub path: String,
    pub client: Option<u64>,
    pub has_transport: bool,
    pub enabled: bool,
    pub destroyable: bool,
    pub local_signals: Vec<(String, u64)>,
    pub local_methods: Vec<(String, u64)>,
    pub alias: Option<Alias>,
    pub aliases: Registry,
    pub spatial: Option<Spatial>,
    pub field: Option<FieldShape>,
    pub zone: Option<Zone>,
    pub sound: Option<Sound>,
    pub input_method: bool,
    pub input_handler: bool,
    pub item: bool,
    pub item_acceptor: bool,
    pub item_ui: bool,
    pub pulse_sender: bool,
    pub pulse_receiver: bool,
    pub drawable: bool,
}

/// A connected client: liveness, an outbound transport, and its scenegraph
/// (the owning path-to-node map).
pub struct Client {
    pub alive: bool,
    pub has_transport: bool,
    pub scenegraph: Vec<(String, u64)>,
}

/// One server instance: every node and client, plus the per-kind registries.
pub struct World {
    pub nodes: Vec<Node>,
    pub clients: Vec<Client>,
    pub zoneables: Registry,
    pub sounds: Registry,
    pub keymaps: Vec<(String, String)>,
}

/// Handler token registered for the built-in enable toggle.
pub const HANDLER_SET_ENABLED: u64 = 1;

/// Handler token registered for the built-in destroy request.
pub const HANDLER_DESTROY: u64 = 2;

/// Handler token registered for a field's size update signal.
pub const HANDLER_FIELD_SET_SIZE: u64 = 3;

/// Handler token registered for a zone's capture signal.
pub const HANDLER_ZONE_CAPTURE: u64 = 4;

/// Handler token registered for a zone's release signal.
pub const HANDLER_ZONE_RELEASE: u64 = 5;

/// Handler token registered for a zone's visibility recompute signal.
pub const HANDLER_ZONE_UPDATE: u64 = 6;

/// Handler token registered for a sound's play signal.
pub const HANDLER_SOUND_PLAY: u64 = 7;

/// Handler token registered for a sound's stop signal.
pub const HANDLER_SOUND_STOP: u64 = 8;

pub open spec fn spatial_wf(s: Spatial, nlen: int) -> bool {
    &&& (s.parent is Some ==> (s.parent->Some_0 as int) < nlen)
    &&& (s.old_parent is Some ==> (s.old_parent->Some_0 as int) < nlen)
    &&& (s.zone is Some ==> (s.zone->Some_0 as int) < nlen)
    &&& -POS_LIMIT <= s.x <= POS_LIMIT
    &&& -POS_LIMIT <= s.y <= POS_LIMIT
    &&& -POS_LIMIT <= s.z <= POS_LIMIT
}

pub open spec fn field_wf(f: FieldShape) -> bool {
    match f {
        FieldShape::Cylinder { length, radius } => {
            0 <= length <= COORD_LIMIT && 0 <= radius <= COORD_LIMIT
        },
    }
}

pub open spec fn zone_wf(z: Zone, nlen: int) -> bool {
    &&& (z.field as int) < nlen
    &&& z.captured.wf()
    &&& (forall|j: int| 0 <= j < z.captured@.len() ==> ((#[trigger] z.captured@[j]) as int) < nlen)
    &&& tbl_unique(z.previous@)
    &&& (forall|j: int| 0 <= j < z.previous@.len() ==> ((#[trigger] z.previous@[j]).1 as int) < nlen)
}

impl World {
    pub open spec fn node_wf(&self, i: int) -> bool {
        let n = self.nodes@[i];
        let nlen = self.nodes@.len() as int;
        &&& (n.client is Some ==> (n.client->Some_0 as int) < self.clients@.len())
        &&& (n.alias is Some ==> 0 <= (n.alias->Some_0.original as int) < i)
        &&& n.aliases.wf()
        &&& (forall|j: int|
            0 <= j < n.aliases@.len() ==> i < ((#[trigger] n.aliases@[j]) as int) < nlen)
        &&& tbl_unique(n.local_signals@)
        &&& tbl_unique(n.local_methods@)
        &&& (n.spatial is Some ==> spatial_wf(n.spatial->Some_0, nlen))
        &&& (n.field is Some ==> field_wf(n.field->Some_0) && n.spatial is Some)
        &&& (n.zone is Some ==> zone_wf(n.zone->Some_0, nlen) && n.spatial is Some)
    }

    pub open spec fn client_wf(&self, c: int) -> bool {
        let cl = self.clients@[c];
        &&& tbl_unique(cl.scenegraph@)
        &&& (forall|j: int|
            0 <= j < cl.scenegraph@.len() ==> ((#[trigger] cl.scenegraph@[j]).1 as int)
                < self.nodes@.len())
    }

    pub open spec fn wf(&self) -> bool {
        &&& (forall|i: int| 0 <= i < self.nodes@.len() ==> self.node_wf(i))
        &&& (forall|c: int| 0 <= c < self.clients@.len() ==> self.client_wf(c))
        &&& self.zoneables.wf()
        &&& (forall|j: int|
            0 <= j < self.zoneables@.len() ==> ((#[trigger] self.zoneables@[j]) as int)
                < self.nodes@.len())
        &&& self.sounds.wf()
        &&& (forall|j: int|
            0 <= j < self.sounds@.len() ==> ((#[trigger] self.sounds@[j]) as int)
                < self.nodes@.len())
    }

    /// A node id that currently resolves: in range and not destroyed.
    pub open spec fn node_alive(&self, i: int) -> bool {
        0 <= i < self.nodes@.len() && self.nodes@[i].alive
    }

    /// A client id that currently resolves.
    pub open spec fn client_alive(&self, c: int) -> bool {
        0 <= c < self.clients@.len() && self.clients@[c].alive
    }

    pub fn new() -> (w: World)
        ensures
            w.wf(),
            w.nodes@.len() == 0,
            w.clients@.len() == 0,
            w.zoneables@.len() == 0,
            w.sounds@.len() == 0,
            w.keymaps@.len() == 0,
    {
        World {
            nodes: Vec::new(),
            clients: Vec::new(),
            zoneables: Registry::new(),
            sounds: Registry::new(),
            keymaps: Vec::new(),
        }
    }

    /// Connect a client; server-internal objects use a client without a
    /// transport.
    pub fn create_client(&mut self, has_transport: bool) -> (c: u64)
        requires
            old(self).wf(),
            old(self).clients@.len() < 0xFFFF_FFFF,
        ensures
            final(self).wf(),
            c as int == old(self).clients@.len(),
            final(self).clients@.len() == old(self).clients@.len() + 1,
            final(self).clients@[c as int].alive,
            final(self).clients@[c as int].has_transport == has_transport,
            final(self).clients@[c as int].scenegraph@.len() == 0,
            final(self).nodes@ == old(self).nodes@,
            final(self).zoneables@ == old(self).zoneables@,
            final(self).sounds@ == old(self).sounds@,
            final(self).keymaps@ == old(self).keymaps@,
    {
        let c = self.clients.len() as u64;
        self.clients.push(Client { alive: true, has_transport, scenegraph: Vec::new() });
        proof {
            assert(forall|i: int|
                0 <= i < self.nodes@.len() ==> old(self).node_wf(i) == self.node_wf(i));
            assert forall|cc: int| 0 <= cc < self.clients@.len() implies self.client_wf(cc) by {
                if cc < old(self).clients@.len() {
                    assert(old(self).client_wf(cc));
                }
            }
        }
        c
    }
}

/// Identity fields of a node: everything fixed at construction.
pub open spec fn node_ident_eq(a: Node, b: Node) -> bool {
    &&& a.alive == b.alive
    &&& a.uid == b.uid
    &&& a.path == b.path
    &&& a.client == b.client
    &&& a.has_transport == b.has_transport
    &&& a.destroyable == b.destroyable
}

/// The two dispatch tables of a node.
pub open spec fn node_tables_eq(a: Node, b: Node) -> bool {
    &&& a.local_signals == b.local_signals
    &&& a.local_methods == b.local_methods
}

/// The capability slots of a node other than spatial, field, zone, sound.
pub open spec fn node_misc_caps_eq(a: Node, b: Node) -> bool {
    &&& a.alias == b.alias
    &&& a.aliases == b.aliases
    &&& a.input_method == b.input_method
    &&& a.input_handler == b.input_handler
    &&& a.item == b.item
    &&& a.item_acceptor == b.item_acceptor
    &&& a.item_ui == b.item_ui
    &&& a.pulse_sender == b.pulse_sender
    &&& a.pulse_receiver == b.pulse_receiver
    &&& a.drawable == b.drawable
}

/// The capability slots of a node.
pub open spec fn node_caps_eq(a: Node, b: Node) -> bool {
    &&& a.alias == b.alias
    &&& a.aliases == b.aliases
    &&& a.spatial == b.spatial
    &&& a.field == b.field
    &&& a.zone == b.zone
    &&& a.sound == b.sound
    &&& a.input_method == b.input_method
    &&& a.input_handler == b.input_handler
    &&& a.item == b.item
    &&& a.item_acceptor == b.item_acceptor
    &&& a.item_ui == b.item_ui
    &&& a.pulse_sender == b.pulse_sender
    &&& a.pulse_receiver == b.pulse_receiver
    &&& a.drawable == b.drawable
}

impl Node {
    pub fn get_path(&self) -> (r: &String)
        ensures
            r@ == self.path@,
    {
        &self.path
    }

    /// Whether a capability slot is occupied.
    pub open spec fn has_aspect(&self, aspect: AspectKind) -> bool {
        match aspect {
            AspectKind::Spatial => self.spatial is Some,
            AspectKind::Field => self.field is Some,
            AspectKind::Zone => self.zone is Some,
            AspectKind::Sound => self.sound is Some,
            AspectKind::InputMethod => self.input_method,
            AspectKind::InputHandler => self.input_handler,
            AspectKind::Item => self.item,
            AspectKind::ItemAcceptor => self.item_acceptor,
            AspectKind::ItemUi => self.item_ui,
            AspectKind::PulseSender => self.pulse_sender,
            AspectKind::PulseReceiver => self.pulse_receiver,
            AspectKind::Drawable => self.drawable,
        }
    }

    /// Resolve a capability slot, or report that this node does not carry
    /// that capability.
    pub fn get_aspect(&self, aspect: AspectKind) -> (r: Result<(), NodeError>)
        ensures
            r is Ok <==> self.has_aspect(aspect),
            r is Err ==> r->Err_0 is AspectMissing,
    {
        let present = match aspect {
            AspectKind::Spatial => self.spatial.is_some(),
            AspectKind::Field => self.field.is_some(),
            AspectKind::Zone => self.zone.is_some(),
            AspectKind::Sound => self.sound.is_some(),
            AspectKind::InputMethod => self.input_method,
            AspectKind::InputHandler => self.input_handler,
            AspectKind::Item => self.item,
            AspectKind::ItemAcceptor => self.item_acceptor,
            AspectKind::ItemUi => self.item_ui,
            AspectKind::PulseSender => self.pulse_sender,
            AspectKind::PulseReceiver => self.pulse_receiver,
            AspectKind::Drawable => self.drawable,
        };
        if present {
            Ok(())
        } else {
            Err(NodeError::AspectMissing)
        }
    }
}

impl World {
    /// The owning client of a node, if it is still connected.
    pub fn get_client(&self, id: u64) -> (r: Option<u64>)
        requires
            self.wf(),
            (id as int) < self.nodes@.len(),
        ensures
            r == (if self.nodes@[id as int].client is Some && self.client_alive(
                self.nodes@[id as int].client->Some_0 as int,
            ) {
                self.nodes@[id as int].client
            } else {
                None::<u64>
            }),
    {
        let _nn = self.nodes.len();
        let _nc = self.clients.len();
        proof {
            assert(self.node_wf(id as int));
        }
        match self.nodes[id as usize].client {
            Some(c) => {
                if self.clients[c as usize].alive {
                    Some(c)
                } else {
                    None
                }
            },
            None => None,
        }
    }

    /// Build an unpublished node at the given path, owned by `client`. The
    /// node starts enabled, with a fresh 21-character uid, a transport
    /// exactly when its client has one, both built-in handlers registered,
    /// and every capability slot empty.
    pub fn create_path(&self, client: u64, path: String, destroyable: bool) -> (n: Node)
        requires
            self.wf(),
            (client as int) < self.clients@.len(),
        ensures
            n.alive,
            n.uid@.len() == 21,
            n.path == path,
            n.client == Some(client),
            n.has_transport == self.clients@[client as int].has_transport,
            n.enabled,
            n.destroyable == destroyable,
            tbl_unique(n.local_signals@),
            tbl_lookup(n.local_signals@, "set_enabled"@) == Some(HANDLER_SET_ENABLED),
            tbl_lookup(n.local_signals@, "destroy"@) == Some(HANDLER_DESTROY),
            forall|k: Seq<char>|
                k != "set_enabled"@ && k != "destroy"@ ==> tbl_lookup(n.local_signals@, k)
                    is None,
            n.local_methods@.len() == 0,
            tbl_unique(n.local_methods@),
            n.alias is None,
            n.aliases@.len() == 0,
            n.aliases.wf(),
            n.spatial is None,
            n.field is None,
            n.zone is None,
            n.sound is None,
            !n.input_method,
            !n.input_handler,
            !n.item,
            !n.item_acceptor,
            !n.item_ui,
            !n.pulse_sender,
            !n.pulse_receiver,
            !n.drawable,
    {
        let _nc = self.clients.len();
        let mut local_signals: Vec<(String, u64)> = Vec::new();
        let se = string_set_enabled();
        let de = string_destroy();
        proof {
            reveal_strlit("set_enabled");
            reveal_strlit("destroy");
            assert("set_enabled"@.len() == 11);
            assert("destroy"@.len() == 7);
        }
        tbl_set(&mut local_signals, se, HANDLER_SET_ENABLED);
        tbl_set(&mut local_signals, de, HANDLER_DESTROY);
        Node {
            alive: true,
            uid: generate_uid(),
            path,
            client: Some(client),
            has_transport: self.clients[client as usize].has_transport,
            enabled: true,
            destroyable,
            local_signals,
            local_methods: Vec::new(),
            alias: None,
            aliases: Registry::new(),
            spatial: None,
            field: None,
            zone: None,
            sound: None,
            input_method: false,
            input_handler: false,
            item: false,
            item_acceptor: false,
            item_ui: false,
            pulse_sender: false,
            pulse_receiver: false,
            drawable: false,
        }
    }

    /// Build an unpublished node named `name` under the parent path.
    pub fn create_parent_name(
        &self,
        client: u64,
        parent: &String,
        name: &String,
        destroyable: bool,
    ) -> (n: Node)
        requires
            self.wf(),
            (client as int) < self.clients@.len(),
        ensures
            n.path@ == parent@ + seq!['/'] + name@,
            n.alive,
            n.uid@.len() == 21,
            n.client == Some(client),
            n.has_transport == self.clients@[client as int].has_transport,
            n.enabled,
            n.destroyable == destroyable,
            tbl_unique(n.local_signals@),
            tbl_lookup(n.local_signals@, "set_enabled"@) == Some(HANDLER_SET_ENABLED),
            tbl_lookup(n.local_signals@, "destroy"@) == Some(HANDLER_DESTROY),
            forall|k: Seq<char>|
                k != "set_enabled"@ && k != "destroy"@ ==> tbl_lookup(n.local_signals@, k)
                    is None,
            n.local_methods@.len() == 0,
            tbl_unique(n.local_methods@),
            n.alias is None,
            n.aliases@.len() == 0,
            n.aliases.wf(),
            n.spatial is None,
            n.field is None,
            n.zone is None,
            n.sound is None,
            !n.input_method,
            !n.input_handler,
            !n.item,
            !n.item_acceptor,
            !n.item_ui,
            !n.pulse_sender,
            !n.pulse_receiver,
            !n.drawable,
    {
        let path = join_path(parent, name);
        self.create_path(client, path, destroyable)
    }

    /// Publish a freshly built node into its owning client's scenegraph,
    /// which takes the owning reference to it. Fails exactly when the
    /// owning client is gone (or the node never had one).
    pub fn add_to_scenegraph(&mut self, node: Node) -> (r: Result<u64, NodeError>)
        requires
            old(self).wf(),
            node.client is Some ==> (node.client->Some_0 as int) < old(self).clients@.len(),
            node.alias is None,
            node.aliases@.len() == 0,
            node.aliases.wf(),
            tbl_unique(node.local_signals@),
            tbl_unique(node.local_methods@),
            node.spatial is None,
            node.field is None,
            node.zone is None,
        ensures
            final(self).wf(),
            match r {
                Ok(id) => {
                    &&& node.client is Some
                    &&& old(self).client_alive(node.client->Some_0 as int)
                    &&& id as int == old(self).nodes@.len()
                    &&& final(self).nodes@ == old(self).nodes@.push(node)
                    &&& final(self).clients@.len() == old(self).clients@.len()
                    &&& (forall|cc: int|
                        0 <= cc < old(self).clients@.len() && cc != node.client->Some_0 as int
                            ==> final(self).clients@[cc] == old(self).clients@[cc])
                    &&& tbl_lookup(
                        final(self).clients@[node.client->Some_0 as int].scenegraph@,
                        node.path@,
                    ) == Some(id)
                    &&& (forall|k: Seq<char>|
                        k != node.path@ ==> tbl_lookup(
                            final(self).clients@[node.client->Some_0 as int].scenegraph@,
                            k,
                        ) == tbl_lookup(
                            old(self).clients@[node.client->Some_0 as int].scenegraph@,
                            k,
                        ))
                    &&& final(self).clients@[node.client->Some_0 as int].alive == old(
                        self,
                    ).clients@[node.client->Some_0 as int].alive
                    &&& final(self).clients@[node.client->Some_0 as int].has_transport == old(
                        self,
                    ).clients@[node.client->Some_0 as int].has_transport
                    &&& final(self).zoneables@ == old(self).zoneables@
                    &&& final(self).sounds@ == old(self).sounds@
                    &&& final(self).keymaps@ == old(self).keymaps@
                },
                Err(e) => {
                    &&& e is ClientGone
                    &&& *final(self) == *old(self)
                    &&& !(node.client is Some && old(self).client_alive(
                        node.client->Some_0 as int,
                    ))
                },
            },
    {
        let c: u64 = match node.client {
            Some(c) => c,
            None => {
                return Err(NodeError::ClientGone);
            },
        };
        let _nc = self.clients.len();
        if !self.clients[c as usize].alive {
            return Err(NodeError::ClientGone);
        }
        let id = self.nodes.len() as u64;
        let path = node.path.clone();
        let ghost prev = *self;
        self.nodes.push(node);
        proof {
            assert(prev.client_wf(c as int));
        }
        tbl_set(&mut self.clients[c as usize].scenegraph, path, id);
        proof {
            let ci = c as int;
            assert forall|i: int| 0 <= i < self.nodes@.len() implies self.node_wf(i) by {
                if i < prev.nodes@.len() {
                    assert(prev.node_wf(i));
                    assert(self.nodes@[i] == prev.nodes@[i]);
                } else {
                    assert(self.nodes@[i] == node);
                }
            }
            assert forall|cc: int| 0 <= cc < self.clients@.len() implies self.client_wf(cc) by {
                assert(prev.client_wf(cc));
                if cc != ci {
                    assert(self.clients@[cc] == prev.clients@[cc]);
                } else {
                    assert forall|j: int|
                        0 <= j < self.clients@[cc].scenegraph@.len() implies ((
                        #[trigger] self.clients@[cc].scenegraph@[j]).1 as int)
                            < self.nodes@.len() by {
                        let e = self.clients@[cc].scenegraph@[j];
                        if e.1 != id {
                            assert(prev.clients@[cc].scenegraph@.contains(e));
                            let k = choose|k: int|
                                0 <= k < prev.clients@[cc].scenegraph@.len()
                                    && prev.clients@[cc].scenegraph@[k] == e;
                            assert((prev.clients@[cc].scenegraph@[k].1 as int)
                                < prev.nodes@.len());
                        }
                    }
                }
            }
        }
        Ok(id)
    }

    /// Register (or replace) a one-way signal handler on a node.
    pub fn add_local_signal(&mut self, id: u64, name: String, handler: u64)
        requires
            old(self).wf(),
            (id as int) < old(self).nodes@.len(),
        ensures
            final(self).wf(),
            final(self).nodes@.len() == old(self).nodes@.len(),
            forall|j: int|
                0 <= j < old(self).nodes@.len() && j != id as int ==> final(self).nodes@[j]
                    == old(self).nodes@[j],
            node_ident_eq(final(self).nodes@[id as int], old(self).nodes@[id as int]),
            node_caps_eq(final(self).nodes@[id as int], old(self).nodes@[id as int]),
            final(self).nodes@[id as int].enabled == old(self).nodes@[id as int].enabled,
            final(self).nodes@[id as int].local_methods == old(
                self,
            ).nodes@[id as int].local_methods,
            tbl_unique(final(self).nodes@[id as int].local_signals@),
            tbl_lookup(final(self).nodes@[id as int].local_signals@, name@) == Some(handler),
            forall|k: Seq<char>|
                k != name@ ==> tbl_lookup(final(self).nodes@[id as int].local_signals@, k)
                    == tbl_lookup(old(self).nodes@[id as int].local_signals@, k),
            final(self).clients@ == old(self).clients@,
            final(self).zoneables@ == old(self).zoneables@,
            final(self).sounds@ == old(self).sounds@,
            final(self).keymaps@ == old(self).keymaps@,
    {
        let _nn = self.nodes.len();
        let ghost prev = *self;
        proof {
            assert(prev.node_wf(id as int));
        }
        tbl_set(&mut self.nodes[id as usize].local_signals, name, handler);
        proof {
            lemma_one_node_table_change(prev, *self, id as int);
        }
    }

    /// Register (or replace) a request/response method handler on a node.
    pub fn add_local_method(&mut self, id: u64, name: String, handler: u64)
        requires
            old(self).wf(),
            (id as int) < old(self).nodes@.len(),
        ensures
            final(self).wf(),
            final(self).nodes@.len() == old(self).nodes@.len(),
            forall|j: int|
                0 <= j < old(self).nodes@.len() && j != id as int ==> final(self).nodes@[j]
                    == old(self).nodes@[j],
            node_ident_eq(final(self).nodes@[id as int], old(self).nodes@[id as int]),
            node_caps_eq(final(self).nodes@[id as int], old(self).nodes@[id as int]),
            final(self).nodes@[id as int].enabled == old(self).nodes@[id as int].enabled,
            final(self).nodes@[id as int].local_signals == old(
                self,
            ).nodes@[id as int].local_signals,
            tbl_unique(final(self).nodes@[id as int].local_methods@),
            tbl_lookup(final(self).nodes@[id as int].local_methods@, name@) == Some(handler),
            forall|k: Seq<char>|
                k != name@ ==> tbl_lookup(final(self).nodes@[id as int].local_methods@, k)
                    == tbl_lookup(old(self).nodes@[id as int].local_methods@, k),
            final(self).clients@ == old(self).clients@,
            final(self).zoneables@ == old(self).zoneables@,
            final(self).sounds@ == old(self).sounds@,
            final(self).keymaps@ == old(self).keymaps@,
    {
        let _nn = self.nodes.len();
        let ghost prev = *self;
        proof {
            assert(prev.node_wf(id as int));
        }
        tbl_set(&mut self.nodes[id as usize].local_methods, name, handler);
        proof {
            lemma_one_node_table_change(prev, *self, id as int);
        }
    }

    /// Atomically toggle whether downstream consumers treat the node as
    /// enabled; nothing else changes.
    pub fn set_enabled(&mut self, id: u64, enabled: bool)
        requires
            old(self).wf(),
            (id as int) < old(self).nodes@.len(),
        ensures
            final(self).wf(),
            final(self).nodes@.len() == old(self).nodes@.len(),
            forall|j: int|
                0 <= j < old(self).nodes@.len() && j != id as int ==> final(self).nodes@[j]
                    == old(self).nodes@[j],
            node_ident_eq(final(self).nodes@[id as int], old(self).nodes@[id as int]),
            node_caps_eq(final(self).nodes@[id as int], old(self).nodes@[id as int]),
            node_tables_eq(final(self).nodes@[id as int], old(self).nodes@[id as int]),
            final(self).nodes@[id as int].enabled == enabled,
            final(self).clients@ == old(self).clients@,
            final(self).zoneables@ == old(self).zoneables@,
            final(self).sounds@ == old(self).sounds@,
            final(self).keymaps@ == old(self).keymaps@,
    {
        let _nn = self.nodes.len();
        let ghost prev = *self;
        proof {
            assert(prev.node_wf(id as int));
        }
        self.nodes[id as usize].enabled = enabled;
        proof {
            lemma_one_node_table_change(prev, *self, id as int);
        }
    }
}

/// When one node changed only in its dispatch tables or enabled flag, and
/// everything else in the world stayed, well-formedness carries over given
/// the changed node's own checks.
proof fn lemma_one_node_table_change(prev: World, cur: World, i: int)
    requires
        prev.wf(),
        0 <= i < prev.nodes@.len(),
        cur.nodes@.len() == prev.nodes@.len(),
        forall|j: int| 0 <= j < prev.nodes@.len() && j != i ==> cur.nodes@[j] == prev.nodes@[j],
        node_ident_eq(cur.nodes@[i], prev.nodes@[i]),
        node_caps_eq(cur.nodes@[i], prev.nodes@[i]),
        tbl_unique(cur.nodes@[i].local_signals@),
        tbl_unique(cur.nodes@[i].local_methods@),
        cur.clients@ == prev.clients@,
        cur.zoneables@ == prev.zoneables@,
        cur.zoneables.wf(),
        cur.sounds@ == prev.sounds@,
        cur.sounds.wf(),
    ensures
        cur.wf(),
{
    assert forall|j: int| 0 <= j < cur.nodes@.len() implies cur.node_wf(j) by {
        assert(prev.node_wf(j));
        if j != i {
            assert(cur.nodes@[j] == prev.nodes@[j]);
        }
    }
    assert forall|c: int| 0 <= c < cur.clients@.len() implies cur.client_wf(c) by {
        assert(prev.client_wf(c));
    }
}

/// When exactly one node changed and its own checks hold again, and the
/// registries still hold in-range ids, well-formedness carries over.
pub proof fn lemma_one_node_changed(prev: World, cur: World, i: int)
    requires
        prev.wf(),
        0 <= i < prev.nodes@.len(),
        cur.nodes@.len() == prev.nodes@.len(),
        forall|j: int| 0 <= j < prev.nodes@.len() && j != i ==> cur.nodes@[j] == prev.nodes@[j],
        cur.clients@ == prev.clients@,
        cur.zoneables.wf(),
        forall|j: int|
            0 <= j < cur.zoneables@.len() ==> ((#[trigger] cur.zoneables@[j]) as int)
                < cur.nodes@.len(),
        cur.sounds.wf(),
        forall|j: int|
            0 <= j < cur.sounds@.len() ==> ((#[trigger] cur.sounds@[j]) as int)
                < cur.nodes@.len(),
        cur.node_wf(i),
    ensures
        cur.wf(),
{
    assert forall|j: int| 0 <= j < cur.nodes@.len() implies cur.node_wf(j) by {
        if j != i {
            assert(prev.node_wf(j));
            assert(cur.nodes@[j] == prev.nodes@[j]);
        }
    }
    assert forall|c: int| 0 <= c < cur.clients@.len() implies cur.client_wf(c) by {
        assert(prev.client_wf(c));
    }
}

/// The literal name of the built-in enable toggle signal.
fn string_set_enabled() -> (r: String)
    ensures
        r@ == "set_enabled"@,
{
    let s = "set_enabled";
    s.to_string()
}

/// The literal name of the built-in destroy request signal.
fn string_destroy() -> (r: String)
    ensures
        r@ == "destroy"@,
{
    let s = "destroy";
    s.to_string()
}

} // verus!
