//! Dispatch: resolving a named signal or method on a node, forwarding
//! through capability-scoped aliases, and fanning a server-side event out to
//! every observer whose allow-list admits it.
//!
//! A forbidden name and an unknown name fail with the same error, so a
//! remote peer cannot probe an object's full capability set through an
//! alias.

use vstd::prelude::*;

use crate::node::{Message, Node, ScenegraphError, NodeError, World};
use crate::table::{contains_name, has_name, tbl_get, tbl_lookup};

verus! {

/// A resolved local dispatch: the non-alias node that owns the handler, the
/// handler token to run, and the payload as the handler receives it.
pub struct Invocation {
    pub node: u64,
    pub handler: u64,
    pub message: Message,
}

/// One outbound transmission produced by a fan-out: the node whose channel
/// carries it, that node's path, and the payload.
pub struct Delivery {
    pub node: u64,
    pub path: String,
    pub name: String,
    pub data: Vec<u8>,
    pub fds: Vec<u64>,
}

/// Mathematical image of a `Delivery`.
pub struct DeliveryView {
    pub node: int,
    pub path: Seq<char>,
    pub name: Seq<char>,
    pub data: Seq<u8>,
    pub fds: Seq<u64>,
}

impl View for Delivery {
    type V = DeliveryView;

    open spec fn view(&self) -> DeliveryView {
        DeliveryView {
            node: self.node as int,
            path: self.path@,
            name: self.name@,
            data: self.data@,
            fds: self.fds@,
        }
    }
}

/// Where a named dispatch on `id` lands: the owning node and handler token,
/// plus whether the payload crossed at least one alias boundary on the way
/// (out-of-band resources are zeroed there). An alias checks its inbound
/// allow-list first; a name it does not grant fails exactly like a name
/// nobody implements.
pub open spec fn resolve_dispatch(
    w: World,
    id: int,
    name: Seq<char>,
    for_signal: bool,
) -> Result<(int, u64, bool), ScenegraphError>
    decreases id,
    when 0 <= id < w.nodes@.len() && (w.nodes@[id].alias is Some ==> 0 <= (
    w.nodes@[id].alias->Some_0.original as int) < id)
{
    let n = w.nodes@[id];
    match n.alias {
        Some(a) => {
            let allowed = if for_signal {
                has_name(a.info.server_signals@, name)
            } else {
                has_name(a.info.server_methods@, name)
            };
            if !allowed {
                Err(
                    if for_signal {
                        ScenegraphError::SignalNotFound
                    } else {
                        ScenegraphError::MethodNotFound
                    },
                )
            } else if !w.node_alive(a.original as int) {
                Err(ScenegraphError::BrokenAlias)
            } else {
                match resolve_dispatch(w, a.original as int, name, for_signal) {
                    Ok((t, h, _)) => Ok((t, h, true)),
                    Err(e) => Err(e),
                }
            }
        },
        None => {
            let tbl = if for_signal {
                n.local_signals@
            } else {
                n.local_methods@
            };
            match tbl_lookup(tbl, name) {
                Some(h) => Ok((id, h, false)),
                None => Err(
                    if for_signal {
                        ScenegraphError::SignalNotFound
                    } else {
                        ScenegraphError::MethodNotFound
                    },
                ),
            }
        },
    }
}

/// Whether a node is an alias whose outbound allow-list grants `name`.
pub open spec fn alias_allows_out(n: Node, name: Seq<char>) -> bool {
    n.alias is Some && has_name(n.alias->Some_0.info.client_signals@, name)
}

/// Fan-out of one remote signal from node `id`: every alias of it whose
/// outbound allow-list grants the name relays the payload (resources
/// stripped) out through its own fan-out, and the node's own transport, if
/// any, carries the payload unmodified, resources intact.
pub open spec fn remote_deliveries(
    w: World,
    id: int,
    name: Seq<char>,
    data: Seq<u8>,
    fds: Seq<u64>,
) -> Seq<DeliveryView>
    decreases w.nodes@.len() - id, 1int, 0int,
    when 0 <= id < w.nodes@.len()
{
    let n = w.nodes@[id];
    let relayed = remote_deliveries_list(w, id, n.aliases@, name, data);
    if n.has_transport {
        relayed + seq![DeliveryView { node: id, path: n.path@, name, data, fds }]
    } else {
        relayed
    }
}

/// Fan-out through a list of alias node ids of node `id`, in order.
pub open spec fn remote_deliveries_list(
    w: World,
    id: int,
    rest: Seq<u64>,
    name: Seq<char>,
    data: Seq<u8>,
) -> Seq<DeliveryView>
    decreases w.nodes@.len() - id, 0int, rest.len(),
    when 0 <= id < w.nodes@.len()
{
    if rest.len() == 0 {
        Seq::empty()
    } else {
        let k = rest[0] as int;
        let head = if id < k < w.nodes@.len() && w.nodes@[k].alive && alias_allows_out(
            w.nodes@[k],
            name,
        ) {
            remote_deliveries(w, k, name, data, Seq::empty())
        } else {
            Seq::empty()
        };
        head + remote_deliveries_list(w, id, rest.drop_first(), name, data)
    }
}

/// Appending one more alias id to the list appends its own fan-out.
proof fn lemma_deliveries_list_snoc(
    w: World,
    id: int,
    rest: Seq<u64>,
    k: u64,
    name: Seq<char>,
    data: Seq<u8>,
)
    requires
        0 <= id < w.nodes@.len(),
    ensures
        remote_deliveries_list(w, id, rest.push(k), name, data) == remote_deliveries_list(
            w,
            id,
            rest,
            name,
            data,
        ) + (if id < (k as int) < w.nodes@.len() && w.nodes@[k as int].alive && alias_allows_out(
            w.nodes@[k as int],
            name,
        ) {
            remote_deliveries(w, k as int, name, data, Seq::empty())
        } else {
            Seq::<DeliveryView>::empty()
        }),
    decreases rest.len(),
{
    let tail = if id < (k as int) < w.nodes@.len() && w.nodes@[k as int].alive && alias_allows_out(
        w.nodes@[k as int],
        name,
    ) {
        remote_deliveries(w, k as int, name, data, Seq::empty())
    } else {
        Seq::<DeliveryView>::empty()
    };
    if rest.len() == 0 {
        assert(rest.push(k)[0] == k);
        assert(rest.push(k).drop_first() =~= Seq::<u64>::empty());
        assert(remote_deliveries_list(w, id, Seq::<u64>::empty(), name, data)
            =~= Seq::<DeliveryView>::empty());
        assert(remote_deliveries_list(w, id, rest.push(k), name, data) =~= tail);
        assert(remote_deliveries_list(w, id, rest, name, data) + tail =~= tail);
    } else {
        assert(rest.push(k)[0] == rest[0]);
        assert(rest.push(k).drop_first() =~= rest.drop_first().push(k));
        lemma_deliveries_list_snoc(w, id, rest.drop_first(), k, name, data);
        assert(remote_deliveries_list(w, id, rest.push(k), name, data) =~= remote_deliveries_list(
            w,
            id,
            rest,
            name,
            data,
        ) + tail);
    }
}

impl World {
    /// One-way dispatch toward a handler. If the node is an alias, the name
    /// is first checked against its inbound signal allow-list (failing with
    /// `SignalNotFound`, indistinguishable from an unimplemented name), then
    /// the original is resolved (failing with `BrokenAlias` if gone) and
    /// dispatch recurses into it with out-of-band resources stripped.
    /// Otherwise the local signal table decides.
    pub fn send_local_signal(&self, id: u64, name: &String, message: Message) -> (r: Result<
        Invocation,
        ScenegraphError,
    >)
        requires
            self.wf(),
            (id as int) < self.nodes@.len(),
        ensures
            ({
                let spec_r = resolve_dispatch(*self, id as int, name@, true);
                match r {
                    Ok(inv) => {
                        &&& spec_r is Ok
                        &&& inv.node as int == spec_r->Ok_0.0
                        &&& inv.handler == spec_r->Ok_0.1
                        &&& inv.message.data@ == message.data@
                        &&& inv.message.fds@ == (if spec_r->Ok_0.2 {
                            Seq::<u64>::empty()
                        } else {
                            message.fds@
                        })
                    },
                    Err(e) => spec_r is Err && e == spec_r->Err_0,
                }
            }),
        decreases id,
    {
        let _nn = self.nodes.len();
        proof {
            assert(self.node_wf(id as int));
        }
        let node = &self.nodes[id as usize];
        match &node.alias {
            Some(a) => {
                if !contains_name(&a.info.server_signals, name) {
                    Err(ScenegraphError::SignalNotFound)
                } else {
                    let orig = a.original;
                    proof {
                        assert(self.node_wf(orig as int));
                    }
                    if self.nodes[orig as usize].alive {
                        let stripped = Message { data: message.data, fds: Vec::new() };
                        let r = self.send_local_signal(orig, name, stripped);
                        proof {
                            assert(resolve_dispatch(*self, id as int, name@, true)
                                matches Ok((t, h, c)) ==> c);
                        }
                        r
                    } else {
                        Err(ScenegraphError::BrokenAlias)
                    }
                }
            },
            None => {
                match tbl_get(&node.local_signals, name) {
                    Some(h) => Ok(Invocation { node: id, handler: h, message }),
                    None => Err(ScenegraphError::SignalNotFound),
                }
            },
        }
    }

    /// Request/response dispatch toward a handler, with the same alias
    /// discipline as signals but over the method allow-list and table, and
    /// `MethodNotFound` as the conflated error. The returned value is the
    /// single completion owed to the caller's responder: either the
    /// resolved invocation or the immediate error.
    pub fn execute_local_method(&self, id: u64, name: &String, message: Message) -> (r: Result<
        Invocation,
        ScenegraphError,
    >)
        requires
            self.wf(),
            (id as int) < self.nodes@.len(),
        ensures
            ({
                let spec_r = resolve_dispatch(*self, id as int, name@, false);
                match r {
                    Ok(inv) => {
                        &&& spec_r is Ok
                        &&& inv.node as int == spec_r->Ok_0.0
                        &&& inv.handler == spec_r->Ok_0.1
                        &&& inv.message.data@ == message.data@
                        &&& inv.message.fds@ == (if spec_r->Ok_0.2 {
                            Seq::<u64>::empty()
                        } else {
                            message.fds@
                        })
                    },
                    Err(e) => spec_r is Err && e == spec_r->Err_0,
                }
            }),
        decreases id,
    {
        let _nn = self.nodes.len();
        proof {
            assert(self.node_wf(id as int));
        }
        let node = &self.nodes[id as usize];
        match &node.alias {
            Some(a) => {
                if !contains_name(&a.info.server_methods, name) {
                    Err(ScenegraphError::MethodNotFound)
                } else {
                    let orig = a.original;
                    proof {
                        assert(self.node_wf(orig as int));
                    }
                    if self.nodes[orig as usize].alive {
                        let stripped = Message { data: message.data, fds: Vec::new() };
                        let r = self.execute_local_method(orig, name, stripped);
                        proof {
                            assert(resolve_dispatch(*self, id as int, name@, false)
                                matches Ok((t, h, c)) ==> c);
                        }
                        r
                    } else {
                        Err(ScenegraphError::BrokenAlias)
                    }
                }
            },
            None => {
                match tbl_get(&node.local_methods, name) {
                    Some(h) => Ok(Invocation { node: id, handler: h, message }),
                    None => Err(ScenegraphError::MethodNotFound),
                }
            },
        }
    }

    /// Fan a server-side event out: one delivery per alias-scoped observer
    /// that admits the name (resources stripped), plus the node's own
    /// channel with resources intact, each exactly once, in registry order.
    pub fn send_remote_signal(&self, id: u64, name: &String, message: &Message) -> (r: Vec<
        Delivery,
    >)
        requires
            self.wf(),
            (id as int) < self.nodes@.len(),
        ensures
            r@.map_values(|d: Delivery| d@) == remote_deliveries(
                *self,
                id as int,
                name@,
                message.data@,
                message.fds@,
            ),
        decreases self.nodes@.len() - id,
    {
        let _nn = self.nodes.len();
        proof {
            assert(self.node_wf(id as int));
        }
        let node = &self.nodes[id as usize];
        let snapshot = node.aliases.get_valid_contents();
        let mut out: Vec<Delivery> = Vec::new();
        let n = snapshot.len();
        let mut i: usize = 0;
        proof {
            assert(node.aliases@.take(0) =~= Seq::<u64>::empty());
            assert(out@.map_values(|d: Delivery| d@) =~= Seq::<DeliveryView>::empty());
        }
        while i < n
            invariant
                0 <= i <= n,
                self.wf(),
                (id as int) < self.nodes@.len(),
                n == snapshot@.len(),
                snapshot@ == self.nodes@[id as int].aliases@,
                forall|j: int|
                    0 <= j < snapshot@.len() ==> (id as int) < ((#[trigger] snapshot@[j]) as int)
                        < self.nodes@.len(),
                out@.map_values(|d: Delivery| d@) == remote_deliveries_list(
                    *self,
                    id as int,
                    snapshot@.take(i as int),
                    name@,
                    message.data@,
                ),
            decreases n - i,
        {
            let _nn2 = self.nodes.len();
            let k = snapshot[i];
            let ghost prev_out = out@;
            let kn = &self.nodes[k as usize];
            let mut allowed = false;
            if kn.alive {
                match &kn.alias {
                    Some(a) => {
                        allowed = contains_name(&a.info.client_signals, name);
                    },
                    None => {},
                }
            }
            if allowed {
                let stripped = Message { data: message.data.clone(), fds: Vec::new() };
                let mut sub = self.send_remote_signal(k, name, &stripped);
                let ghost subv = sub@;
                proof {
                    assert(stripped.data@ =~= message.data@);
                    assert(stripped.fds@ =~= Seq::<u64>::empty());
                }
                out.append(&mut sub);
                proof {
                    assert(out@ == prev_out + subv);
                    lemma_map_view_concat(prev_out, subv);
                }
            }
            proof {
                lemma_deliveries_list_snoc(
                    *self,
                    id as int,
                    snapshot@.take(i as int),
                    k,
                    name@,
                    message.data@,
                );
                assert(snapshot@.take(i as int).push(k) =~= snapshot@.take(i as int + 1));
                assert(out@.map_values(|d: Delivery| d@) =~= remote_deliveries_list(
                    *self,
                    id as int,
                    snapshot@.take(i as int + 1),
                    name@,
                    message.data@,
                ));
            }
            i += 1;
        }
        proof {
            assert(snapshot@.take(n as int) =~= snapshot@);
        }
        if node.has_transport {
            let ghost prev_out = out@;
            let d = Delivery {
                node: id,
                path: node.path.clone(),
                name: name.clone(),
                data: message.data.clone(),
                fds: message.fds.clone(),
            };
            proof {
                assert(d@.fds =~= message.fds@);
                assert(d@.data =~= message.data@);
                assert(d@.path =~= self.nodes@[id as int].path@);
            }
            out.push(d);
            proof {
                assert(out@ == prev_out.push(d));
                lemma_map_view_push(prev_out, d);
                assert(out@.map_values(|d2: Delivery| d2@) =~= remote_deliveries(
                    *self,
                    id as int,
                    name@,
                    message.data@,
                    message.fds@,
                ));
            }
        } else {
            proof {
                assert(out@.map_values(|d2: Delivery| d2@) =~= remote_deliveries(
                    *self,
                    id as int,
                    name@,
                    message.data@,
                    message.fds@,
                ));
            }
        }
        out
    }

    /// The correlated request that a typed remote method call would put on
    /// this node's transport; fails exactly when the node has none.
    pub fn prepare_remote_method(&self, id: u64, name: &String) -> (r: Result<
        (String, String),
        NodeError,
    >)
        requires
            self.wf(),
            (id as int) < self.nodes@.len(),
        ensures
            r is Ok <==> self.nodes@[id as int].has_transport,
            r is Ok ==> r->Ok_0.0@ == self.nodes@[id as int].path@ && r->Ok_0.1@ == name@,
            r is Err ==> r->Err_0 is TransportMissing,
    {
        let _nn = self.nodes.len();
        let node = &self.nodes[id as usize];
        if node.has_transport {
            Ok((node.path.clone(), name.clone()))
        } else {
            Err(NodeError::TransportMissing)
        }
    }
}

proof fn lemma_map_view_concat(a: Seq<Delivery>, b: Seq<Delivery>)
    ensures
        (a + b).map_values(|d: Delivery| d@) == a.map_values(|d: Delivery| d@) + b.map_values(
            |d: Delivery| d@,
        ),
{
    assert((a + b).map_values(|d: Delivery| d@) =~= a.map_values(|d: Delivery| d@)
        + b.map_values(|d: Delivery| d@));
}

proof fn lemma_map_view_push(a: Seq<Delivery>, d: Delivery)
    ensures
        a.push(d).map_values(|x: Delivery| x@) == a.map_values(|x: Delivery| x@).push(d@),
{
    assert(a.push(d).map_values(|x: Delivery| x@) =~= a.map_values(|x: Delivery| x@).push(d@));
}

/// Wrap a handler's own outcome: a domain failure reported by the handler
/// surfaces to the caller as `SignalError` with its message, fatal to
/// nothing else.
pub fn complete_local_signal(result: Result<(), String>) -> (r: Result<(), ScenegraphError>)
    ensures
        result is Ok ==> r is Ok,
        result is Err ==> (r matches Err(ScenegraphError::SignalError { error }) && error@
            == result->Err_0@),
{
    match result {
        Ok(()) => Ok(()),
        Err(error) => Err(ScenegraphError::SignalError { error }),
    }
}

} // verus!
