//! Capability-scoped proxies. An alias is a node of its own, granted to a
//! client, that forwards dispatch to an original node under explicit
//! allow-lists and reports a broken reference once the original is gone.

use vstd::prelude::*;

use crate::node::{Alias, AliasInfo, NodeError, World};
use crate::table::tbl_lookup;

verus! {

impl World {
    /// Grant a client a scoped proxy of `original`: a fresh node under
    /// `parent_path`, named `name`, whose dispatch is filtered by the four
    /// name sets of `info`. Fails exactly when the granted client is gone.
    #[verifier::rlimit(100)]
    pub fn alias_create(
        &mut self,
        client: u64,
        parent_path: &String,
        name: &String,
        original: u64,
        info: AliasInfo,
    ) -> (r: Result<u64, NodeError>)
        requires
            old(self).wf(),
            (client as int) < old(self).clients@.len(),
            (original as int) < old(self).nodes@.len(),
        ensures
            final(self).wf(),
            match r {
                Ok(a) => {
                    &&& old(self).client_alive(client as int)
                    &&& a as int == old(self).nodes@.len()
                    &&& final(self).nodes@.len() == old(self).nodes@.len() + 1
                    &&& final(self).nodes@[a as int].alive
                    &&& final(self).nodes@[a as int].alias == Some(
                        Alias { original, info },
                    )
                    &&& final(self).nodes@[a as int].path@ == parent_path@ + seq!['/'] + name@
                    &&& final(self).nodes@[a as int].client == Some(client)
                    &&& final(self).nodes@[a as int].has_transport == old(self).clients@[client as int].has_transport
                    &&& final(self).nodes@[a as int].enabled
                    &&& !final(self).nodes@[a as int].destroyable
                    &&& final(self).nodes@[a as int].uid@.len() == 21
                    &&& final(self).nodes@[a as int].spatial is None
                    &&& final(self).nodes@[a as int].zone is None
                    &&& final(self).nodes@[a as int].sound is None
                    &&& final(self).nodes@[original as int].aliases@.contains(a)
                    &&& (forall|x: u64|
                        x != a ==> final(self).nodes@[original as int].aliases@.contains(x)
                            == old(self).nodes@[original as int].aliases@.contains(x))
                    &&& (forall|j: int|
                        0 <= j < old(self).nodes@.len() && j != original as int ==> final(self).nodes@[j] == old(self).nodes@[j])
                    &&& node_same_but_aliases(
                        final(self).nodes@[original as int],
                        old(self).nodes@[original as int],
                    )
                    &&& final(self).zoneables@ == old(self).zoneables@
                    &&& final(self).sounds@ == old(self).sounds@
                },
                Err(e) => {
                    &&& e is ClientGone
                    &&& !old(self).client_alive(client as int)
                    &&& *final(self) == *old(self)
                },
            },
    {
        let _nn = self.nodes.len();
        let _nc = self.clients.len();
        if !self.clients[client as usize].alive {
            return Err(NodeError::ClientGone);
        }
        let node = self.create_parent_name(client, parent_path, name, false);
        let a = match self.add_to_scenegraph(node) {
            Ok(a) => a,
            Err(_) => {
                return Err(NodeError::ClientGone);
            },
        };
        let ghost w1 = *self;
        self.nodes[a as usize].alias = Some(Alias { original, info });
        proof {
            assert(w1.node_wf(a as int));
            assert(self.node_wf(a as int));
            crate::node::lemma_one_node_changed(w1, *self, a as int);
        }
        let ghost w2 = *self;
        proof {
            assert(w2.node_wf(original as int));
        }
        self.nodes[original as usize].aliases.add(a);
        proof {
            assert(w2.node_wf(original as int));
            let al = self.nodes@[original as int].aliases;
            let oldal = w2.nodes@[original as int].aliases;
            assert forall|j: int|
                0 <= j < al@.len() implies (original as int) < ((#[trigger] al@[j]) as int)
                    < self.nodes@.len() by {
                let x = al@[j];
                assert(al@.contains(x));
                if x != a {
                    assert(oldal@.contains(x));
                    let k = choose|k: int| 0 <= k < oldal@.len() && oldal@[k] == x;
                    assert((original as int) < (oldal@[k] as int) < w2.nodes@.len());
                }
            }
            assert(self.node_wf(original as int));
            crate::node::lemma_one_node_changed(w2, *self, original as int);
        }
        Ok(a)
    }
}

/// Two nodes equal in everything but their alias registry.
pub open spec fn node_same_but_aliases(x: crate::node::Node, y: crate::node::Node) -> bool {
    x == (crate::node::Node { aliases: x.aliases, ..y })
}

} // verus!
