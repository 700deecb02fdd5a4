//! The supervisor of nodes that drive themselves.

use vstd::prelude::*;
use crate::node::Node;
use crate::node_address::NodeAddress;

verus! {

/// Why the node manager refused a node.
#[derive(Debug, Clone, Copy, PartialEq, Eq, Structural)]
pub enum NodeManagerError {
    /// A node is already registered under the address.
    AddressInUse,
}

impl NodeManagerError {
    /// The error in words.
    pub fn to_string(&self) -> (r: String)
        ensures
            r@ == "node's address is already in use"@,
    {
        "node's address is already in use".to_owned()
    }
}

/// At most one node is registered under any address.
pub open spec fn distinct(reg: Seq<Seq<char>>) -> bool {
    forall|i: int, j: int| 0 <= i < j < reg.len() ==> reg[i] != reg[j]
}

/// Registering a node under `address`: refused where the address is taken,
/// else the address joins the registry at its end.
pub open spec fn start_result(reg: Seq<Seq<char>>, address: Seq<char>) -> Result<
    Seq<Seq<char>>,
    NodeManagerError,
> {
    if reg.contains(address) {
        Err(NodeManagerError::AddressInUse)
    } else {
        Ok(reg.push(address))
    }
}

/// The registry of the nodes that run in one process: the addresses that are
/// taken, in the order in which they were registered.
pub struct NodeManager {
    addrs: Vec<NodeAddress>,
}

impl View for NodeManager {
    type V = Seq<Seq<char>>;

    closed spec fn view(&self) -> Seq<Seq<char>> {
        Seq::new(self.addrs.len() as nat, |i: int| self.addrs[i]@)
    }
}

impl NodeManager {
    /// The registry's invariant: no address twice.
    pub closed spec fn wf(&self) -> bool {
        distinct(self@)
    }

    /// What the invariant says of the public view.
    pub proof fn lemma_wf(&self)
        requires
            self.wf(),
        ensures
            distinct(self@),
    {
    }

    /// An empty registry.
    pub fn new() -> (r: NodeManager)
        ensures
            r.wf(),
            r@ == Seq::<Seq<char>>::empty(),
    {
        NodeManager { addrs: Vec::new() }
    }

    /// The number of nodes registered.
    pub fn len(&self) -> (r: usize)
        ensures
            r == self@.len(),
    {
        self.addrs.len()
    }

    /// Whether a node is registered under `addr`.
    pub fn contains(&self, addr: &NodeAddress) -> (r: bool)
        ensures
            r == self@.contains(addr@),
    {
        let mut i: usize = 0;
        while i < self.addrs.len()
            invariant
                i <= self.addrs.len(),
                forall|k: int| 0 <= k < i ==> self@[k] != addr@,
            decreases self.addrs.len() - i,
        {
            if self.addrs[i] == *addr {
                assert(self@[i as int] == addr@);
                return true;
            }
            i = i + 1;
        }
        false
    }

    /// Registers `addr`. Where the address is taken, nothing changes.
    pub fn register(&mut self, addr: NodeAddress) -> (r: Result<(), NodeManagerError>)
        requires
            old(self).wf(),
        ensures
            final(self).wf(),
            match r {
                Ok(()) => start_result(old(self)@, addr@) == Ok::<
                    Seq<Seq<char>>,
                    NodeManagerError,
                >(final(self)@),
                Err(e) => {
                    &&& start_result(old(self)@, addr@) == Err::<Seq<Seq<char>>, NodeManagerError>(e)
                    &&& final(self)@ == old(self)@
                },
            },
    {
        if self.contains(&addr) {
            return Err(NodeManagerError::AddressInUse);
        }
        let ghost before = self@;
        let ghost text = addr@;
        self.addrs.push(addr);
        proof {
            assert(self@ =~= before.push(text));
            assert forall|i: int, j: int| 0 <= i < j < self@.len() implies self@[i] != self@[j] by {
                if j < before.len() {
                    assert(before[i] != before[j]);
                } else {
                    assert(before.contains(before[i]));
                }
            }
        }
        Ok(())
    }

    /// Registers `node` under the address that the node itself reports, and
    /// hands the node back for the caller to launch. Where that address is
    /// taken, the node is refused and nothing changes. Which address the node
    /// reports is the node's affair: the outcome is that of registering one
    /// address, so an empty registry refuses no node.
    pub fn start_node<N: Node>(&mut self, node: N) -> (r: Result<N, NodeManagerError>)
        requires
            old(self).wf(),
        ensures
            final(self).wf(),
            exists|reported: Seq<char>|
                match r {
                    Ok(n) => {
                        &&& n == node
                        &&& #[trigger] start_result(old(self)@, reported) == Ok::<
                            Seq<Seq<char>>,
                            NodeManagerError,
                        >(final(self)@)
                    },
                    Err(e) => {
                        &&& #[trigger] start_result(old(self)@, reported) == Err::<
                            Seq<Seq<char>>,
                            NodeManagerError,
                        >(e)
                        &&& final(self)@ == old(self)@
                    },
                },
            old(self)@.len() == 0 ==> r is Ok,
            r matches Ok(_) ==> {
                &&& final(self)@.len() == old(self)@.len() + 1
                &&& final(self)@.drop_last() == old(self)@
                &&& !old(self)@.contains(final(self)@.last())
            },
            r matches Err(e) ==> e == NodeManagerError::AddressInUse,
    {
        let addr = node.address().clone();
        let ghost before = self@;
        let ghost reported = addr@;
        match self.register(addr) {
            Ok(()) => {
                proof {
                    assert(self@.drop_last() =~= before);
                    assert(start_result(before, reported) == Ok::<Seq<Seq<char>>, NodeManagerError>(
                        self@,
                    ));
                }
                Ok(node)
            },
            Err(e) => {
                proof {
                    assert(start_result(before, reported) == Err::<
                        Seq<Seq<char>>,
                        NodeManagerError,
                    >(e));
                }
                Err(e)
            },
        }
    }
}

} // verus!
