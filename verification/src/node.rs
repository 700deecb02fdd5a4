//! The capability of a node that drives itself.

use vstd::prelude::*;
use crate::node_address::NodeAddress;

verus! {

/// A node: a unit of work that owns its whole run loop and is supervised
/// only for its completion.
pub trait Node: Sync + Send + 'static {
    /// Runs the node to its end.
    fn main_loop(&mut self);

    /// The address under which the node is registered.
    fn address(&self) -> &NodeAddress;
}

} // verus!
