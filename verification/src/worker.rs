//! The capability that an actor implements.

use vstd::prelude::*;
use crate::address::Address;
use crate::message::Message;

verus! {

/// An actor: it is handed the application messages sent to its address, one
/// at a time and in the order in which its mailbox received them.
pub trait Worker: Send {
    /// Processes one message that was sent to `addr`, the actor's own address.
    fn run(&mut self, addr: &Address, msg: &Message);
}

} // verus!
