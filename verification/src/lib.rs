//! The core of an in-process actor system.
//!
//! An actor is a unit of work that is known by a validated [`Address`] and is
//! handed the [`Message`]s of its mailbox one at a time. The [`Manager`]
//! keeps the registry of actors: it creates the mailboxes, routes messages,
//! follows each actor through its life and decides every step of a shutdown.
//! A [`WorkerWrapper`] is what runs beside one actor: it decides, message by
//! message, whether the actor processes or ends.
//!
//! The core never waits. Where an operation would have to wait (for a
//! message, for room in a mailbox, for actors to end), it says so in its
//! result, and the runtime around it waits and comes back.

pub mod address;
pub mod error;
pub mod mailbox;
pub mod manager;
pub mod message;
pub mod node;
pub mod node_address;
pub mod node_manager;
pub mod shared_registry;
pub mod worker;
pub mod worker_wrapper;

pub use address::{Address, AddressError};
pub use error::Error;
pub use mailbox::Offer;
pub use manager::{Delivery, Manager, ManagerError, ShutdownStep};
pub use message::{message_channel, Message};
pub use node::Node;
pub use node_address::{NodeAddress, NodeAddressError};
pub use node_manager::{NodeManager, NodeManagerError};
pub use worker::Worker;
pub use worker_wrapper::{ActorState, Step, WorkerWrapper};
