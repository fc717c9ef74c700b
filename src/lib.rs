//! A user-space port-forwarding tunnel: the decision logic of its virtual
//! interfaces, port pools and proxy servers, stated and proved with Verus.
//!
//! The asynchronous plumbing (sockets, timers, the event bus, the embedded IP
//! stack) drives the state machines defined here and performs the actions
//! that they return.
pub mod config;
pub mod device;
pub mod events;
pub mod flows;
pub mod iface;
pub mod lifecycle;
pub mod pool;
pub mod proxy;
pub mod session;
pub mod tcp;
pub mod udp;
