//! Zero-configuration LAN screen and terminal sharing: the verified core.
//!
//! The library holds the wire format of the stream port (length-prefixed
//! frames), the discovery rules, the table of peers seen on the network,
//! the state machine of the terminal interface and the labels that the
//! interfaces show. Sockets, threads, terminals and windows live in the
//! program around it.

pub mod protocol;
pub mod text;
pub mod sharers;
pub mod codec;
pub mod capture;
pub mod discovery;
pub mod viewer;
pub mod terminal;
pub mod tui;
pub mod desktop;
pub mod launch;
