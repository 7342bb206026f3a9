//! Verified core of a Zode node: its configuration defaults and program
//! topics, the desktop session state machine, the peer-cache merge, the
//! bounded event log and the window-edge resize mapping.

pub mod ids;
pub mod config;
pub mod session;
pub mod peers;
pub mod text;
pub mod events;
pub mod resize;
