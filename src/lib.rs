//! Peer-connection core of a peer-to-peer node: the table of connected
//! peers, gossip intake and export of peer addresses, connection admission
//! and the keepalive schedule.

pub mod addr;
pub mod peer;
pub mod peers;
pub mod laws;
