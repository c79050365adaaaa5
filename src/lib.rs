//! A bidirectional NAT-style forwarder core: it classifies captured Ethernet
//! frames, rewrites their link- and network-layer addresses between an
//! external and an internal interface, and repairs every checksum it touches.

pub mod bytes;
pub mod checksum;
pub mod addr;
pub mod frame;
pub mod config;
pub mod rewrite;
pub mod inspect;
