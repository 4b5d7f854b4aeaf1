//! A bridge between one serial line and one UDP socket.
//!
//! The library holds the decisions of the bridge: which UDP peers are
//! tracked and which are evicted, where each byte goes, when the line-rate
//! calibration runs and what it sends. The surrounding program performs the
//! I/O and hands the library plain values.
pub mod addr;
pub mod registry;
pub mod socket;
pub mod link;
pub mod abr;
pub mod relay;
pub mod fanout;
pub mod text;
pub mod cli;
pub mod udev;
