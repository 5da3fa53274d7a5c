//! Packet-filtering logic of an XDP firewall: frame inspection, a per-source
//! token bucket, a reputation (ban) table, and the small record formats shared
//! between the kernel program and its user-space controller.
use vstd::prelude::*;

pub mod bytes;
pub mod common;
pub mod headers;
pub mod firewall;
pub mod balance;
pub mod loader;
pub mod history;
pub mod laws;

verus! {

} // verus!
