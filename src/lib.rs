//! Network throughput sampling: byte counters of network interfaces are
//! read twice, one sampling window apart, and turned into per-second rates.

pub mod counters;
pub mod rates;
pub mod iface;
pub mod display;
