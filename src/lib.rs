//! Probe-and-event engine of a kernel packet tracer: probe resolution and
//! registration, attach planning, raw section decoding, the persisted form of
//! sections, tracking-map garbage collection decisions and flow enrichment
//! scheduling.

pub mod addr_text;
pub mod debug;
pub mod enricher;
pub mod error;
pub mod events;
pub mod hook;
pub mod inspect;
pub mod inspector;
pub mod json;
pub mod manager;
pub mod ovs;
pub mod parse;
pub mod pipeline;
pub mod probe;
pub mod raw;
pub mod skb;
pub mod text;
pub mod tracking;
pub mod user;
