//! Session tracking for Hero Siege: the packet reader's pure parts, the
//! session counters, and the presence line helpers.

pub mod clock;
pub mod text;
pub mod json;
pub mod tree;
pub mod wire;
pub mod fields;
pub mod sets;
pub mod catalog;
pub mod parser;
pub mod messages;
pub mod capture;
pub mod reassembly;
pub mod stats;
pub mod session;
pub mod events;
pub mod finds;
pub mod apply;
pub mod report;
pub mod live;
pub mod presence;
pub mod status;
pub mod laws;
