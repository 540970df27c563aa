use vstd::prelude::*;

pub mod agent_task;
pub mod allocator;
pub mod bytes;
pub mod console;
pub mod cache;
pub mod capture;
pub mod dns;
pub mod dtb;
pub mod fetch;
pub mod fetch_engine;
pub mod fetch_rx;
pub mod goal;
pub mod http;
pub mod json;
pub mod memory;
pub mod model;
pub mod net;
pub mod oauth;
pub mod openai;
pub mod policy;
pub mod session;
pub mod timer;
pub mod tls;
pub mod trace;
pub mod turn;
pub mod turn_state;
pub mod uart;
pub mod url;
pub mod virtio;
pub mod utf8;

verus! {
} // verus!
