//! Verified core of the process that runs one sandbox VM: the agent relay, the control
//! endpoint, CPU allocation, and start-up reporting.

pub mod active_bulk;
pub mod admission;
pub mod buffer;
pub mod bulk;
pub mod client;
pub mod control;
pub mod cpu;
pub mod disconnect;
pub mod envelope;
pub mod envelope_form;
pub mod flow_map;
pub mod frames;
pub mod guest_send;
pub mod lane;
pub mod merge_flow;
pub mod merge_rules;
pub mod merge_run;
pub mod merger;
pub mod order;
pub mod output;
pub mod permits;
pub mod placement;
pub mod progress;
pub mod reader;
pub mod rejection;
pub mod relay;
pub mod retire;
pub mod ring_writer;
pub mod roster;
pub mod session_log;
pub mod stall;
pub mod startup;
pub mod text;
pub mod wire;
