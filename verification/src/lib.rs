pub mod cd321x;
pub mod error;
pub mod host;
pub mod laws;
pub mod laws_choice;
pub mod laws_command;
pub mod laws_fault;
pub mod laws_host;
pub mod laws_outcome;
pub mod laws_recovery;
pub mod laws_session;
pub mod laws_steps;
pub mod laws_submit;
pub mod laws_success;
pub mod laws_text;
pub mod laws_wait;
pub mod path;
pub mod protocol;
pub mod sysfs;
pub mod text;
pub mod tool;
pub mod trace;
pub mod trace_arm;
pub mod trace_device;
pub mod trace_tool;
