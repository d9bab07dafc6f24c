//! Host telemetry engine: counter-to-rate conversion, the two periodic
//! samplers, the shared snapshot container, the command and query glue, and
//! the keyboard and ordering rules of the dashboard around them.

pub mod command;
pub mod display;
pub mod input;
pub mod names;
pub mod network;
pub mod process;
pub mod rate;
pub mod state;
pub mod text;
