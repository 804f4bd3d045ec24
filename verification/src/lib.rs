//! Never-dark AI video middleware: the decisions, formats and state machines
//! of the daemon, each stated as a contract and proved.

pub mod bytes;
pub mod daemon;
pub mod double;
pub mod fsm;
pub mod hwaccel;
pub mod metrics;
pub mod metrics_server;
pub mod net;
pub mod page;
pub mod pipeline;
pub mod ports;
pub mod preset;
pub mod relay;
pub mod shm;
pub mod text;
pub mod uds;
