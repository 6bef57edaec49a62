//! Coordinator and worker logic of a multi-node agent runtime.
pub mod auth;
pub mod cli;
pub mod coordinator;
pub mod diagnosis;
pub mod dispatch;
pub mod executor;
pub mod handshake;
pub mod ids;
pub mod jobstore;
pub mod leases;
pub mod paths;
pub mod policy;
pub mod protocol;
pub mod render;
pub mod routing;
pub mod runs;
pub mod runtime;
pub mod sandbox;
pub mod shell;
pub mod summaries;
pub mod table;
pub mod text;
pub mod time;
pub mod torchrun;
pub mod worker;
