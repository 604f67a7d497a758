//! Service discovery for Prometheus over a cloud service registry: the
//! decisions of one discovery run, the address and label policy of the target
//! groups it yields, and the server's configuration.

pub mod config;
pub mod discovery;
pub mod handlers;
pub mod run;
pub mod text;
pub mod trace;
