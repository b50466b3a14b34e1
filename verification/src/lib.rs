//! An edge inference gateway: admission, scheduling and fan-out of chat and
//! completion requests over a pool of locally managed model workers, with
//! fail-over to peer gateways.

pub mod config;
pub mod dispatch;
pub mod grpc_server;
pub mod http_server;
pub mod launch;
pub mod load;
pub mod message;
pub mod plugins;
pub mod pool;
pub mod scheduler;
pub mod service;
pub mod text;
pub mod trusted;
pub mod ui;
