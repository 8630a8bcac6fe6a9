pub mod balancer;
pub mod errors;
pub mod forwarder;
pub mod registry;
pub mod round_robin;
pub mod server;
pub mod strategy;
