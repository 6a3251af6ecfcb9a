pub mod codec;
pub mod data;
pub mod handler;
pub mod message;
pub mod rpc;
