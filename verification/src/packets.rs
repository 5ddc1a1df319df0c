pub mod client;
pub mod handle;
pub mod parse;
pub mod server;
