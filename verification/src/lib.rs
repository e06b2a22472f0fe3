pub mod application;
pub mod crypto;
pub mod scp;
pub mod server;
pub mod utils;
