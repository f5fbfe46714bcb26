pub mod common;
pub mod master;
pub mod slave;
