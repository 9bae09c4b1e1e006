pub mod cli;
pub mod docker;
pub mod relay;
pub mod robots;
pub mod store;
