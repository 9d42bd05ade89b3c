//! Verified core logic of the Praxis proxy: origin normalization, the
//! in-memory key-value store, load-balancing strategies, YAML cluster
//! extraction, provider configuration checks and benchmark commands.

pub mod text;
pub mod origin;
pub mod kv;
pub mod proxy;
pub mod nemo;
pub mod yaml;
pub mod clusters;
pub mod balance;
pub mod upstream;
pub mod connections;
pub mod listener;
pub mod semaphore;
pub mod pattern;
