pub mod entity;
pub mod error;
pub mod keys;
pub mod repo;
pub mod transfer;
pub mod wire;
