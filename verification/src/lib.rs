//! Request signing for S3-compatible storage endpoints.

pub mod canonical;
pub mod clock;
pub mod config;
pub mod dispatch;
pub mod encode;
pub mod hex;
pub mod laws;
pub mod menu;
pub mod order;
pub mod primitives;
pub mod sign;
pub mod text;
