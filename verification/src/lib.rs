//! Core of an account manager: the wire codec for outbound binary requests,
//! the account repository's in-memory model, and the token and retry
//! protocol that every remote call goes through.

pub mod analytics;
pub mod codec;
pub mod error;
pub mod models;
pub mod outside;
pub mod probe;
pub mod repository;
pub mod sorting;
pub mod team;
pub mod token;
pub mod transfer;

pub use crate::error::AppError;
