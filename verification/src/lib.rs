//! Feed cache and upload orchestration for a podcast hosting service.
//!
//! The crate renders per-channel RSS documents, keeps them in an in-memory
//! cache keyed by channel id and title, and models the multi-step episode
//! upload (blob write, metadata write, feed rebuild) as an explicit state
//! machine with a compensating delete on partial failure.

pub mod auth;
pub mod bootstrap;
pub mod cache;
pub mod configuration;
pub mod escape;
pub mod feed;
pub mod health_check;
pub mod ids;
pub mod segments;
pub mod records;
pub mod scan;
pub mod storage;
pub mod text;
pub mod upload;
