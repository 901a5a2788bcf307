//! Verified core of the LinkedIn posting helper: the local bridge between a
//! browser extension and the LinkedIn posts API.
//!
//! The library decides; the program around it performs the I/O. Each flow
//! (publishing a post, refreshing the token, the one-time authorization) is
//! a state machine that takes the outcome of the last action and names the
//! next one.

pub mod auth;
pub mod cli;
pub mod json;
pub mod model;
pub mod num;
pub mod post;
pub mod refresh;
pub mod text;
pub mod url;

pub use model::default_visibility;
