//! Request-handling logic of the event backend: errors and the status each
//! one is answered with, identifiers taken from requests, authentication,
//! network admission, and the rules of applications, teams and puzzles.

pub mod access;
pub mod api;
pub mod authentication;
pub mod discrimination;
pub mod error;
pub mod id;
pub mod model;
pub mod text;
