//! The rules of the records the backend keeps.

pub mod application;
pub mod attempt;
pub mod jsonb;
pub mod puzzle;
pub mod team;
