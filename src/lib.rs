//! Persists environment-variable assignments in the user's shell profile
//! (Unix) or in a managed PowerShell profile script (Windows).
//!
//! The library decides what is written and where; reading the environment
//! and touching the file system is left to the caller.

pub mod text;
pub mod registry;
pub mod assignment;
pub mod profile;
pub mod managed;
