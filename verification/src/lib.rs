//! The data-access core of a team reporting service: teams, the roles of
//! principals in them, reports and profiles, kept in an ordered store in memory or
//! written for a remote partitioned table, and the rules by which a caller is
//! allowed to read and change them.

pub mod api;
pub mod auth;
pub mod config;
pub mod error;
pub mod ids;
pub mod laws;
pub mod memory;
pub mod messages;
pub mod models;
pub mod profile;
pub mod query;
pub mod remote;
pub mod role;
pub mod table;
pub mod text;
pub mod time;
