//! The admin interface: logins, sessions, passwords and settings.

pub mod access;
pub mod laws;
pub mod login;
pub mod password;
pub mod rate_limit;
pub mod session;
pub mod settings;
pub mod transfer;
