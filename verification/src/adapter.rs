//! What is sent to each kind of provider, and what becomes of its answer.

pub mod codex;
pub mod commandcode;
pub mod http;
pub mod laws;
pub mod outgoing;
pub mod upstream_url;
