//! A gateway for language models: one endpoint in front of many providers.
//!
//! Clients speak one of two wire formats, OpenAI's or Anthropic's. The gateway
//! picks the providers for a request, turns it into what each of them expects,
//! and turns the answer back. This library holds what the gateway decides and
//! computes; sockets, files, the database and the terminal belong to its caller.

pub mod adapter;
pub mod admin;
pub mod backoff;
pub mod bytes;
pub mod clock;
pub mod codex;
pub mod commandcode;
pub mod config;
pub mod encode;
pub mod error;
pub mod failover_laws;
pub mod flow;
pub mod flow_laws;
pub mod index_table;
pub mod json;
pub mod logging;
pub mod model;
pub mod onboarding;
pub mod onboarding_laws;
pub mod pools;
pub mod provider_laws;
pub mod providers;
pub mod random;
pub mod runtime;
pub mod select;
pub mod select_laws;
pub mod sse;
pub mod sse_laws;
pub mod stats;
pub mod stream_laws;
pub mod table;
pub mod text;
pub mod text_laws;
