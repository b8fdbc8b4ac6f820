//! The Codex provider and the bridge between the two client wire formats.

pub mod answer_laws;
pub mod bridge_laws;
pub mod chunk_laws;
pub mod claude_laws;
pub mod claude_message;
pub mod claude_request;
pub mod claude_shape;
pub mod claude_stream;
pub mod cut_laws;
pub mod login_laws;
pub mod oauth;
pub mod refresh;
pub mod reply_laws;
pub mod request_laws;
pub mod responses_laws;
pub mod sse_bridge;
pub mod stream_laws;
pub mod tool_laws;
pub mod transform;
