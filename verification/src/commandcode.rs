//! The Command Code provider.

pub mod answer_laws;
pub mod api_key;
pub mod browser_login;
pub mod cut_laws;
pub mod login_laws;
pub mod request_laws;
pub mod slug;
pub mod stream;
pub mod transform;
