//! A git credential helper library for Infrahub: what it reads from git and
//! from its configuration, what it asks the server, and what it answers,
//! stated and proved with Verus.
pub mod text;
pub mod credential_input;
pub mod askpass;
pub mod config;
pub mod requests;
pub mod response;

pub use config::InfrahubConfig;
pub use credential_input::parse_helper_get_input;
pub use response::extract_credential;
