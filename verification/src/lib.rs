//! A gateway for language models: clients speak the OpenAI or the Anthropic protocol, name an
//! alias, and are answered by the first backend of the alias's chain that does.

pub mod backend;
pub mod config;
pub mod error;
pub mod gateway;
pub mod json;
pub mod json_codec;
pub mod laws;
pub mod names;
pub mod router;
pub mod state;
pub mod text;
