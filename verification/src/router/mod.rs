//! The two protocols that clients speak.

pub mod anthropic;
pub mod anthropic_stream;
pub mod openai;
pub mod openai_stream;
pub mod sse;
