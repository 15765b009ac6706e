//! The rules of a speech-to-text server that speaks the OpenAI transcription
//! protocol: who may call it, how a request is read, how audio is cut into
//! pieces for a model, how the pieces are put together again, and what is
//! answered.

pub mod auth;
pub mod chunked;
pub mod cut;
pub mod error;
pub mod exchange;
pub mod form;
pub mod laws;
pub mod media;
pub mod model;
pub mod reply;
pub mod startup;
pub mod streaming;
pub mod text;
pub mod transcript;

pub use crate::transcript::{Token, Transcript};
