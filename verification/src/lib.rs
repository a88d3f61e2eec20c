//! The core of a text-to-speech server.
//!
//! Requests come in as JSON-RPC, text becomes phoneme tokens, tokens and a voice's style become
//! samples in an inference session, and samples become MP3 or WAV files. This crate holds the
//! rules of all that. Sockets, files, Redis, S3 and the inference runtime are its caller's: they
//! hand in what came of their work and carry out what is decided here.
pub mod cli;
pub mod config;
pub mod download;
pub mod error;
pub mod handlers;
pub mod inference;
pub mod json;
pub mod laws;
pub mod misaki;
pub mod phonemizer;
pub mod rpc;
pub mod single;
pub mod text;
pub mod voices;
