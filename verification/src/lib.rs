//! The decision logic of a small tool-using chat agent: the conversation
//! model, the step after each model reply, the tool registry and its
//! dispatch, configuration, and the wire form of a chat request and reply.
//! Sending requests, reading files and running commands is left to the
//! program around the library, which hands it plain values.

pub mod text;
pub mod json;
pub mod message;
pub mod config;
pub mod tools;
pub mod builtin;
pub mod provider;
pub mod wire;
pub mod agent;
