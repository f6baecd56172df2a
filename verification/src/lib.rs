//! Decoder and presentation state machine for a streamed chat-completion
//! reply: frames of a server-sent event stream are decoded into fragments,
//! each fragment is classified as reasoning text, answer text or neither,
//! and a two-phase renderer turns the classified deltas into terminal text
//! while the latest token-usage snapshot is kept.
//!
//! The library does no input or output. It decides and formats; the program
//! around it reads the user's lines, talks to the service and writes what
//! the library hands back.

pub mod conversation;
pub mod cycle;
pub mod decimal;
pub mod delta;
pub mod fragment;
pub mod json;
pub mod models;
pub mod palette;
pub mod render;
pub mod session;
