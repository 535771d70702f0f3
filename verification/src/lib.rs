//! Deterministic decision core of an LLM coding sandbox: feedback envelopes,
//! text compression, code extraction, multi-file parsing and the control
//! logic of the coding loops.

pub mod compiler;
pub mod feedback;
pub mod files;
pub mod json;
pub mod mhttp;
pub mod roundtrip;
pub mod router;
pub mod sandbox;
pub mod scout;
pub mod syndicate;
pub mod text;
