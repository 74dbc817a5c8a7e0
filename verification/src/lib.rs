//! Batch transcoding engine: decoding of the encoder's progress stream,
//! extraction of loudness measurements, construction of encoder arguments,
//! and the per-job event protocol. All text is handled as bytes, the form in
//! which a child process hands it over.

pub mod text;
pub mod progress;
pub mod decimal;
pub mod loudness;
pub mod encode;
pub mod paths;
pub mod runner;
pub mod job;
pub mod dropped;
pub mod resolve;
pub mod batch;
