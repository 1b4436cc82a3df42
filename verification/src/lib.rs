//! Decoder for AIFF audio containers.

pub mod chunks;
pub mod extended;
pub mod ids;
pub mod laws;
pub mod reader;
pub mod samples;
pub mod scan;
pub mod source;
pub mod text;
