//! Request capture for a local stand-in of a tracing agent: the rules that
//! decide where captured requests go, how their headers and bodies are
//! recorded, and what the echo endpoints answer.

pub mod text;
pub mod fields;
pub mod query;
pub mod headers;
pub mod codecs;
pub mod ids;
pub mod capture;
pub mod uploads;
pub mod exporters;
