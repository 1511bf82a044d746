//! Device posture library: the report model, the rules that turn a report
//! into findings, the stable device fingerprint, and the parsers that read
//! the output of the platform tools.

pub mod text;
pub mod report;
pub mod findings;
pub mod fingerprint;
pub mod posture;
pub mod api;
