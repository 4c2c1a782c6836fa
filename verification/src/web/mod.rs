//! What the pooler shows of itself.
pub mod metrics;
