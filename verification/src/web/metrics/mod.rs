//! The numbers that the pooler exports.
pub mod label_map;
pub mod update;
pub mod tracker;
pub mod pools;
pub mod servers;
pub mod auth_query;
pub mod coordinators;
pub mod scaling;
pub mod exporter;
