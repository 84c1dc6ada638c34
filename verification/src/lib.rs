//! Organization invitations: configuration, tokens, lifecycle rules and durable commands.

pub mod acceptance;
pub mod authorization;
pub mod base64url;
pub mod batches;
pub mod changes;
pub mod claims;
pub mod commands;
pub mod config;
pub mod contract;
pub mod cursor;
pub mod digests;
pub mod dispatch;
pub mod effects;
pub mod exchanges;
pub mod instants;
pub mod invariants;
pub mod laws;
pub mod lifecycle;
pub mod models;
pub mod mutations;
pub mod operations;
pub mod queries;
pub mod records;
pub mod rules;
pub mod settlement;
pub mod shapes;
pub mod tables;
pub mod text;
pub mod token;
pub mod tools;
pub mod urls;
pub mod uuids;
pub mod validation;
pub mod worker_contract;
pub mod writes;
