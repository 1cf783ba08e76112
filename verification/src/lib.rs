//! A reminder scheduling engine: a store of reminder groups, each bound to a
//! cron expression, kept in step with the jobs of a running cron scheduler.

pub mod commands;
pub mod consistency;
pub mod cron_text;
pub mod error;
pub mod group;
pub mod ident;
pub mod laws;
pub mod model;
pub mod notice;
pub mod registry;
pub mod store;
pub mod switch;
