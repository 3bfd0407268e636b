//! The decision core of a graph database server.

pub mod auth;
pub mod authz;
pub mod background;
pub mod bolt;
pub mod config;
pub mod cypher;
pub mod engine;
pub mod flush;
pub mod http;
pub mod introspect;
pub mod json;
pub mod jwt;
pub mod maintenance;
pub mod memory;
pub mod metrics;
pub mod outcome;
pub mod page;
pub mod pdp;
pub mod plan;
pub mod recovery;
pub mod registry;
pub mod reply;
pub mod routes;
pub mod run;
pub mod schema;
pub mod slow_query;
pub mod span;
pub mod state;
pub mod text;
pub mod values;
