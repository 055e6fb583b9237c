//! A programmable HTTP filter core: a user-configured DAG of
//! data-transformation nodes driven across the phases of an HTTP
//! transaction.

pub mod config;
pub mod data;
pub mod debug;
pub mod dependency_graph;
pub mod filter;
pub mod json;
pub mod nodes;
pub mod payload;
pub mod strutil;

