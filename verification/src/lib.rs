use vstd::prelude::*;

pub mod json;
pub mod text;
pub mod types;
pub mod schema;
pub mod proto_parser;
pub mod definitions;
pub mod validation;
pub mod config;
pub mod keyed;
pub mod services;
pub mod pool;
pub mod call;
pub mod stream;
pub mod connect;
pub mod error_detail;
pub mod reflection;
pub mod plugin;
pub mod describe;
pub mod helpers;
pub mod scan;
pub mod ui;
pub mod tls;
pub mod laws;

verus! {
}
