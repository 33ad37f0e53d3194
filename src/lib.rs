//! A declarative HTTP redirect service: redirect rules are read from a
//! snapshot of configuration variables, validated, compiled into a route
//! table, and each route answers a request with a redirect.
pub mod config;
pub mod handler;
pub mod rule;
pub mod text;
