//! Decision logic of a connector that watches a Gluetun VPN container.
pub mod text;
pub mod sites;
pub mod config;
pub mod auth;
pub mod docker;
pub mod containers;
pub mod failures;
pub mod upstream;
pub mod routes;
pub mod monitor;
