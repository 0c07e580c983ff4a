//! Verified core of the Cadder local reverse-proxy manager.

mod text;
pub mod domain;
pub mod ipc_security;
pub mod codec;
pub mod logs;
pub mod table;
pub mod iis;
pub mod ipc_errors;
pub mod discovery;
pub mod autostart;
pub mod launch;
pub mod caddy_image;
pub mod path_trust;
pub mod ordered;
pub mod json;
pub mod caddy_routes;
pub mod caddy_config;
pub mod caddy_coordinator;
pub mod operator;
pub mod storage;
pub mod data_model;
pub mod resolver;
pub mod inspection;
pub mod reports;
pub mod app_state;
pub mod config;
pub mod client_errors;
pub mod context;
pub mod iis_metadata;
pub mod widgets;
pub mod commands;
pub mod ownership;
pub mod selection;
pub mod supervision;
pub mod connection_loop;
pub mod server_loop;
pub mod handshake;
