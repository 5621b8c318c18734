pub mod text;
pub mod crypto;
pub mod json;
pub mod table;
pub mod form;
pub mod http;
pub mod html;
pub mod redirect;
pub mod oauth;
pub mod endpoints;
pub mod oauth_laws;
pub mod tunnel;
pub mod tunnel_laws;
pub mod gate;
pub mod network;
pub mod daemon;
pub mod portproxy;
pub mod config;
pub mod update;
pub mod gui_update;
pub mod mcp_tools;
pub mod tls;
pub mod tls_settings;
pub mod self_signed;
pub mod acme;
pub mod tray;
pub mod ui;
