//! A programmable HTTP gateway: hostname lookup, request matching, rule
//! dispatch, weighted backend choice, plugin decisions and the gateway
//! lifecycle, each stated over plain values and proved.
pub mod backend;
pub mod body;
pub mod chain;
pub mod client;
pub mod config;
pub mod gateway;
pub mod header_modifier;
pub mod hostname;
pub mod layers;
pub mod maintenance;
pub mod match_request;
pub mod modify_uri;
pub mod pattern;
pub mod picker;
pub mod plugin;
pub mod rate_limit;
pub mod redirect;
pub mod reflect;
pub mod reload;
pub mod request;
pub mod response;
pub mod retry;
pub mod route;
pub mod router;
pub mod status;
pub mod text;
pub mod tls;
pub mod websocket;
