//! Core logic of a phone-as-microphone bridge: pairing codes, sessions,
//! rate limiting, LAN address selection, log buffering and text injection
//! planning, each with a machine-checked contract.

pub mod assoc;
pub mod net;
pub mod order;
pub mod pair_rate_limit;
pub mod port_select;
pub mod text;
pub mod codec;
pub mod pairing_code;
pub mod session;
pub mod pairing_service;
pub mod rolling_log;
pub mod diagnostics;
pub mod url_render;
pub mod lan_filter;
pub mod i18n;
pub mod lan_view;
pub mod middleware;
pub mod rfc3339;
pub mod injector;
pub mod error_code;
pub mod web_errors;
pub mod dispatcher;
pub mod pair_handler;
pub mod bridge_events;
pub mod tray;
pub mod desktop;
pub mod asr;
pub mod qr;
pub mod web_server;
pub mod discovery;
pub mod log_line;
pub mod redirect;
pub mod tls;
pub mod ws_outbound;
