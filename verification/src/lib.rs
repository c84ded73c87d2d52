//! Control panel logic for Quectel 5G modules.
pub mod actor;
pub mod at;
pub mod atcmd;
pub mod auth;
pub mod backend;
pub mod big;
pub mod config;
pub mod device;
pub mod double;
pub mod host_laws;
pub mod logger;
pub mod number;
pub mod shortest;
pub mod sys;
pub mod text;
pub mod text_laws;
pub mod tls;
pub mod view_laws;
pub mod web;
