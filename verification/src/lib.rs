//! Verified core of a socket / mock server manager: configuration model,
//! mock-rule matching, routing decisions, access rules and runtime bookkeeping.

pub mod clock;
pub mod text;
pub mod types;
pub mod error;
pub mod constants;
pub mod ip_access;
pub mod matcher;
pub mod mock;
pub mod query;
pub mod keyed;
pub mod http_routing;
pub mod auth;
pub mod audit;
pub mod config;
pub mod events;
pub mod clients;
pub mod logs;
pub mod adapter;
pub mod services;
pub mod mock_manager;
pub mod ops;
pub mod frontend;
pub mod net;
pub mod admin;
pub mod bench;
pub mod paging;
pub mod wire;
