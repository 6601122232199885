//! A TLS and QUIC tunnel: authentication, UDP fragmentation over QUIC
//! datagrams, session bookkeeping, and the configuration behind them.
pub mod auth;
pub mod config;
pub mod course;
pub mod endian;
pub mod fragment;
pub mod pem;
pub mod reassembly;
pub mod session;
pub mod text;
pub mod tls;
pub mod tls_items;
pub mod udp;
