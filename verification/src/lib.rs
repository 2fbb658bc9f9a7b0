//! Connection monitoring: decoding kernel connection events, classifying the
//! remote endpoints, and the threat indicator feed.
pub mod api;
pub mod dns;
pub mod ebpf;
pub mod feed_updater;
pub mod geoip;
pub mod models;
pub mod monitor;
pub mod net;
pub mod process;
pub mod text;
pub mod threat;
pub mod threat_feed;
pub mod threatintel;
