//! A UPnP/DLNA media server's logic: what it decides, builds and answers, apart
//! from the sockets, files and database that carry it.

pub mod art;
pub mod browse;
pub mod config;
pub mod config_catalog;
pub mod db;
pub mod error;
pub mod http;
pub mod identity;
pub mod json;
pub mod normalize;
pub mod path;
pub mod random;
pub mod scan;
pub mod ssdp;
pub mod state;
pub mod text;
pub mod upnp;
