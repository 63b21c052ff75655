//! The logic of the GeoLibre desktop application.
//!
//! The application around this library opens windows, reads files, runs queries and starts
//! processes. What it does with what comes back is decided here: which files may be read, which
//! queries load a vector file, which plugins are loaded, what the metadata and tiles of an
//! archive are, and which step comes next when a server is installed, started or stopped.

pub mod archive;
pub mod environment;
pub mod json;
pub mod manifest;
pub mod martin;
pub mod mbtiles;
pub mod native_load;
pub mod numbers;
pub mod paths;
pub mod platform;
pub mod plugin_scan;
pub mod plugins;
pub mod proc_net;
pub mod profile;
pub mod promises;
pub mod server_start;
pub mod servers;
pub mod split;
pub mod sql;
pub mod text;
pub mod urls;
pub mod windows;
