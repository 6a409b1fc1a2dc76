//! Preparation of per-scan catalogs for portable solar spectrometers: scan
//! time resolution, surface-meteorology readers, time matching and the
//! assembly of catalog rows, all with machine-checked contracts.

pub mod cli;
pub mod config;
pub mod coordinates;
pub mod decimal;
pub mod header;
pub mod header_time;
pub mod i2s_catalog;
pub mod i2s;
pub mod init;
pub mod interpolation;
pub mod meteorology;
pub mod text;
pub mod timestamp;
pub mod utils;
