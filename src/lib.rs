//! State synchronisation with a 3D printer's filament system, and the codec of the
//! filament descriptors stored on NFC tags.

pub mod api;
pub mod app_config;
pub mod cali_table;
pub mod codec_laws;
pub mod connectivity;
pub mod descriptor;
pub mod model;
pub mod ndef;
pub mod printer;
pub mod staging;
pub mod state_laws;
pub mod tag;
pub mod text;
