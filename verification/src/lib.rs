//! Bridge logic for diagnostic trouble code histories: snapshot model,
//! snapshot diff, line-protocol encoding and per-topic dispatch.

pub mod config;
pub mod decode;
pub mod dispatch;
pub mod dtc;
pub mod influxdb;
pub mod json;
pub mod text;
pub mod timestamp;
