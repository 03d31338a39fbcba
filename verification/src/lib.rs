//! Telemetry normalization and alarm evaluation for batched sensor readings.
//!
//! A batch of device payloads is expanded into per-channel readings keyed by
//! channel (temperature probe, Modbus register, battery). Each raw reading is
//! decoded into a calibrated measurement, matched against per-channel alarm
//! rules, and assembled into a metric record for the storage sinks.
//!
//! Floating-point measurements are carried as IEEE-754 double bit patterns
//! (`u64`), so that decoding, sentinel detection, comparison and alarm
//! evaluation are all verified integer logic. The only two operations that
//! need native float arithmetic — parsing decimal text and the linear
//! calibration `raw * factor + offset` — are supplied by the caller between
//! the two pipeline phases (see `service`).

pub mod alarm;
pub mod configuration;
pub mod db;
pub mod decode;
pub mod floatbits;
pub mod hexcodec;
pub mod keys;
pub mod service;
pub mod sink;
pub mod text;
pub mod timestamp;
