//! Sampling a CO2 and temperature sensor and forwarding the samples to an
//! InfluxDB endpoint: the rules of the pipeline, without its input and output.
//!
//! The crate decides and its caller performs. Opening and reading the device,
//! sending a request, printing, sleeping and telling the time are left to the
//! caller, who hands the outcome of each back as a plain value.
//!
//! - [`sensor`] keeps the sensor's handle: opened when first needed, reused
//!   while it works, dropped when a read fails.
//! - [`datum`] turns a reading into a sample, or refuses it.
//! - [`influxdb`] says where and how a sample is written, and what the
//!   endpoint's answer means.
//! - [`scheduler`] runs the cycles, each to its end whatever fails in it.
//! - [`settings`] and [`error`] hold what the program is told at its start and
//!   what can go wrong; [`decimal`] writes numbers.

pub mod datum;
pub mod decimal;
pub mod error;
pub mod influxdb;
pub mod scheduler;
pub mod sensor;
pub mod settings;

pub use crate::datum::{Datum, Reading, CO2_FLOOR};
pub use crate::error::{AcquisitionError, Error, ValidationError};
pub use crate::influxdb::{DeliveryOutcome, InfluxDBClient, WriteRequest};
pub use crate::scheduler::{
    start, Action, CycleOutcome, Event, Level, LogEntry, Scheduler, Stage, State,
};
pub use crate::sensor::{Data, SensorAction, SensorEvent};
pub use crate::settings::{Settings, DEFAULT_INTERVAL};
