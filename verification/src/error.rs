//! What can go wrong, and how each failure reads in a log.

use vstd::prelude::*;
use vstd::string::StringExecFns;

use crate::decimal::{decimal, to_decimal};

verus! {

/// The sensor could not be had for a reading. The text is the transport's own
/// account of the failure.
#[derive(Debug, PartialEq, Eq)]
pub enum AcquisitionError {
    /// The device could not be opened.
    OpenFailed(String),
    /// The device was open and the read failed.
    ReadFailed(String),
}

/// A reading that is not believed.
#[derive(Debug, Clone, Copy, PartialEq, Eq, Structural)]
pub enum ValidationError {
    /// The CO2 concentration, given here, lies below the floor.
    OutOfRange(u16),
}

/// Every failure of the pipeline.
///
/// `Config` and `User` stop the program before its first cycle. The others end
/// one cycle and nothing more.
#[derive(Debug, PartialEq, Eq)]
#[allow(inconsistent_fields)]
pub enum Error {
    /// The sensor could not be opened or read.
    Co2mon { source: AcquisitionError },
    /// The settings could not be loaded.
    Config { description: String },
    /// The sensor answered with a reading that is not believed.
    Data { source: ValidationError },
    /// A sample was not delivered: the endpoint could not be reached, or was
    /// reached and refused the sample.
    Reqwest { description: String },
    /// The settings were loaded and one of them cannot be used.
    User { description: String },
}

impl AcquisitionError {
    /// The transport's account of the failure.
    pub open spec fn reason_text(self) -> Seq<char> {
        match self {
            AcquisitionError::OpenFailed(reason) => reason@,
            AcquisitionError::ReadFailed(reason) => reason@,
        }
    }

    /// The transport's account of the failure.
    pub fn reason(&self) -> (text: &str)
        ensures
            text@ == self.reason_text(),
    {
        match self {
            AcquisitionError::OpenFailed(reason) => reason.as_str(),
            AcquisitionError::ReadFailed(reason) => reason.as_str(),
        }
    }

    /// The line that reports this error.
    pub open spec fn message_text(self) -> Seq<char> {
        "Error with CO2 sensor: "@ + self.reason_text()
    }

    /// The line that reports this error.
    pub fn message(&self) -> (text: String)
        ensures
            text@ == self.message_text(),
    {
        String::from_str("Error with CO2 sensor: ").concat(self.reason())
    }
}

impl ValidationError {
    /// What is wrong with the reading, in words.
    pub open spec fn description_text(self) -> Seq<char> {
        match self {
            ValidationError::OutOfRange(co2) => "CO2 out of sane range, was "@ + decimal(
                co2 as nat,
            ),
        }
    }

    /// What is wrong with the reading, in words.
    pub fn description(&self) -> (text: String)
        ensures
            text@ == self.description_text(),
    {
        match self {
            ValidationError::OutOfRange(co2) => {
                let number = to_decimal(*co2 as u64);
                String::from_str("CO2 out of sane range, was ").concat(number.as_str())
            },
        }
    }

    /// The line that reports this error.
    pub open spec fn message_text(self) -> Seq<char> {
        "Data error: "@ + self.description_text()
    }

    /// The line that reports this error.
    pub fn message(&self) -> (text: String)
        ensures
            text@ == self.message_text(),
    {
        let description = self.description();
        String::from_str("Data error: ").concat(description.as_str())
    }
}

impl From<AcquisitionError> for Error {
    /// A failure of the sensor, as a failure of the pipeline.
    fn from(source: AcquisitionError) -> (error: Error) {
        Error::Co2mon { source }
    }
}

impl vstd::std_specs::convert::FromSpecImpl<AcquisitionError> for Error {
    open spec fn obeys_from_spec() -> bool {
        true
    }

    open spec fn from_spec(source: AcquisitionError) -> Error {
        Error::Co2mon { source }
    }
}

impl From<ValidationError> for Error {
    /// The refusal of a reading, as a failure of the pipeline.
    fn from(source: ValidationError) -> (error: Error) {
        Error::Data { source }
    }
}

impl vstd::std_specs::convert::FromSpecImpl<ValidationError> for Error {
    open spec fn obeys_from_spec() -> bool {
        true
    }

    open spec fn from_spec(source: ValidationError) -> Error {
        Error::Data { source }
    }
}

impl Error {
    /// The line that reports this error: what kind of failure it is, then the
    /// particulars.
    pub open spec fn message_text(self) -> Seq<char> {
        match self {
            Error::Co2mon { source } => source.message_text(),
            Error::Config { description } => "Config error: "@ + description@,
            Error::Data { source } => source.message_text(),
            Error::Reqwest { description } => "Reqwest error: "@ + description@,
            Error::User { description } => "User error: "@ + description@,
        }
    }

    /// The line that reports this error.
    pub fn message(&self) -> (text: String)
        ensures
            text@ == self.message_text(),
    {
        match self {
            Error::Co2mon { source } => source.message(),
            Error::Config { description } => String::from_str("Config error: ").concat(
                description.as_str(),
            ),
            Error::Data { source } => source.message(),
            Error::Reqwest { description } => String::from_str("Reqwest error: ").concat(
                description.as_str(),
            ),
            Error::User { description } => String::from_str("User error: ").concat(
                description.as_str(),
            ),
        }
    }
}

} // verus!
