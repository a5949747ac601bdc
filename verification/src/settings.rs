//! What the program is told at its start.

use vstd::prelude::*;

verus! {

/// The seconds between two cycles where the settings name none.
pub const DEFAULT_INTERVAL: u64 = 5;

/// The settings, as values.
pub struct SettingsView {
    pub interval: u64,
    pub influxdb_url: Seq<char>,
    pub influxdb_token: Seq<char>,
    pub influxdb_bucket: Seq<char>,
    pub influxdb_org: Seq<char>,
}

/// The settings of the program: how often the sensor is read, and where the
/// samples go.
#[derive(Debug)]
pub struct Settings {
    interval: u64,
    influxdb_url: String,
    influxdb_token: String,
    influxdb_bucket: String,
    influxdb_org: String,
}

impl View for Settings {
    type V = SettingsView;

    closed spec fn view(&self) -> SettingsView {
        SettingsView {
            interval: self.interval,
            influxdb_url: self.influxdb_url@,
            influxdb_token: self.influxdb_token@,
            influxdb_bucket: self.influxdb_bucket@,
            influxdb_org: self.influxdb_org@,
        }
    }
}

impl Clone for Settings {
    fn clone(&self) -> (settings: Settings)
        ensures
            settings@ == self@,
    {
        Settings {
            interval: self.interval,
            influxdb_url: self.influxdb_url.clone(),
            influxdb_token: self.influxdb_token.clone(),
            influxdb_bucket: self.influxdb_bucket.clone(),
            influxdb_org: self.influxdb_org.clone(),
        }
    }
}

impl Settings {
    /// The settings made of their parts. Where no interval is named, it is
    /// [`DEFAULT_INTERVAL`].
    pub fn new(
        interval: Option<u64>,
        influxdb_url: String,
        influxdb_token: String,
        influxdb_bucket: String,
        influxdb_org: String,
    ) -> (settings: Settings)
        ensures
            settings@ == (SettingsView {
                interval: match interval {
                    Some(seconds) => seconds,
                    None => DEFAULT_INTERVAL,
                },
                influxdb_url: influxdb_url@,
                influxdb_token: influxdb_token@,
                influxdb_bucket: influxdb_bucket@,
                influxdb_org: influxdb_org@,
            }),
    {
        let interval = match interval {
            Some(seconds) => seconds,
            None => DEFAULT_INTERVAL,
        };
        Settings { interval, influxdb_url, influxdb_token, influxdb_bucket, influxdb_org }
    }

    /// The seconds between two cycles.
    pub fn interval(&self) -> (seconds: u64)
        ensures
            seconds == self@.interval,
    {
        self.interval
    }

    /// The base URL of the InfluxDB endpoint.
    pub fn influxdb_url(&self) -> (text: &str)
        ensures
            text@ == self@.influxdb_url,
    {
        self.influxdb_url.as_str()
    }

    /// The token that the endpoint knows the program by.
    pub fn influxdb_token(&self) -> (text: &str)
        ensures
            text@ == self@.influxdb_token,
    {
        self.influxdb_token.as_str()
    }

    /// The bucket that the samples go to.
    pub fn influxdb_bucket(&self) -> (text: &str)
        ensures
            text@ == self@.influxdb_bucket,
    {
        self.influxdb_bucket.as_str()
    }

    /// The organisation that the samples go to.
    pub fn influxdb_org(&self) -> (text: &str)
        ensures
            text@ == self@.influxdb_org,
    {
        self.influxdb_org.as_str()
    }
}

} // verus!
