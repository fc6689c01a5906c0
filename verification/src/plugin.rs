//! The plugin's side of its life in SignalK: its identity, its
//! configuration, and what it decides when it starts and when it polls.

use vstd::prelude::*;
use crate::radar::{configured_interface, option_text_view, LocatorSetup, RadarLocator, SetupView, StageView};
use vstd::string::StringSliceAdditionalSpecFns;
use vstd::utf8::{decode_utf8, is_ascii_chars, valid_utf8};
use crate::text::{ascii_lowercase, decimal, lowercase, usize_to_decimal, utf8_str};

verus! {

/// The plugin's identifier in SignalK.
pub const PLUGIN_ID: &'static str = "mayara-radar";

/// The plugin's display name.
pub const PLUGIN_NAME: &'static str = "Mayara Marine Radar";

/// The JSON schema of the plugin's configuration.
pub const PLUGIN_SCHEMA: &'static str = "{\n  \"type\": \"object\",\n  \"title\": \"Mayara Radar Configuration\",\n  \"properties\": {\n    \"enabled\": {\n      \"type\": \"boolean\",\n      \"title\": \"Enable Radar Detection\",\n      \"default\": true\n    },\n    \"brand\": {\n      \"type\": \"string\",\n      \"title\": \"Radar Brand\",\n      \"enum\": [\"furuno\", \"navico\", \"raymarine\", \"garmin\"],\n      \"default\": \"furuno\"\n    },\n    \"interface\": {\n      \"type\": \"string\",\n      \"title\": \"Network Interface (optional)\",\n      \"description\": \"Leave empty to use all interfaces\"\n    }\n  }\n}";

/// The capability the plugin needs from the host.
pub const RAW_SOCKETS_CAPABILITY: &'static str = "rawSockets";

/// The status shown while the plugin looks for radars.
pub const SCANNING_STATUS: &'static str = "Scanning for radars...";

/// The status shown when the configuration disables the plugin.
pub const DISABLED_STATUS: &'static str = "Disabled";

/// The status shown once the plugin has stopped.
pub const STOPPED_STATUS: &'static str = "Stopped";

/// The delta published when scanning begins.
pub const SCANNING_DELTA: &'static str = "{\"updates\":[{\"values\":[{\"path\":\"sensors.radar.mayara.status\",\"value\":\"scanning\"}]}]}";

/// The plugin's configuration.
#[derive(Debug, Clone)]
pub struct PluginConfig {
    pub enabled: bool,
    pub brand: String,
    pub interface: Option<String>,
}

/// The brand a configuration that names none looks for.
pub fn default_brand() -> (b: String)
    ensures
        b@ == "furuno"@,
{
    String::from_str("furuno")
}

/// Whether radar detection is on when the configuration does not say.
pub fn default_enabled() -> (b: bool)
    ensures
        b,
{
    true
}

impl Default for PluginConfig {
    /// The documented defaults: detection on, Furuno radars, all interfaces.
    fn default() -> (c: PluginConfig)
        ensures
            c.enabled,
            c.brand@ == "furuno"@,
            c.interface is None,
    {
        PluginConfig { enabled: default_enabled(), brand: default_brand(), interface: None }
    }
}

/// Why a configuration could not be read.
#[derive(Debug, Clone)]
pub enum ConfigError {
    /// The configuration is not UTF-8 text.
    InvalidUtf8,
    /// The text is not a configuration; the parser's message.
    Parse(String),
}

/// The configuration's text, from the bytes the host passed: they must be
/// UTF-8.
pub fn config_text(bytes: &[u8]) -> (r: Result<&str, ConfigError>)
    ensures
        r is Ok <==> valid_utf8(bytes@),
        r matches Ok(t) ==> t@ == decode_utf8(bytes@),
        r matches Err(e) ==> e is InvalidUtf8,
{
    match utf8_str(bytes) {
        Some(t) => Ok(t),
        None => Err(ConfigError::InvalidUtf8),
    }
}

/// What the plugin does when it starts.
pub enum StartPlan {
    /// Report this error and give up.
    Fail(String),
    /// Report the disabled status and stay idle.
    Disabled,
    /// Set up a locator for the configured brand, then keep the
    /// configuration and the locator.
    Scan(PluginConfig, LocatorSetup),
}

/// The error reported when the host does not grant raw sockets.
pub open spec fn no_capability_text() -> Seq<char> {
    "rawSockets capability not granted - cannot detect radars"@
}

/// The error reported when the configuration is not UTF-8 text.
pub open spec fn invalid_utf8_text() -> Seq<char> {
    "Invalid UTF-8 in configuration"@
}

/// The error reported when the configuration cannot be parsed.
pub open spec fn parse_failure_text(message: Seq<char>) -> Seq<char> {
    "Failed to parse config: "@ + message
}

/// The error reported when the locator's socket cannot be opened.
pub open spec fn locator_failure_text(message: Seq<char>) -> Seq<char> {
    "Failed to initialize radar locator: "@ + message
}

/// Decides how the plugin starts: it needs raw sockets, then a readable
/// configuration; a disabled configuration leaves it idle; otherwise it
/// sets up a locator for the configured brand.
pub fn plan_start(has_raw_sockets: bool, config: Result<PluginConfig, ConfigError>) -> (p: StartPlan)
    ensures
        !has_raw_sockets ==> (p matches StartPlan::Fail(m) && m@ == no_capability_text()),
        has_raw_sockets ==> match config {
            Err(ConfigError::InvalidUtf8) => p matches StartPlan::Fail(m) && m@ == invalid_utf8_text(),
            Err(ConfigError::Parse(e)) => p matches StartPlan::Fail(m) && m@ == parse_failure_text(e@),
            Ok(c) => if c.enabled {
                p matches StartPlan::Scan(kept, setup) && kept == c && setup@ == (SetupView {
                    brand: lowercase(c.brand@),
                    interface: configured_interface(option_text_view(c.interface)),
                    stage: StageView::Create,
                }) && (is_ascii_chars(c.brand@) ==> setup@.brand == ascii_lowercase(c.brand@))
            } else {
                p is Disabled
            },
        },
{
    if !has_raw_sockets {
        return StartPlan::Fail(String::from_str("rawSockets capability not granted - cannot detect radars"));
    }
    match config {
        Err(ConfigError::InvalidUtf8) => StartPlan::Fail(String::from_str("Invalid UTF-8 in configuration")),
        Err(ConfigError::Parse(e)) => {
            let mut m = String::from_str("Failed to parse config: ");
            m.append(e.as_str());
            StartPlan::Fail(m)
        },
        Ok(c) => {
            if c.enabled {
                let interface = match &c.interface {
                    Some(i) => Some(i.as_str()),
                    None => None,
                };
                let setup = RadarLocator::new(c.brand.as_str(), interface);
                StartPlan::Scan(c, setup)
            } else {
                StartPlan::Disabled
            }
        },
    }
}

/// The error to report when the locator's socket could not be opened.
pub fn locator_failure_message(message: &str) -> (m: String)
    ensures
        m@ == locator_failure_text(message@),
{
    let mut m = String::from_str("Failed to initialize radar locator: ");
    m.append(message);
    m
}

/// What the host learns from a periodic poll.
pub struct PollReport {
    /// The poll's return value: the number of radars, `-1` on error, `0`
    /// when the plugin is not scanning.
    pub code: i32,
    /// A new status to show, if any.
    pub status: Option<String>,
}

/// The status shown once `n` radars are known.
pub open spec fn found_status_text(n: nat) -> Seq<char> {
    "Found "@ + decimal(n) + " radar(s)"@
}

/// Reports a periodic poll: `None` when the plugin is not scanning,
/// otherwise how the locator's poll ended. Finding radars shows how many.
pub fn poll_report(outcome: Option<Result<usize, &str>>) -> (r: PollReport)
    ensures
        match outcome {
            None => r.code == 0 && r.status is None,
            Some(Err(_)) => r.code == -1 && r.status is None,
            Some(Ok(n)) => {
                &&& r.code == n as i32
                &&& n > 0 ==> (r.status matches Some(s) && s@ == found_status_text(n as nat))
                &&& n == 0 ==> r.status is None
            },
        },
{
    match outcome {
        None => PollReport { code: 0, status: None },
        Some(Err(_)) => PollReport { code: -1, status: None },
        Some(Ok(n)) => {
            let status = if n > 0 {
                let mut s = String::from_str("Found ");
                let digits = usize_to_decimal(n);
                s.append(digits.as_str());
                s.append(" radar(s)");
                Some(s)
            } else {
                None
            };
            PollReport { code: n as i32, status }
        },
    }
}

/// How many bytes of `s` fit in an output buffer of `max_len` bytes.
pub fn copy_len(s: &str, max_len: usize) -> (n: usize)
    ensures
        n == if s.len() < max_len { s.len() } else { max_len },
        n <= s.spec_bytes().len(),
{
    let len = s.len();
    if len < max_len {
        len
    } else {
        max_len
    }
}

} // verus!
