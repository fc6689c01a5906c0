use mayara_signalk_wasm::plugin::{
    config_text, copy_len, default_brand, default_enabled, locator_failure_message, plan_start, poll_report, ConfigError,
    PluginConfig, StartPlan, DISABLED_STATUS, PLUGIN_ID, PLUGIN_NAME, PLUGIN_SCHEMA,
    SCANNING_DELTA, SCANNING_STATUS, STOPPED_STATUS,
};
use mayara_signalk_wasm::radar::{SetupProgress, SetupRequest};

fn config(enabled: bool, brand: &str) -> PluginConfig {
    PluginConfig { enabled, brand: brand.to_string(), interface: None }
}

#[test]
fn identity_and_messages() {
    assert_eq!(PLUGIN_ID, "mayara-radar");
    assert_eq!(PLUGIN_NAME, "Mayara Marine Radar");
    assert!(PLUGIN_SCHEMA.starts_with("{\n  \"type\": \"object\""));
    assert!(PLUGIN_SCHEMA.contains("\"enum\": [\"furuno\", \"navico\", \"raymarine\", \"garmin\"]"));
    assert_eq!(SCANNING_STATUS, "Scanning for radars...");
    assert_eq!(DISABLED_STATUS, "Disabled");
    assert_eq!(STOPPED_STATUS, "Stopped");
    assert_eq!(
        SCANNING_DELTA,
        "{\"updates\":[{\"values\":[{\"path\":\"sensors.radar.mayara.status\",\"value\":\"scanning\"}]}]}"
    );
}

#[test]
fn default_brand_is_furuno() {
    assert_eq!(default_brand(), "furuno");
    assert!(default_enabled());
    let c = PluginConfig::default();
    assert!(c.enabled);
    assert_eq!(c.brand, "furuno");
    assert!(c.interface.is_none());
}

#[test]
fn start_needs_raw_sockets() {
    match plan_start(false, Ok(config(true, "furuno"))) {
        StartPlan::Fail(m) => assert_eq!(m, "rawSockets capability not granted - cannot detect radars"),
        _ => panic!(),
    }
}

#[test]
fn start_needs_a_readable_configuration() {
    match plan_start(true, Err(ConfigError::InvalidUtf8)) {
        StartPlan::Fail(m) => assert_eq!(m, "Invalid UTF-8 in configuration"),
        _ => panic!(),
    }
    match plan_start(true, Err(ConfigError::Parse("expected value at line 1 column 1".to_string()))) {
        StartPlan::Fail(m) => assert_eq!(m, "Failed to parse config: expected value at line 1 column 1"),
        _ => panic!(),
    }
}

#[test]
fn disabled_configuration_stays_idle() {
    assert!(matches!(plan_start(true, Ok(config(false, "furuno"))), StartPlan::Disabled));
}

#[test]
fn enabled_configuration_scans() {
    match plan_start(true, Ok(config(true, "Furuno"))) {
        StartPlan::Scan(c, setup) => {
            assert_eq!(c.brand, "Furuno");
            assert!(c.enabled);
            assert_eq!(setup.request(), SetupRequest::CreateSocket { type_code: 0 });
            // The locator works with the lower-cased brand.
            let s = match setup.advance(1) {
                SetupProgress::Pending(s) => s,
                _ => panic!(),
            };
            let s = match s.advance(0) {
                SetupProgress::Pending(s) => s,
                _ => panic!(),
            };
            match s.advance(0) {
                SetupProgress::Ready(l) => assert!(matches!(
                    l.poll(),
                    mayara_signalk_wasm::radar::PollStep::Send { .. }
                )),
                _ => panic!(),
            }
        }
        _ => panic!(),
    }
}

#[test]
fn locator_failure_is_reported() {
    assert_eq!(
        locator_failure_message("Failed to bind socket"),
        "Failed to initialize radar locator: Failed to bind socket"
    );
}

#[test]
fn poll_reports() {
    let r = poll_report(None);
    assert_eq!(r.code, 0);
    assert!(r.status.is_none());
    let r = poll_report(Some(Err("Failed to send data")));
    assert_eq!(r.code, -1);
    assert!(r.status.is_none());
    let r = poll_report(Some(Ok(0)));
    assert_eq!(r.code, 0);
    assert!(r.status.is_none());
    let r = poll_report(Some(Ok(1)));
    assert_eq!(r.code, 1);
    assert_eq!(r.status.as_deref(), Some("Found 1 radar(s)"));
    let r = poll_report(Some(Ok(12)));
    assert_eq!(r.code, 12);
    assert_eq!(r.status.as_deref(), Some("Found 12 radar(s)"));
}

#[test]
fn copy_len_is_bounded_by_the_buffer() {
    assert_eq!(copy_len("mayara-radar", 100), 12);
    assert_eq!(copy_len("mayara-radar", 5), 5);
    assert_eq!(copy_len("mayara-radar", 12), 12);
    assert_eq!(copy_len("", 4), 0);
    assert_eq!(copy_len("hôte", 10), 5);
}

#[test]
fn config_text_needs_utf8() {
    assert_eq!(config_text(b"{\"enabled\":true}").ok(), Some("{\"enabled\":true}"));
    assert!(matches!(config_text(&[0x7b, 0xff, 0x7d]), Err(ConfigError::InvalidUtf8)));
}

#[test]
fn configured_interface_reaches_the_setup() {
    let c = PluginConfig { enabled: true, brand: "furuno".to_string(), interface: Some("eth1".to_string()) };
    match plan_start(true, Ok(c)) {
        StartPlan::Scan(_, setup) => {
            let mut setup = setup;
            for status in [3, 0, 0] {
                setup = match setup.advance(status) {
                    SetupProgress::Pending(s) => s,
                    _ => panic!(),
                };
            }
            assert_eq!(
                setup.request(),
                SetupRequest::JoinMulticast { socket: 3, group: "172.31.255.255", interface: "eth1".to_string() }
            );
        }
        _ => panic!(),
    }
}

#[test]
fn configured_brand_is_matched_without_case() {
    match plan_start(true, Ok(config(true, "FURUNO"))) {
        StartPlan::Scan(_, setup) => {
            let mut setup = setup;
            for status in [2, 0] {
                setup = match setup.advance(status) {
                    SetupProgress::Pending(s) => s,
                    _ => panic!(),
                };
            }
            match setup.advance(0) {
                SetupProgress::Ready(l) => assert!(matches!(
                    l.poll(),
                    mayara_signalk_wasm::radar::PollStep::Send { .. }
                )),
                _ => panic!(),
            }
        }
        _ => panic!(),
    }
}
