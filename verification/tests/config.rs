//! Layered configuration.

use impossible_voice::config::{
    check_config_file, config_source, resolve_layers, BindAddress, ConfigFile, Environment,
    EnvironmentBind, EnvironmentText, FileLayer, IpAddress, PartialConfig, ServerOptions,
};
use impossible_voice::limits::{
    ServerLimits, Timeout, MAX_CONCURRENT_REQUESTS, MAX_QUEUE_CAPACITY, MAX_REQUEST_BYTES,
    MAX_TIMEOUT_NS,
};

const SECOND: Timeout = Timeout { nanoseconds: 1_000_000_000 };
const ZERO: Timeout = Timeout { nanoseconds: 0 };

fn empty_environment() -> Environment {
    Environment {
        bind: EnvironmentBind::Absent,
        max_request_bytes: EnvironmentText::Absent,
        queue_capacity: EnvironmentText::Absent,
        max_concurrent_requests: EnvironmentText::Absent,
        request_timeout_ms: EnvironmentText::Absent,
        shutdown_timeout_ms: EnvironmentText::Absent,
    }
}

#[test]
fn defaults_are_loopback_and_bounded() {
    let config = ServerOptions::default()
        .resolve(FileLayer::Absent, &empty_environment())
        .unwrap();
    assert!(config.bind().ip.is_loopback());
    assert_eq!(config.limits().max_concurrent_requests(), 4);
    assert!(!config.doctor_report().downloads_during_serve);
    assert_eq!(config.bind().port, 8080);
    assert_eq!(config.limits().max_request_bytes(), 16 * 1024 * 1024);
    assert_eq!(config.limits().queue_capacity(), 128);
    assert_eq!(config.limits().request_timeout().as_millis(), 60_000);
    assert_eq!(config.limits().shutdown_timeout().as_millis(), 10_000);
}

#[test]
fn environment_overrides_defaults_and_cli_overrides_environment() {
    let environment = Environment {
        max_concurrent_requests: EnvironmentText::Text("7".to_string()),
        ..empty_environment()
    };
    let options = ServerOptions {
        overrides: PartialConfig {
            max_concurrent_requests: Some(9),
            ..PartialConfig::default()
        },
    };
    let config = options.resolve(FileLayer::Absent, &environment).unwrap();
    assert_eq!(config.limits().max_concurrent_requests(), 9);
    let config = ServerOptions::default().resolve(FileLayer::Absent, &environment).unwrap();
    assert_eq!(config.limits().max_concurrent_requests(), 7);
}

#[test]
fn file_values_are_below_environment_values() {
    let table: toml::Table = toml::from_str("max_concurrent_requests = 5").unwrap();
    let file = PartialConfig {
        max_concurrent_requests: table["max_concurrent_requests"]
            .as_integer()
            .and_then(|value| usize::try_from(value).ok()),
        ..PartialConfig::default()
    };
    assert_eq!(file.max_concurrent_requests, Some(5));
    let environment = PartialConfig {
        max_concurrent_requests: Some(7),
        ..PartialConfig::default()
    };
    let config = resolve_layers(file.overlay(environment)).unwrap();
    assert_eq!(config.limits().max_concurrent_requests(), 7);
}

#[test]
fn non_loopback_bind_is_rejected_without_echoing_it() {
    let values = PartialConfig {
        bind: Some(BindAddress {
            ip: IpAddress::V4([0, 0, 0, 0]),
            port: 8080,
        }),
        ..PartialConfig::default()
    };
    let result = resolve_layers(values);
    assert!(result.is_err());
    if let Err(error) = result {
        assert_eq!(error.text(), "bind must be loopback");
    }
}

#[test]
fn malformed_environment_is_sanitized() {
    let environment = Environment {
        max_request_bytes: EnvironmentText::Text("private-payload".to_string()),
        ..empty_environment()
    };
    let result = ServerOptions::default().resolve(FileLayer::Absent, &environment);
    assert!(result.is_err());
    if let Err(error) = result {
        assert_eq!(error.text(), "max_request_bytes is malformed");
    }
}

#[test]
fn every_malformed_variable_names_its_field() {
    let bad = || EnvironmentText::NotUnicode;
    let cases = vec![
        ("bind is malformed", Environment { bind: EnvironmentBind::Malformed, ..empty_environment() }),
        ("queue_capacity is malformed", Environment { queue_capacity: bad(), ..empty_environment() }),
        (
            "max_concurrent_requests is malformed",
            Environment { max_concurrent_requests: bad(), ..empty_environment() },
        ),
        (
            "request_timeout_ms is malformed",
            Environment {
                request_timeout_ms: EnvironmentText::Text("18446744073709551616".to_string()),
                ..empty_environment()
            },
        ),
        (
            "shutdown_timeout_ms is malformed",
            Environment {
                shutdown_timeout_ms: EnvironmentText::Text("-1".to_string()),
                ..empty_environment()
            },
        ),
    ];
    for (text, environment) in cases {
        let error = ServerOptions::default()
            .resolve(FileLayer::Absent, &environment)
            .unwrap_err();
        assert_eq!(error.text(), text);
    }
}

#[test]
fn numbers_are_read_as_plain_decimals() {
    for (text, expected) in [("12", 12), ("+12", 12), ("0012", 12)] {
        let environment = Environment {
            queue_capacity: EnvironmentText::Text(text.to_string()),
            ..empty_environment()
        };
        let layer = environment.read().unwrap();
        assert_eq!(layer.queue_capacity, Some(expected));
    }
    for text in ["", "+", " 12", "12 ", "1_2", "0x1", "1.0"] {
        let environment = Environment {
            queue_capacity: EnvironmentText::Text(text.to_string()),
            ..empty_environment()
        };
        assert!(environment.read().is_err());
    }
}

#[test]
fn only_local_addresses_are_loopback() {
    assert!(IpAddress::V4([127, 0, 0, 1]).is_loopback());
    assert!(IpAddress::V4([127, 255, 3, 4]).is_loopback());
    assert!(!IpAddress::V4([128, 0, 0, 1]).is_loopback());
    assert!(IpAddress::V6([0, 0, 0, 0, 0, 0, 0, 1]).is_loopback());
    assert!(!IpAddress::V6([0, 0, 0, 0, 0, 0, 0, 2]).is_loopback());
    assert!(!IpAddress::V6([0, 0, 0, 0, 0, 0xffff, 0x7f00, 1]).is_loopback());
}

#[test]
fn configuration_files_are_bounded() {
    let file = |is_file, length| Some(ConfigFile { is_file, length });
    assert!(check_config_file(file(true, 64 * 1024)).is_ok());
    assert_eq!(
        check_config_file(file(true, 64 * 1024 + 1)).unwrap_err().text(),
        "config is outside the supported bound"
    );
    assert_eq!(
        check_config_file(file(false, 1)).unwrap_err().text(),
        "config is outside the supported bound"
    );
    assert_eq!(check_config_file(None).unwrap_err().text(), "config could not be read");
    let resolve = |layer| {
        ServerOptions::default()
            .resolve(layer, &empty_environment())
            .unwrap_err()
            .text()
    };
    assert_eq!(resolve(FileLayer::Unreadable), "config could not be read");
    assert_eq!(resolve(FileLayer::Malformed), "config is malformed");
}

#[test]
fn limits_out_of_range_name_their_field() {
    let text = |values: PartialConfig| resolve_layers(values).unwrap_err().text();
    let none = PartialConfig::default();
    assert_eq!(
        text(PartialConfig { max_request_bytes: Some(0), ..none }),
        "max_request_bytes is outside the supported bound"
    );
    assert_eq!(
        text(PartialConfig { queue_capacity: Some(1_000_001), ..none }),
        "queue_capacity is outside the supported bound"
    );
    assert_eq!(
        text(PartialConfig { max_concurrent_requests: Some(0), ..none }),
        "max_concurrent_requests is outside the supported bound"
    );
    assert_eq!(
        text(PartialConfig { request_timeout_ms: Some(86_400_001), ..none }),
        "request_timeout is outside the supported bound"
    );
    assert_eq!(
        text(PartialConfig { shutdown_timeout_ms: Some(0), ..none }),
        "shutdown_timeout is outside the supported bound"
    );
}

#[test]
fn every_bound_rejects_zero() {
    assert!(ServerLimits::new(0, 1, 1, SECOND, SECOND).is_err());
    assert!(ServerLimits::new(1, 0, 1, SECOND, SECOND).is_err());
    assert!(ServerLimits::new(1, 1, 0, SECOND, SECOND).is_err());
    assert!(ServerLimits::new(1, 1, 1, ZERO, SECOND).is_err());
    assert!(ServerLimits::new(1, 1, 1, SECOND, ZERO).is_err());
}

#[test]
fn size_bounds_reject_values_above_safe_maxima() {
    assert!(ServerLimits::new(MAX_REQUEST_BYTES + 1, 1, 1, SECOND, SECOND).is_err());
    assert!(ServerLimits::new(1, MAX_QUEUE_CAPACITY + 1, 1, SECOND, SECOND).is_err());
    assert!(ServerLimits::new(1, 1, MAX_CONCURRENT_REQUESTS + 1, SECOND, SECOND).is_err());
    let limits = ServerLimits::new(
        MAX_REQUEST_BYTES,
        MAX_QUEUE_CAPACITY,
        MAX_CONCURRENT_REQUESTS,
        SECOND,
        SECOND,
    );
    assert!(limits.is_ok());
    let error = ServerLimits::new(1, 0, 1, SECOND, SECOND).unwrap_err();
    assert_eq!(error.field(), "queue_capacity");
    assert_eq!(error.message(), "queue_capacity is outside the supported bound");
}

#[test]
fn timeouts_are_bounded_to_the_nanosecond() {
    let shortest = Timeout { nanoseconds: 1 };
    let day = Timeout { nanoseconds: MAX_TIMEOUT_NS };
    let limits = ServerLimits::new(1, 1, 1, shortest, day).unwrap();
    assert_eq!((limits.request_timeout(), limits.shutdown_timeout()), (shortest, day));
    let beyond = Timeout { nanoseconds: MAX_TIMEOUT_NS + 1 };
    let error = ServerLimits::new(1, 1, 1, beyond, day).unwrap_err();
    assert_eq!(error.field(), "request_timeout");
    let error = ServerLimits::new(1, 1, 1, day, beyond).unwrap_err();
    assert_eq!(error.field(), "shutdown_timeout");
    assert_eq!(Timeout::from_millis(86_400_000), day);
    assert_eq!(Timeout { nanoseconds: 1_999_999 }.as_millis(), 1);
    assert_eq!(Timeout::from_millis(u64::MAX).as_millis(), u128::from(u64::MAX));
}

#[test]
fn the_command_line_names_the_file_before_the_environment_does() {
    assert_eq!(config_source(Some("cli.toml"), Some("env.toml")), Some("cli.toml"));
    assert_eq!(config_source(Some("cli.toml"), None), Some("cli.toml"));
    assert_eq!(config_source(None, Some("env.toml")), Some("env.toml"));
    assert_eq!(config_source::<&str>(None, None), None);
}
