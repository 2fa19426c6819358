//! Layered, sanitized configuration for the control plane.

use vstd::prelude::*;
use crate::limits::{limits_are_bounded, LimitValues, ServerLimits, Timeout};
use crate::number::{parse_unsigned_text, unsigned};
use crate::text::concat;

verus! {

/// Largest configuration file in bytes.
pub const MAX_CONFIG_BYTES: u64 = 65_536;

/// Names the configuration file.
pub const CONFIG_VARIABLE: &'static str = "IMPOSSIBLE_VOICE_CONFIG";

/// Sets the bind address.
pub const BIND_VARIABLE: &'static str = "IMPOSSIBLE_VOICE_BIND";

/// Sets the maximum request body.
pub const MAX_REQUEST_BYTES_VARIABLE: &'static str = "IMPOSSIBLE_VOICE_MAX_REQUEST_BYTES";

/// Sets the queue capacity.
pub const QUEUE_CAPACITY_VARIABLE: &'static str = "IMPOSSIBLE_VOICE_QUEUE_CAPACITY";

/// Sets the concurrency.
pub const MAX_CONCURRENT_REQUESTS_VARIABLE: &'static str =
    "IMPOSSIBLE_VOICE_MAX_CONCURRENT_REQUESTS";

/// Sets the request deadline.
pub const REQUEST_TIMEOUT_MS_VARIABLE: &'static str = "IMPOSSIBLE_VOICE_REQUEST_TIMEOUT_MS";

/// Sets the shutdown deadline.
pub const SHUTDOWN_TIMEOUT_MS_VARIABLE: &'static str = "IMPOSSIBLE_VOICE_SHUTDOWN_TIMEOUT_MS";

/// An internet address.
#[derive(Debug, Clone, Copy, PartialEq, Eq)]
pub enum IpAddress {
    /// Version 4, most significant byte first.
    V4([u8; 4]),
    /// Version 6, most significant group first.
    V6([u16; 8]),
}

impl IpAddress {
    /// Whether an address is the local host's: `127.0.0.0/8` or `::1`.
    pub open spec fn loopback(self) -> bool {
        match self {
            IpAddress::V4(bytes) => bytes@[0] == 127,
            IpAddress::V6(groups) => groups@ == seq![0u16, 0, 0, 0, 0, 0, 0, 1],
        }
    }

    /// Whether an address is the local host's.
    pub fn is_loopback(self) -> (r: bool)
        ensures
            r == self.loopback(),
    {
        match self {
            IpAddress::V4(bytes) => bytes[0] == 127,
            IpAddress::V6(groups) => {
                let r = groups[0] == 0 && groups[1] == 0 && groups[2] == 0 && groups[3] == 0
                    && groups[4] == 0 && groups[5] == 0 && groups[6] == 0 && groups[7] == 1;
                proof {
                    let one = seq![0u16, 0, 0, 0, 0, 0, 0, 1];
                    if r {
                        assert(groups@ =~= one);
                    } else {
                        assert(one[0] == 0 && one[1] == 0 && one[2] == 0 && one[3] == 0);
                        assert(one[4] == 0 && one[5] == 0 && one[6] == 0 && one[7] == 1);
                    }
                }
                r
            },
        }
    }
}

/// An address to listen on.
#[derive(Debug, Clone, Copy, PartialEq, Eq)]
pub struct BindAddress {
    /// Address.
    pub ip: IpAddress,
    /// Port.
    pub port: u16,
}

impl BindAddress {
    /// `127.0.0.1:8080`.
    pub open spec fn is_default(self) -> bool {
        &&& self.port == 8080
        &&& self.ip matches IpAddress::V4(bytes) && bytes@ == seq![127u8, 0, 0, 1]
    }

    fn default_bind() -> (bind: Self)
        ensures
            bind.is_default(),
            bind.ip.loopback(),
    {
        let bytes: [u8; 4] = [127, 0, 0, 1];
        assert(bytes@ =~= seq![127u8, 0, 0, 1]);
        BindAddress { ip: IpAddress::V4(bytes), port: 8080 }
    }
}

/// Sanitized configuration failure.
#[derive(Debug, Clone, Copy, PartialEq, Eq)]
pub struct ConfigError {
    /// The invalid field, without its value.
    pub field: &'static str,
    /// What is wrong with it.
    pub message: &'static str,
}

/// A failure over plain texts.
pub struct Failure {
    /// The invalid field.
    pub field: Seq<char>,
    /// What is wrong with it.
    pub message: Seq<char>,
}

impl ConfigError {
    /// The failure's texts.
    pub open spec fn failure(self) -> Failure {
        Failure { field: self.field@, message: self.message@ }
    }

    /// Creates a failure.
    pub fn new(field: &'static str, message: &'static str) -> (error: Self)
        ensures
            error.field@ == field@,
            error.message@ == message@,
    {
        ConfigError { field, message }
    }

    /// Stable description.
    pub fn text(self) -> (text: String)
        ensures
            text@ == self.field@ + " "@ + self.message@,
    {
        let start = concat(self.field, " ");
        concat(start.as_str(), self.message)
    }
}

/// One layer of configuration.
#[derive(Debug, Clone, Copy, PartialEq, Eq)]
pub struct PartialConfig {
    /// Loopback bind address.
    pub bind: Option<BindAddress>,
    /// Maximum encoded workload request body in bytes.
    pub max_request_bytes: Option<usize>,
    /// Maximum requests waiting behind the execution bound.
    pub queue_capacity: Option<usize>,
    /// Maximum concurrently executing workload requests.
    pub max_concurrent_requests: Option<usize>,
    /// Overall request deadline in milliseconds.
    pub request_timeout_ms: Option<u64>,
    /// Total drain and cleanup deadline in milliseconds.
    pub shutdown_timeout_ms: Option<u64>,
}

impl Default for PartialConfig {
    fn default() -> (config: Self)
        ensures
            config == PartialConfig::unset(),
    {
        PartialConfig {
            bind: None,
            max_request_bytes: None,
            queue_capacity: None,
            max_concurrent_requests: None,
            request_timeout_ms: None,
            shutdown_timeout_ms: None,
        }
    }
}

/// A value, or the one below it.
pub open spec fn over<T>(higher: Option<T>, lower: Option<T>) -> Option<T> {
    if higher is Some {
        higher
    } else {
        lower
    }
}

/// A value, or its default.
pub open spec fn or_default(value: Option<usize>, default: nat) -> nat {
    match value {
        Some(value) => value as nat,
        None => default,
    }
}

/// A duration in milliseconds, or its default, in nanoseconds.
pub open spec fn or_default_ns(value: Option<u64>, default_ms: nat) -> nat {
    match value {
        Some(value) => value as nat * 1_000_000,
        None => default_ms * 1_000_000,
    }
}

impl PartialConfig {
    /// A layer that sets nothing.
    pub open spec fn unset() -> PartialConfig {
        PartialConfig {
            bind: None,
            max_request_bytes: None,
            queue_capacity: None,
            max_concurrent_requests: None,
            request_timeout_ms: None,
            shutdown_timeout_ms: None,
        }
    }

    /// A layer with a higher one over it: each field that the higher one sets is its.
    pub open spec fn under(self, higher: PartialConfig) -> PartialConfig {
        PartialConfig {
            bind: over(higher.bind, self.bind),
            max_request_bytes: over(higher.max_request_bytes, self.max_request_bytes),
            queue_capacity: over(higher.queue_capacity, self.queue_capacity),
            max_concurrent_requests: over(
                higher.max_concurrent_requests,
                self.max_concurrent_requests,
            ),
            request_timeout_ms: over(higher.request_timeout_ms, self.request_timeout_ms),
            shutdown_timeout_ms: over(higher.shutdown_timeout_ms, self.shutdown_timeout_ms),
        }
    }

    /// Lays a higher layer over this one.
    pub fn overlay(self, higher: Self) -> (combined: Self)
        ensures
            combined == self.under(higher),
    {
        PartialConfig {
            bind: if higher.bind.is_some() {
                higher.bind
            } else {
                self.bind
            },
            max_request_bytes: if higher.max_request_bytes.is_some() {
                higher.max_request_bytes
            } else {
                self.max_request_bytes
            },
            queue_capacity: if higher.queue_capacity.is_some() {
                higher.queue_capacity
            } else {
                self.queue_capacity
            },
            max_concurrent_requests: if higher.max_concurrent_requests.is_some() {
                higher.max_concurrent_requests
            } else {
                self.max_concurrent_requests
            },
            request_timeout_ms: if higher.request_timeout_ms.is_some() {
                higher.request_timeout_ms
            } else {
                self.request_timeout_ms
            },
            shutdown_timeout_ms: if higher.shutdown_timeout_ms.is_some() {
                higher.shutdown_timeout_ms
            } else {
                self.shutdown_timeout_ms
            },
        }
    }

    /// The limits that a layer asks for, with the defaults of what it does not set.
    pub open spec fn limit_values(self) -> LimitValues {
        LimitValues {
            request_bytes: or_default(self.max_request_bytes, 16_777_216),
            queue: or_default(self.queue_capacity, 128),
            concurrent: or_default(self.max_concurrent_requests, 4),
            request_ns: or_default_ns(self.request_timeout_ms, 60_000),
            shutdown_ns: or_default_ns(self.shutdown_timeout_ms, 10_000),
        }
    }

    /// Why a layer is refused, if it is.
    pub open spec fn rejection(self) -> Option<Failure> {
        if self.bind matches Some(bind) && !bind.ip.loopback() {
            Some(Failure { field: "bind"@, message: "must be loopback"@ })
        } else {
            match self.limit_values().invalid_field() {
                Some(field) => Some(
                    Failure { field, message: "is outside the supported bound"@ },
                ),
                None => None,
            }
        }
    }
}

/// Validated effective process configuration.
#[derive(Debug, Clone, Copy)]
pub struct RuntimeConfig {
    bind: BindAddress,
    limits: ServerLimits,
}

impl RuntimeConfig {
    #[verifier::type_invariant]
    spec fn well_formed(self) -> bool {
        self.bind.ip.loopback()
    }

    /// Listener address.
    pub closed spec fn address(self) -> BindAddress {
        self.bind
    }

    /// Resource and lifecycle limits.
    pub closed spec fn bounds(self) -> ServerLimits {
        self.limits
    }

    /// Listener address, guaranteed to be loopback-only.
    pub fn bind(self) -> (bind: BindAddress)
        ensures
            bind == self.address(),
            bind.ip.loopback(),
    {
        proof {
            use_type_invariant(self);
        }
        self.bind
    }

    /// Validated resource and lifecycle limits.
    pub fn limits(self) -> (limits: ServerLimits)
        ensures
            limits == self.bounds(),
    {
        self.limits
    }

    /// Privacy-safe configuration validation report.
    pub fn doctor_report(self) -> (report: DoctorReport)
        ensures
            report.status@ == "ok"@,
            report.bind_scope@ == "loopback"@,
            report.max_request_bytes == self.bounds().values().request_bytes,
            report.queue_capacity == self.bounds().values().queue,
            report.max_concurrent_requests == self.bounds().values().concurrent,
            report.request_timeout_ms == self.bounds().values().request_ns / 1_000_000,
            report.shutdown_timeout_ms == self.bounds().values().shutdown_ns / 1_000_000,
            !report.downloads_during_serve,
    {
        DoctorReport {
            status: "ok",
            bind_scope: "loopback",
            max_request_bytes: self.limits.max_request_bytes(),
            queue_capacity: self.limits.queue_capacity(),
            max_concurrent_requests: self.limits.max_concurrent_requests(),
            request_timeout_ms: self.limits.request_timeout().as_millis(),
            shutdown_timeout_ms: self.limits.shutdown_timeout().as_millis(),
            downloads_during_serve: false,
        }
    }
}

/// Privacy-safe `doctor` output.
#[derive(Debug)]
pub struct DoctorReport {
    /// Overall status.
    pub status: &'static str,
    /// Where the listener can be reached from.
    pub bind_scope: &'static str,
    /// Maximum encoded request size.
    pub max_request_bytes: usize,
    /// Maximum queued operations.
    pub queue_capacity: usize,
    /// Maximum concurrently executing operations.
    pub max_concurrent_requests: usize,
    /// Maximum request lifetime.
    pub request_timeout_ms: u128,
    /// Maximum graceful shutdown duration.
    pub shutdown_timeout_ms: u128,
    /// Whether serving downloads anything.
    pub downloads_during_serve: bool,
}

/// Validates a combined layer, with the defaults of what it does not set.
pub fn resolve_layers(values: PartialConfig) -> (r: Result<RuntimeConfig, ConfigError>)
    ensures
        match r {
            Ok(config) => {
                &&& values.rejection() is None
                &&& config.bounds().values() == values.limit_values()
                &&& match values.bind {
                    Some(bind) => config.address() == bind,
                    None => config.address().is_default(),
                }
            },
            Err(e) => values.rejection() == Some(e.failure()),
        },
{
    let bind = match values.bind {
        Some(bind) => bind,
        None => BindAddress::default_bind(),
    };
    if !bind.ip.is_loopback() {
        return Err(ConfigError::new("bind", "must be loopback"));
    }
    let max_request_bytes: usize = match values.max_request_bytes {
        Some(value) => value,
        None => 16_777_216,
    };
    let queue_capacity: usize = match values.queue_capacity {
        Some(value) => value,
        None => 128,
    };
    let max_concurrent_requests: usize = match values.max_concurrent_requests {
        Some(value) => value,
        None => 4,
    };
    let request_timeout_ms: u64 = match values.request_timeout_ms {
        Some(value) => value,
        None => 60_000,
    };
    let shutdown_timeout_ms: u64 = match values.shutdown_timeout_ms {
        Some(value) => value,
        None => 10_000,
    };
    match ServerLimits::new(
        max_request_bytes,
        queue_capacity,
        max_concurrent_requests,
        Timeout::from_millis(request_timeout_ms),
        Timeout::from_millis(shutdown_timeout_ms),
    ) {
        Ok(limits) => Ok(RuntimeConfig { bind, limits }),
        Err(e) => Err(ConfigError::new(e.field(), "is outside the supported bound")),
    }
}

/// An environment variable.
#[derive(Debug)]
pub enum EnvironmentText {
    /// The variable is not set.
    Absent,
    /// Its value is not Unicode.
    NotUnicode,
    /// Its value.
    Text(String),
}

/// The bind address of the environment.
#[derive(Debug, Clone, Copy)]
pub enum EnvironmentBind {
    /// The variable is not set.
    Absent,
    /// Its value is no socket address.
    Malformed,
    /// Its value.
    Address(BindAddress),
}

/// The environment's configuration variables.
#[derive(Debug)]
pub struct Environment {
    /// The value of `BIND_VARIABLE`.
    pub bind: EnvironmentBind,
    /// The value of `MAX_REQUEST_BYTES_VARIABLE`.
    pub max_request_bytes: EnvironmentText,
    /// The value of `QUEUE_CAPACITY_VARIABLE`.
    pub queue_capacity: EnvironmentText,
    /// The value of `MAX_CONCURRENT_REQUESTS_VARIABLE`.
    pub max_concurrent_requests: EnvironmentText,
    /// The value of `REQUEST_TIMEOUT_MS_VARIABLE`.
    pub request_timeout_ms: EnvironmentText,
    /// The value of `SHUTDOWN_TIMEOUT_MS_VARIABLE`.
    pub shutdown_timeout_ms: EnvironmentText,
}

/// The number an environment variable sets: `Ok(None)` where it is not set, an error where it is
/// no number up to `max`.
pub open spec fn environment_number(value: EnvironmentText, max: nat) -> Result<Option<nat>, ()> {
    match value {
        EnvironmentText::Absent => Ok(None),
        EnvironmentText::NotUnicode => Err(()),
        EnvironmentText::Text(text) => match unsigned(text@, max) {
            Some(n) => Ok(Some(n)),
            None => Err(()),
        },
    }
}

impl Environment {
    /// The first malformed variable's field, if there is one.
    pub open spec fn malformed_field(self) -> Option<Seq<char>> {
        if self.bind is Malformed {
            Some("bind"@)
        } else if environment_number(self.max_request_bytes, usize::MAX as nat) is Err {
            Some("max_request_bytes"@)
        } else if environment_number(self.queue_capacity, usize::MAX as nat) is Err {
            Some("queue_capacity"@)
        } else if environment_number(self.max_concurrent_requests, usize::MAX as nat) is Err {
            Some("max_concurrent_requests"@)
        } else if environment_number(self.request_timeout_ms, u64::MAX as nat) is Err {
            Some("request_timeout_ms"@)
        } else if environment_number(self.shutdown_timeout_ms, u64::MAX as nat) is Err {
            Some("shutdown_timeout_ms"@)
        } else {
            None
        }
    }

    /// The layer that well-formed variables set.
    pub open spec fn layer(self) -> PartialConfig {
        PartialConfig {
            bind: match self.bind {
                EnvironmentBind::Address(bind) => Some(bind),
                _ => None,
            },
            max_request_bytes: as_size(
                environment_number(self.max_request_bytes, usize::MAX as nat),
            ),
            queue_capacity: as_size(environment_number(self.queue_capacity, usize::MAX as nat)),
            max_concurrent_requests: as_size(
                environment_number(self.max_concurrent_requests, usize::MAX as nat),
            ),
            request_timeout_ms: as_duration(
                environment_number(self.request_timeout_ms, u64::MAX as nat),
            ),
            shutdown_timeout_ms: as_duration(
                environment_number(self.shutdown_timeout_ms, u64::MAX as nat),
            ),
        }
    }

    /// Reads the layer that the variables set.
    pub fn read(&self) -> (r: Result<PartialConfig, ConfigError>)
        ensures
            match r {
                Ok(layer) => self.malformed_field() is None && layer == self.layer(),
                Err(e) => {
                    &&& self.malformed_field() == Some(e.field@)
                    &&& e.message@ == "is malformed"@
                },
            },
    {
        let bind = match self.bind {
            EnvironmentBind::Absent => None,
            EnvironmentBind::Malformed => {
                return Err(ConfigError::new("bind", "is malformed"));
            },
            EnvironmentBind::Address(bind) => Some(bind),
        };
        let max_request_bytes = match parse_size(&self.max_request_bytes) {
            Ok(value) => value,
            Err(()) => {
                return Err(ConfigError::new("max_request_bytes", "is malformed"));
            },
        };
        let queue_capacity = match parse_size(&self.queue_capacity) {
            Ok(value) => value,
            Err(()) => {
                return Err(ConfigError::new("queue_capacity", "is malformed"));
            },
        };
        let max_concurrent_requests = match parse_size(&self.max_concurrent_requests) {
            Ok(value) => value,
            Err(()) => {
                return Err(ConfigError::new("max_concurrent_requests", "is malformed"));
            },
        };
        let request_timeout_ms = match parse_duration(&self.request_timeout_ms) {
            Ok(value) => value,
            Err(()) => {
                return Err(ConfigError::new("request_timeout_ms", "is malformed"));
            },
        };
        let shutdown_timeout_ms = match parse_duration(&self.shutdown_timeout_ms) {
            Ok(value) => value,
            Err(()) => {
                return Err(ConfigError::new("shutdown_timeout_ms", "is malformed"));
            },
        };
        Ok(
            PartialConfig {
                bind,
                max_request_bytes,
                queue_capacity,
                max_concurrent_requests,
                request_timeout_ms,
                shutdown_timeout_ms,
            },
        )
    }
}

/// A parsed number as a size.
pub open spec fn as_size(value: Result<Option<nat>, ()>) -> Option<usize> {
    match value {
        Ok(Some(n)) => Some(n as usize),
        _ => None,
    }
}

/// A parsed number as a duration.
pub open spec fn as_duration(value: Result<Option<nat>, ()>) -> Option<u64> {
    match value {
        Ok(Some(n)) => Some(n as u64),
        _ => None,
    }
}

/// Reads a size.
fn parse_size(value: &EnvironmentText) -> (r: Result<Option<usize>, ()>)
    ensures
        r is Ok <==> environment_number(*value, usize::MAX as nat) is Ok,
        r matches Ok(size) ==> size == as_size(environment_number(*value, usize::MAX as nat)),
{
    match value {
        EnvironmentText::Absent => Ok(None),
        EnvironmentText::NotUnicode => Err(()),
        EnvironmentText::Text(text) => match parse_unsigned_text(text.as_str(), usize::MAX as u64) {
            Some(n) => Ok(Some(n as usize)),
            None => Err(()),
        },
    }
}

/// Reads a duration.
fn parse_duration(value: &EnvironmentText) -> (r: Result<Option<u64>, ()>)
    ensures
        r is Ok <==> environment_number(*value, u64::MAX as nat) is Ok,
        r matches Ok(duration) ==> duration == as_duration(
            environment_number(*value, u64::MAX as nat),
        ),
{
    match value {
        EnvironmentText::Absent => Ok(None),
        EnvironmentText::NotUnicode => Err(()),
        EnvironmentText::Text(text) => match parse_unsigned_text(text.as_str(), u64::MAX) {
            Some(n) => Ok(Some(n)),
            None => Err(()),
        },
    }
}

/// What is known of a configuration file before it is read; `None` where it cannot be inspected.
#[derive(Debug, Clone, Copy)]
pub struct ConfigFile {
    /// Whether it is a regular file.
    pub is_file: bool,
    /// Its length in bytes.
    pub length: u64,
}

/// Accepts a configuration file for reading.
pub fn check_config_file(file: Option<ConfigFile>) -> (r: Result<(), ConfigError>)
    ensures
        match r {
            Ok(()) => file matches Some(found) && found.is_file && found.length <= MAX_CONFIG_BYTES,
            Err(e) => {
                &&& e.field@ == "config"@
                &&& match file {
                    None => e.message@ == "could not be read"@,
                    Some(found) => {
                        &&& !found.is_file || found.length > MAX_CONFIG_BYTES
                        &&& e.message@ == "is outside the supported bound"@
                    },
                }
            },
        },
{
    match file {
        None => Err(ConfigError::new("config", "could not be read")),
        Some(found) => if found.is_file && found.length <= MAX_CONFIG_BYTES {
            Ok(())
        } else {
            Err(ConfigError::new("config", "is outside the supported bound"))
        },
    }
}

/// What reading an accepted configuration file came to.
#[derive(Debug, Clone, Copy)]
pub enum FileLayer {
    /// There is none to read.
    Absent,
    /// It could not be read as text.
    Unreadable,
    /// It is no configuration.
    Malformed,
    /// Its layer.
    Layer(PartialConfig),
}

/// Why a file's layer is refused, if it is.
pub open spec fn file_failure(file: FileLayer) -> Option<Failure> {
    match file {
        FileLayer::Unreadable => Some(
            Failure { field: "config"@, message: "could not be read"@ },
        ),
        FileLayer::Malformed => Some(Failure { field: "config"@, message: "is malformed"@ }),
        _ => None,
    }
}

/// The layer of a file.
pub open spec fn file_layer(file: FileLayer) -> PartialConfig {
    match file {
        FileLayer::Layer(layer) => layer,
        _ => PartialConfig::unset(),
    }
}

/// CLI overrides shared by `serve` and `doctor`.
#[derive(Debug, Clone, Copy)]
pub struct ServerOptions {
    /// The layer that the command line sets.
    pub overrides: PartialConfig,
}

impl Default for ServerOptions {
    fn default() -> (options: Self)
        ensures
            options.overrides == PartialConfig::unset(),
    {
        ServerOptions { overrides: PartialConfig::default() }
    }
}

/// The configuration file to read: the one that the command line names, or else the one that
/// `IMPOSSIBLE_VOICE_CONFIG` names, or else none.
pub fn config_source<T>(named: Option<T>, environment: Option<T>) -> (source: Option<T>)
    ensures
        source == over(named, environment),
{
    match named {
        Some(path) => Some(path),
        None => environment,
    }
}

impl ServerOptions {
    /// The layers combined: the file, the environment over it, the command line over both.
    pub open spec fn combined(self, file: FileLayer, environment: Environment) -> PartialConfig {
        file_layer(file).under(environment.layer()).under(self.overrides)
    }

    /// Why the configuration is refused, if it is.
    pub open spec fn failure(self, file: FileLayer, environment: Environment) -> Option<Failure> {
        if file_failure(file) is Some {
            file_failure(file)
        } else {
            match environment.malformed_field() {
                Some(field) => Some(Failure { field, message: "is malformed"@ }),
                None => self.combined(file, environment).rejection(),
            }
        }
    }

    /// Resolves defaults, then file, environment, and CLI in increasing precedence order.
    pub fn resolve(&self, file: FileLayer, environment: &Environment) -> (r: Result<
        RuntimeConfig,
        ConfigError,
    >)
        ensures
            match r {
                Ok(config) => {
                    &&& self.failure(file, *environment) is None
                    &&& config.bounds().values() == self.combined(
                        file,
                        *environment,
                    ).limit_values()
                    &&& match self.combined(file, *environment).bind {
                        Some(bind) => config.address() == bind,
                        None => config.address().is_default(),
                    }
                },
                Err(e) => self.failure(file, *environment) == Some(e.failure()),
            },
    {
        let from_file = match file {
            FileLayer::Absent => PartialConfig::default(),
            FileLayer::Unreadable => {
                return Err(ConfigError::new("config", "could not be read"));
            },
            FileLayer::Malformed => {
                return Err(ConfigError::new("config", "is malformed"));
            },
            FileLayer::Layer(layer) => layer,
        };
        let from_environment = match environment.read() {
            Ok(layer) => layer,
            Err(e) => {
                return Err(e);
            },
        };
        resolve_layers(from_file.overlay(from_environment).overlay(self.overrides))
    }
}

/// Layers combine in any grouping, and a layer that sets nothing changes nothing: only the order
/// of precedence counts.
pub proof fn layering_is_associative(low: PartialConfig, middle: PartialConfig, high: PartialConfig)
    ensures
        low.under(middle).under(high) == low.under(middle.under(high)),
        low.under(PartialConfig::unset()) == low,
        PartialConfig::unset().under(high) == high,
{
}

/// Increasing precedence: every field, independently of the others, is what the command line sets, or
/// else what the environment sets, or else what the file sets.
pub proof fn precedence_increases(
    options: ServerOptions,
    file: FileLayer,
    environment: Environment,
)
    ensures
        ({
            let all = options.combined(file, environment);
            let cli = options.overrides;
            let env = environment.layer();
            let low = file_layer(file);
            &&& all.bind == over(cli.bind, over(env.bind, low.bind))
            &&& all.max_request_bytes == over(
                cli.max_request_bytes,
                over(env.max_request_bytes, low.max_request_bytes),
            )
            &&& all.queue_capacity == over(
                cli.queue_capacity,
                over(env.queue_capacity, low.queue_capacity),
            )
            &&& all.max_concurrent_requests == over(
                cli.max_concurrent_requests,
                over(env.max_concurrent_requests, low.max_concurrent_requests),
            )
            &&& all.request_timeout_ms == over(
                cli.request_timeout_ms,
                over(env.request_timeout_ms, low.request_timeout_ms),
            )
            &&& all.shutdown_timeout_ms == over(
                cli.shutdown_timeout_ms,
                over(env.shutdown_timeout_ms, low.shutdown_timeout_ms),
            )
        }),
{
}

/// The listener is never reachable from elsewhere: an address is the local host's exactly when it is
/// one of 127.0.0.0/8 or ::1, and a configuration with any other is refused, whatever else it sets.
pub proof fn only_the_local_host_is_bound(config: PartialConfig, bind: BindAddress)
    ensures
        bind.ip matches IpAddress::V4(bytes) ==> (bind.ip.loopback() <==> bytes@[0] == 127),
        bind.ip matches IpAddress::V6(groups) ==> (bind.ip.loopback() <==> {
            &&& groups@[7] == 1
            &&& forall|i: int| 0 <= i < 7 ==> #[trigger] groups@[i] == 0
        }),
        config.bind == Some(bind) && !bind.ip.loopback() ==> config.rejection() == Some(
            Failure { field: "bind"@, message: "must be loopback"@ },
        ),
        config.rejection() is None && config.bind is Some ==> config.bind->0.ip.loopback(),
{
    if let IpAddress::V6(groups) = bind.ip {
        let one = seq![0u16, 0, 0, 0, 0, 0, 0, 1];
        assert(one[0] == 0 && one[1] == 0 && one[2] == 0 && one[3] == 0);
        assert(one[4] == 0 && one[5] == 0 && one[6] == 0 && one[7] == 1);
        assert(groups@.len() == 8);
        if groups@[7] == 1 && forall|i: int| 0 <= i < 7 ==> #[trigger] groups@[i] == 0 {
            assert(groups@ =~= one);
        }
    }
}

/// What nothing sets has its default: 16 MiB, 128 waiting and 4 running requests, a minute for a
/// request and ten seconds for shutdown. These are acceptable, so a configuration that sets nothing
/// is; and each field that is set is taken as it is, in milliseconds where it is a time.
pub proof fn unset_fields_have_their_defaults(config: PartialConfig)
    ensures
        PartialConfig::unset().rejection() is None,
        PartialConfig::unset().limit_values() == (LimitValues {
            request_bytes: 16 * 1_048_576,
            queue: 128,
            concurrent: 4,
            request_ns: 60_000_000_000,
            shutdown_ns: 10_000_000_000,
        }),
        config.limit_values().request_bytes == match config.max_request_bytes {
            Some(set) => set as nat,
            None => PartialConfig::unset().limit_values().request_bytes,
        },
        config.limit_values().queue == match config.queue_capacity {
            Some(set) => set as nat,
            None => PartialConfig::unset().limit_values().queue,
        },
        config.limit_values().concurrent == match config.max_concurrent_requests {
            Some(set) => set as nat,
            None => PartialConfig::unset().limit_values().concurrent,
        },
        config.limit_values().request_ns == match config.request_timeout_ms {
            Some(set) => set as nat * 1_000_000,
            None => PartialConfig::unset().limit_values().request_ns,
        },
        config.limit_values().shutdown_ns == match config.shutdown_timeout_ms {
            Some(set) => set as nat * 1_000_000,
            None => PartialConfig::unset().limit_values().shutdown_ns,
        },
{
}

/// A configuration is accepted exactly when its address is the local host's and its numbers lie
/// between one and their bounds.
pub proof fn accepted_configurations_are_bounded(config: PartialConfig)
    ensures
        config.rejection() is None <==> {
            let values = config.limit_values();
            &&& config.bind matches Some(bind) ==> bind.ip.loopback()
            &&& 0 < values.request_bytes <= 1_073_741_824
            &&& 0 < values.queue <= 1_000_000
            &&& 0 < values.concurrent <= 1_000_000
            &&& 0 < values.request_ns <= 86_400_000_000_000
            &&& 0 < values.shutdown_ns <= 86_400_000_000_000
        },
{
    limits_are_bounded(config.limit_values());
}

/// A variable that is not set sets nothing, one whose value is a number of acceptable size sets that
/// number, and any other value is refused.
pub proof fn variables_are_read_as_numbers(value: EnvironmentText, max: nat)
    ensures
        environment_number(value, max) == Ok::<Option<nat>, ()>(None) <==> value is Absent,
        environment_number(value, max) is Err <==> {
            ||| value is NotUnicode
            ||| value matches EnvironmentText::Text(text) && unsigned(text@, max) is None
        },
        environment_number(value, max) matches Ok(Some(n)) ==> value matches EnvironmentText::Text(
            text,
        ) && unsigned(text@, max) == Some(n),
{
}

/// Each variable sets its own field and no other, and a malformed one is named as its field is.
pub proof fn variables_set_their_own_field(
    unset: Environment,
    text: EnvironmentText,
    size: usize,
    span: u64,
)
    requires
        unset.bind is Absent,
        unset.max_request_bytes is Absent,
        unset.queue_capacity is Absent,
        unset.max_concurrent_requests is Absent,
        unset.request_timeout_ms is Absent,
        unset.shutdown_timeout_ms is Absent,
    ensures
        unset.malformed_field() is None,
        unset.layer() == PartialConfig::unset(),
        (Environment { bind: EnvironmentBind::Malformed, ..unset }).malformed_field() == Some(
            "bind"@,
        ),
        environment_number(text, usize::MAX as nat) is Err ==> {
            &&& (Environment { max_request_bytes: text, ..unset }).malformed_field() == Some(
                "max_request_bytes"@,
            )
            &&& (Environment { queue_capacity: text, ..unset }).malformed_field() == Some(
                "queue_capacity"@,
            )
            &&& (Environment { max_concurrent_requests: text, ..unset }).malformed_field() == Some(
                "max_concurrent_requests"@,
            )
        },
        environment_number(text, u64::MAX as nat) is Err ==> {
            &&& (Environment { request_timeout_ms: text, ..unset }).malformed_field() == Some(
                "request_timeout_ms"@,
            )
            &&& (Environment { shutdown_timeout_ms: text, ..unset }).malformed_field() == Some(
                "shutdown_timeout_ms"@,
            )
        },
        environment_number(text, usize::MAX as nat) == Ok::<Option<nat>, ()>(Some(size as nat))
            ==> {
            let none = PartialConfig::unset();
            &&& (Environment { max_request_bytes: text, ..unset }).layer() == (PartialConfig {
                max_request_bytes: Some(size),
                ..none
            })
            &&& (Environment { queue_capacity: text, ..unset }).layer() == (PartialConfig {
                queue_capacity: Some(size),
                ..none
            })
            &&& (Environment { max_concurrent_requests: text, ..unset }).layer() == (PartialConfig {
                max_concurrent_requests: Some(size),
                ..none
            })
        },
        environment_number(text, u64::MAX as nat) == Ok::<Option<nat>, ()>(Some(span as nat)) ==> {
            let none = PartialConfig::unset();
            &&& (Environment { request_timeout_ms: text, ..unset }).layer() == (PartialConfig {
                request_timeout_ms: Some(span),
                ..none
            })
            &&& (Environment { shutdown_timeout_ms: text, ..unset }).layer() == (PartialConfig {
                shutdown_timeout_ms: Some(span),
                ..none
            })
        },
{
}

/// A file that cannot be read or is no configuration is refused before the environment is looked
/// at, and that before anything is combined.
pub proof fn failures_come_in_order(
    options: ServerOptions,
    file: FileLayer,
    environment: Environment,
)
    ensures
        file is Unreadable ==> options.failure(file, environment) == Some(
            Failure { field: "config"@, message: "could not be read"@ },
        ),
        file is Malformed ==> options.failure(file, environment) == Some(
            Failure { field: "config"@, message: "is malformed"@ },
        ),
        (file is Absent || file is Layer) && environment.malformed_field() is Some
            ==> options.failure(file, environment) == Some(
            Failure { field: environment.malformed_field()->0, message: "is malformed"@ },
        ),
        (file is Absent || file is Layer) && environment.malformed_field() is None
            ==> options.failure(file, environment) == options.combined(
            file,
            environment,
        ).rejection(),
        file_layer(FileLayer::Absent) == PartialConfig::unset(),
        file matches FileLayer::Layer(layer) ==> file_layer(file) == layer,
{
}

/// A configuration file is read exactly where it is a regular file of at most the largest size.
pub proof fn configuration_files_are_bounded(
    file: Option<ConfigFile>,
    checked: Result<(), ConfigError>,
)
    requires
        call_ensures(check_config_file, (file,), checked),
    ensures
        checked is Ok <==> (file matches Some(found) && found.is_file && found.length <= 65_536),
{
}

/// What a resolved configuration is, field by field: the command line's value, or else the
/// environment's, or else the file's, or else the default; and always at the local host.
pub proof fn resolved_fields_come_from_the_highest_layer(
    options: &ServerOptions,
    file: FileLayer,
    environment: &Environment,
    resolved: Result<RuntimeConfig, ConfigError>,
)
    requires
        call_ensures(ServerOptions::resolve, (options, file, environment), resolved),
        resolved is Ok,
    ensures
        ({
            let values = resolved->Ok_0.bounds().values();
            let cli = options.overrides;
            let env = environment.layer();
            let low = file_layer(file);
            &&& values.request_bytes == match (
                cli.max_request_bytes,
                env.max_request_bytes,
                low.max_request_bytes,
            ) {
                (Some(n), _, _) => n as nat,
                (None, Some(n), _) => n as nat,
                (None, None, Some(n)) => n as nat,
                _ => 16_777_216,
            }
            &&& values.queue == match (cli.queue_capacity, env.queue_capacity, low.queue_capacity) {
                (Some(n), _, _) => n as nat,
                (None, Some(n), _) => n as nat,
                (None, None, Some(n)) => n as nat,
                _ => 128,
            }
            &&& values.concurrent == match (
                cli.max_concurrent_requests,
                env.max_concurrent_requests,
                low.max_concurrent_requests,
            ) {
                (Some(n), _, _) => n as nat,
                (None, Some(n), _) => n as nat,
                (None, None, Some(n)) => n as nat,
                _ => 4,
            }
            &&& values.request_ns == 1_000_000 * match (
                cli.request_timeout_ms,
                env.request_timeout_ms,
                low.request_timeout_ms,
            ) {
                (Some(n), _, _) => n as nat,
                (None, Some(n), _) => n as nat,
                (None, None, Some(n)) => n as nat,
                _ => 60_000,
            }
            &&& values.shutdown_ns == 1_000_000 * match (
                cli.shutdown_timeout_ms,
                env.shutdown_timeout_ms,
                low.shutdown_timeout_ms,
            ) {
                (Some(n), _, _) => n as nat,
                (None, Some(n), _) => n as nat,
                (None, None, Some(n)) => n as nat,
                _ => 10_000,
            }
            &&& resolved->Ok_0.address().ip.loopback()
            &&& cli.bind matches Some(bind) ==> resolved->Ok_0.address() == bind
            &&& cli.bind is None && env.bind is None && low.bind is None
                ==> resolved->Ok_0.address().port == 8080
        }),
{
}

/// A report tells the bounds as they are, with times in whole milliseconds.
pub proof fn reports_tell_the_bounds(config: RuntimeConfig, report: DoctorReport)
    requires
        call_ensures(RuntimeConfig::doctor_report, (config,), report),
    ensures
        ({
            let values = config.bounds().values();
            &&& report.max_request_bytes == values.request_bytes
            &&& report.queue_capacity == values.queue
            &&& report.max_concurrent_requests == values.concurrent
            &&& report.request_timeout_ms * 1_000_000 <= values.request_ns < (
            report.request_timeout_ms + 1) * 1_000_000
            &&& report.shutdown_timeout_ms * 1_000_000 <= values.shutdown_ns < (
            report.shutdown_timeout_ms + 1) * 1_000_000
            &&& !report.downloads_during_serve
        }),
{
}

}
