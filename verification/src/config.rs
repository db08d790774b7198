//! Configuration: what a configuration file may set, the built-in
//! defaults, and the settings that result.

use crate::dtc::Category;
use crate::text::str_eq;
use vstd::prelude::*;

verus! {

pub const DEFAULT_CLIENT_ID: &'static str = "vilogger";

pub const DEFAULT_HOST: &'static str = "127.0.0.1";

pub const DEFAULT_PORT: u16 = 1883;

pub const DEFAULT_USERNAME: &'static str = "vilogger";

pub const DEFAULT_PASSWORD: &'static str = "";

pub const DEFAULT_KEEP_ALIVE_SECS: u64 = 30;

pub const DEFAULT_ERROR_TOPIC: &'static str = "open3e/680_266_ErrorDtcHistory";

pub const DEFAULT_WARNING_TOPIC: &'static str = "open3e/680_264_WarningDtcHistory";

pub const DEFAULT_SERVICE_TOPIC: &'static str = "open3e/680_262_ServiceDtcHistory";

pub const DEFAULT_INFO_TOPIC: &'static str = "open3e/680_260_InfoDtcHistory";

pub const DEFAULT_STATUS_TOPIC: &'static str = "open3e/680_258_StatusDtcHistory";

pub const DEFAULT_COMMAND_TOPIC: &'static str = "open3e/cmnd";

pub const DEFAULT_COMMAND_PAYLOAD: &'static str = "{\"mode\": \"read-json\", \"data\":[258,260,262,264,266]}";

pub const DEFAULT_COMMAND_INTERVAL_SECS: u64 = 60;

pub const DEFAULT_SYSTEM_ID: &'static str = "open3e";

pub const DEFAULT_ECU_ID: &'static str = "680";

pub const DEFAULT_INFLUX_URL: &'static str = "http://127.0.0.1:8086";

pub const DEFAULT_INFLUX_ORG: &'static str = "";

pub const DEFAULT_INFLUX_BUCKET: &'static str = "vilog";

pub const DEFAULT_INFLUX_TOKEN: &'static str = "";

pub const DEFAULT_MEASUREMENT: &'static str = "dtc";

pub const DEFAULT_INFLUX_TIMEOUT_SECS: u64 = 5;

/// What a configuration file may hold.
#[derive(Debug, Clone)]
pub struct AppConfig {
    pub mqtt: Option<MqttConfig>,
    pub topics: Option<TopicsConfig>,
    pub influxdb: Option<InfluxConfig>,
}

/// Connection parameters of the message bus, each optional.
#[derive(Debug, Clone)]
pub struct MqttConfig {
    pub client_id: Option<String>,
    pub host: Option<String>,
    pub port: Option<u16>,
    pub username: Option<String>,
    pub password: Option<String>,
    pub keep_alive_secs: Option<u64>,
}

/// Topic names, the polling command and the identifiers, each optional.
#[derive(Debug, Clone)]
pub struct TopicsConfig {
    pub error: Option<String>,
    pub warning: Option<String>,
    pub service: Option<String>,
    pub info: Option<String>,
    pub status: Option<String>,
    pub command_topic: Option<String>,
    pub command_payload: Option<String>,
    pub command_interval_secs: Option<u64>,
    pub systemid: Option<String>,
    pub ecuid: Option<String>,
}

/// Parameters of the metrics store, each optional.
#[derive(Debug, Clone)]
pub struct InfluxConfig {
    pub enabled: Option<bool>,
    pub url: Option<String>,
    pub org: Option<String>,
    pub bucket: Option<String>,
    pub token: Option<String>,
    pub measurement: Option<String>,
    pub timeout_secs: Option<u64>,
}

/// Connection parameters of the message bus, defaults filled in.
#[derive(Debug, Clone)]
pub struct MqttSettings {
    pub client_id: String,
    pub host: String,
    pub port: u16,
    pub username: String,
    pub password: String,
    pub keep_alive_secs: u64,
}

/// Topic names, the polling command and the identifiers, defaults filled
/// in.
#[derive(Debug, Clone)]
pub struct TopicsResolved {
    pub error: String,
    pub warning: String,
    pub service: String,
    pub info: String,
    pub status: String,
    pub command_topic: String,
    pub command_payload: String,
    pub command_interval_secs: u64,
    pub systemid: String,
    pub ecuid: String,
}

/// Parameters of the metrics store, defaults filled in.
#[derive(Debug, Clone)]
pub struct InfluxResolved {
    pub enabled: bool,
    pub url: String,
    pub org: String,
    pub bucket: String,
    pub token: String,
    pub measurement: String,
    pub timeout_secs: u64,
}

/// What a section sets for one of its fields; nothing where the section
/// is absent.
pub open spec fn setting<C, T>(section: Option<&C>, field: spec_fn(C) -> Option<T>) -> Option<T> {
    match section {
        Some(c) => field(*c),
        None => None,
    }
}

/// The text that is set, or the fallback.
pub open spec fn text_or(value: Option<String>, fallback: Seq<char>) -> Seq<char> {
    match value {
        Some(s) => s@,
        None => fallback,
    }
}

/// The value that is set, or the fallback.
pub open spec fn value_or<T>(value: Option<T>, fallback: T) -> T {
    match value {
        Some(v) => v,
        None => fallback,
    }
}

fn text_setting(value: &Option<String>, fallback: &str) -> (r: String)
    ensures
        r@ == text_or(*value, fallback@),
{
    match value {
        Some(s) => s.clone(),
        None => fallback.to_owned(),
    }
}

fn number_setting(value: &Option<u64>, fallback: u64) -> (r: u64)
    ensures
        r == value_or(*value, fallback),
{
    match value {
        Some(n) => *n,
        None => fallback,
    }
}

/// The connection parameters of the message bus: what the section sets,
/// and the default for everything else.
pub fn create_mqtt_options(cfg: Option<&MqttConfig>) -> (r: MqttSettings)
    ensures
        r.client_id@ == text_or(setting(cfg, |c: MqttConfig| c.client_id), DEFAULT_CLIENT_ID@),
        r.host@ == text_or(setting(cfg, |c: MqttConfig| c.host), DEFAULT_HOST@),
        r.port == value_or(setting(cfg, |c: MqttConfig| c.port), DEFAULT_PORT),
        r.username@ == text_or(setting(cfg, |c: MqttConfig| c.username), DEFAULT_USERNAME@),
        r.password@ == text_or(setting(cfg, |c: MqttConfig| c.password), DEFAULT_PASSWORD@),
        r.keep_alive_secs == value_or(
            setting(cfg, |c: MqttConfig| c.keep_alive_secs),
            DEFAULT_KEEP_ALIVE_SECS,
        ),
{
    match cfg {
        Some(c) => MqttSettings {
            client_id: text_setting(&c.client_id, DEFAULT_CLIENT_ID),
            host: text_setting(&c.host, DEFAULT_HOST),
            port: match c.port {
                Some(p) => p,
                None => DEFAULT_PORT,
            },
            username: text_setting(&c.username, DEFAULT_USERNAME),
            password: text_setting(&c.password, DEFAULT_PASSWORD),
            keep_alive_secs: number_setting(&c.keep_alive_secs, DEFAULT_KEEP_ALIVE_SECS),
        },
        None => MqttSettings {
            client_id: DEFAULT_CLIENT_ID.to_owned(),
            host: DEFAULT_HOST.to_owned(),
            port: DEFAULT_PORT,
            username: DEFAULT_USERNAME.to_owned(),
            password: DEFAULT_PASSWORD.to_owned(),
            keep_alive_secs: DEFAULT_KEEP_ALIVE_SECS,
        },
    }
}

/// The topic names, the polling command and the identifiers: what the
/// section sets, and the default for everything else.
pub fn resolve_topics(cfg: Option<&TopicsConfig>) -> (r: TopicsResolved)
    ensures
        r.error@ == text_or(setting(cfg, |c: TopicsConfig| c.error), DEFAULT_ERROR_TOPIC@),
        r.warning@ == text_or(setting(cfg, |c: TopicsConfig| c.warning), DEFAULT_WARNING_TOPIC@),
        r.service@ == text_or(setting(cfg, |c: TopicsConfig| c.service), DEFAULT_SERVICE_TOPIC@),
        r.info@ == text_or(setting(cfg, |c: TopicsConfig| c.info), DEFAULT_INFO_TOPIC@),
        r.status@ == text_or(setting(cfg, |c: TopicsConfig| c.status), DEFAULT_STATUS_TOPIC@),
        r.command_topic@ == text_or(
            setting(cfg, |c: TopicsConfig| c.command_topic),
            DEFAULT_COMMAND_TOPIC@,
        ),
        r.command_payload@ == text_or(
            setting(cfg, |c: TopicsConfig| c.command_payload),
            DEFAULT_COMMAND_PAYLOAD@,
        ),
        r.command_interval_secs == value_or(
            setting(cfg, |c: TopicsConfig| c.command_interval_secs),
            DEFAULT_COMMAND_INTERVAL_SECS,
        ),
        r.systemid@ == text_or(setting(cfg, |c: TopicsConfig| c.systemid), DEFAULT_SYSTEM_ID@),
        r.ecuid@ == text_or(setting(cfg, |c: TopicsConfig| c.ecuid), DEFAULT_ECU_ID@),
{
    match cfg {
        Some(c) => TopicsResolved {
            error: text_setting(&c.error, DEFAULT_ERROR_TOPIC),
            warning: text_setting(&c.warning, DEFAULT_WARNING_TOPIC),
            service: text_setting(&c.service, DEFAULT_SERVICE_TOPIC),
            info: text_setting(&c.info, DEFAULT_INFO_TOPIC),
            status: text_setting(&c.status, DEFAULT_STATUS_TOPIC),
            command_topic: text_setting(&c.command_topic, DEFAULT_COMMAND_TOPIC),
            command_payload: text_setting(&c.command_payload, DEFAULT_COMMAND_PAYLOAD),
            command_interval_secs: number_setting(
                &c.command_interval_secs,
                DEFAULT_COMMAND_INTERVAL_SECS,
            ),
            systemid: text_setting(&c.systemid, DEFAULT_SYSTEM_ID),
            ecuid: text_setting(&c.ecuid, DEFAULT_ECU_ID),
        },
        None => TopicsResolved {
            error: DEFAULT_ERROR_TOPIC.to_owned(),
            warning: DEFAULT_WARNING_TOPIC.to_owned(),
            service: DEFAULT_SERVICE_TOPIC.to_owned(),
            info: DEFAULT_INFO_TOPIC.to_owned(),
            status: DEFAULT_STATUS_TOPIC.to_owned(),
            command_topic: DEFAULT_COMMAND_TOPIC.to_owned(),
            command_payload: DEFAULT_COMMAND_PAYLOAD.to_owned(),
            command_interval_secs: DEFAULT_COMMAND_INTERVAL_SECS,
            systemid: DEFAULT_SYSTEM_ID.to_owned(),
            ecuid: DEFAULT_ECU_ID.to_owned(),
        },
    }
}

/// The parameters of the metrics store: what the section sets, and the
/// default for everything else. Without a section the store is off.
pub fn resolve_influx(cfg: Option<&InfluxConfig>) -> (r: InfluxResolved)
    ensures
        r.enabled == value_or(setting(cfg, |c: InfluxConfig| c.enabled), cfg is Some),
        r.url@ == text_or(setting(cfg, |c: InfluxConfig| c.url), DEFAULT_INFLUX_URL@),
        r.org@ == text_or(setting(cfg, |c: InfluxConfig| c.org), DEFAULT_INFLUX_ORG@),
        r.bucket@ == text_or(setting(cfg, |c: InfluxConfig| c.bucket), DEFAULT_INFLUX_BUCKET@),
        r.token@ == text_or(setting(cfg, |c: InfluxConfig| c.token), DEFAULT_INFLUX_TOKEN@),
        r.measurement@ == text_or(
            setting(cfg, |c: InfluxConfig| c.measurement),
            DEFAULT_MEASUREMENT@,
        ),
        r.timeout_secs == value_or(
            setting(cfg, |c: InfluxConfig| c.timeout_secs),
            DEFAULT_INFLUX_TIMEOUT_SECS,
        ),
{
    match cfg {
        Some(c) => InfluxResolved {
            enabled: match c.enabled {
                Some(b) => b,
                None => true,
            },
            url: text_setting(&c.url, DEFAULT_INFLUX_URL),
            org: text_setting(&c.org, DEFAULT_INFLUX_ORG),
            bucket: text_setting(&c.bucket, DEFAULT_INFLUX_BUCKET),
            token: text_setting(&c.token, DEFAULT_INFLUX_TOKEN),
            measurement: text_setting(&c.measurement, DEFAULT_MEASUREMENT),
            timeout_secs: number_setting(&c.timeout_secs, DEFAULT_INFLUX_TIMEOUT_SECS),
        },
        None => InfluxResolved {
            enabled: false,
            url: DEFAULT_INFLUX_URL.to_owned(),
            org: DEFAULT_INFLUX_ORG.to_owned(),
            bucket: DEFAULT_INFLUX_BUCKET.to_owned(),
            token: DEFAULT_INFLUX_TOKEN.to_owned(),
            measurement: DEFAULT_MEASUREMENT.to_owned(),
            timeout_secs: DEFAULT_INFLUX_TIMEOUT_SECS,
        },
    }
}

impl TopicsResolved {
    /// The class whose topic is exactly `topic`. Where several classes
    /// share a topic name, the first of error, warning, service, info and
    /// status counts.
    pub open spec fn category_of(&self, topic: Seq<char>) -> Option<Category> {
        if topic == self.error@ {
            Some(Category::Error)
        } else if topic == self.warning@ {
            Some(Category::Warning)
        } else if topic == self.service@ {
            Some(Category::Service)
        } else if topic == self.info@ {
            Some(Category::Info)
        } else if topic == self.status@ {
            Some(Category::State)
        } else {
            None
        }
    }

    /// The class that `topic` carries, or `None` for a topic that is not
    /// tracked.
    pub fn classify(&self, topic: &str) -> (r: Option<Category>)
        ensures
            r == self.category_of(topic@),
    {
        if str_eq(topic, self.error.as_str()) {
            Some(Category::Error)
        } else if str_eq(topic, self.warning.as_str()) {
            Some(Category::Warning)
        } else if str_eq(topic, self.service.as_str()) {
            Some(Category::Service)
        } else if str_eq(topic, self.info.as_str()) {
            Some(Category::Info)
        } else if str_eq(topic, self.status.as_str()) {
            Some(Category::State)
        } else {
            None
        }
    }
}

} // verus!
