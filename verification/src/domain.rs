//! The application's model of a service: its source type, status, health,
//! containers, ports and volumes.

use vstd::prelude::*;
use vstd::string::*;

use crate::text::{str_eq, to_owned_str, push_str};

verus! {

/// `serde_json::Value`, carried through unchanged (the service's environment variables).
#[verifier::external_type_specification]
#[verifier::external_body]
pub struct ExJsonValue(serde_json::Value);

/// How a service is built: a single image, or a docker compose project.
#[derive(Debug, Clone, Copy, PartialEq, Eq, Structural)]
pub enum SourceType {
    Image,
    Compose,
}

/// Lifecycle status of a service.
#[derive(Debug, Clone, Copy, PartialEq, Eq, Structural)]
pub enum ServiceStatus {
    Stopped,
    Running,
    Error,
}

/// Health of a container or of a whole service.
#[derive(Debug, Clone, Copy, PartialEq, Eq, Structural)]
pub enum HealthStatus {
    Unknown,
    Healthy,
    Unhealthy,
}

/// Transport protocol of a published port.
#[derive(Debug, Clone, Copy, PartialEq, Eq, Structural)]
pub enum Protocol {
    Tcp,
    Udp,
}

pub open spec fn source_type_text(v: SourceType) -> Seq<char> {
    match v {
        SourceType::Image => "image"@,
        SourceType::Compose => "compose"@,
    }
}

pub open spec fn service_status_text(v: ServiceStatus) -> Seq<char> {
    match v {
        ServiceStatus::Stopped => "stopped"@,
        ServiceStatus::Running => "running"@,
        ServiceStatus::Error => "error"@,
    }
}

pub open spec fn health_status_text(v: HealthStatus) -> Seq<char> {
    match v {
        HealthStatus::Unknown => "unknown"@,
        HealthStatus::Healthy => "healthy"@,
        HealthStatus::Unhealthy => "unhealthy"@,
    }
}

pub open spec fn protocol_text(v: Protocol) -> Seq<char> {
    match v {
        Protocol::Tcp => "tcp"@,
        Protocol::Udp => "udp"@,
    }
}

/// The parse of a text into a value: `Some` of the one value whose text it is.
pub open spec fn source_type_parse(s: Seq<char>) -> Option<SourceType> {
    if s == "image"@ {
        Some(SourceType::Image)
    } else if s == "compose"@ {
        Some(SourceType::Compose)
    } else {
        None
    }
}

pub open spec fn service_status_parse(s: Seq<char>) -> Option<ServiceStatus> {
    if s == "stopped"@ {
        Some(ServiceStatus::Stopped)
    } else if s == "running"@ {
        Some(ServiceStatus::Running)
    } else if s == "error"@ {
        Some(ServiceStatus::Error)
    } else {
        None
    }
}

pub open spec fn health_status_parse(s: Seq<char>) -> Option<HealthStatus> {
    if s == "unknown"@ {
        Some(HealthStatus::Unknown)
    } else if s == "healthy"@ {
        Some(HealthStatus::Healthy)
    } else if s == "unhealthy"@ {
        Some(HealthStatus::Unhealthy)
    } else {
        None
    }
}

pub open spec fn protocol_parse(s: Seq<char>) -> Option<Protocol> {
    if s == "tcp"@ {
        Some(Protocol::Tcp)
    } else if s == "udp"@ {
        Some(Protocol::Udp)
    } else {
        None
    }
}

/// The result of a parse: `Ok` of the parsed value, or `Err` of `prefix` followed by the input.
pub open spec fn parse_result<T>(r: Result<T, String>, p: Option<T>, prefix: Seq<char>, input: Seq<
    char,
>) -> bool {
    match p {
        Some(v) => r == Ok::<T, String>(v),
        None => r matches Err(m) && m@ == prefix + input,
    }
}

fn unknown_value<T>(prefix: &str, value: &str) -> (r: Result<T, String>)
    ensures
        r matches Err(m) && m@ == prefix@ + value@,
{
    let mut m = to_owned_str(prefix);
    push_str(&mut m, value);
    Err(m)
}

impl SourceType {
    /// The value as stored in the database and shown in JSON.
    pub fn as_str(&self) -> (r: &'static str)
        ensures
            r@ == source_type_text(*self),
    {
        match self {
            SourceType::Image => "image",
            SourceType::Compose => "compose",
        }
    }

    /// Parses the stored text back; any other text is an error naming it.
    pub fn try_from(value: &str) -> (r: Result<SourceType, String>)
        ensures
            parse_result(r, source_type_parse(value@), "不明なsource_type: "@, value@),
    {
        if str_eq(value, "image") {
            Ok(SourceType::Image)
        } else if str_eq(value, "compose") {
            Ok(SourceType::Compose)
        } else {
            unknown_value("不明なsource_type: ", value)
        }
    }
}

impl ServiceStatus {
    pub fn as_str(&self) -> (r: &'static str)
        ensures
            r@ == service_status_text(*self),
    {
        match self {
            ServiceStatus::Stopped => "stopped",
            ServiceStatus::Running => "running",
            ServiceStatus::Error => "error",
        }
    }

    pub fn try_from(value: &str) -> (r: Result<ServiceStatus, String>)
        ensures
            parse_result(r, service_status_parse(value@), "不明なstatus: "@, value@),
    {
        if str_eq(value, "stopped") {
            Ok(ServiceStatus::Stopped)
        } else if str_eq(value, "running") {
            Ok(ServiceStatus::Running)
        } else if str_eq(value, "error") {
            Ok(ServiceStatus::Error)
        } else {
            unknown_value("不明なstatus: ", value)
        }
    }
}

impl HealthStatus {
    pub fn as_str(&self) -> (r: &'static str)
        ensures
            r@ == health_status_text(*self),
    {
        match self {
            HealthStatus::Unknown => "unknown",
            HealthStatus::Healthy => "healthy",
            HealthStatus::Unhealthy => "unhealthy",
        }
    }

    pub fn try_from(value: &str) -> (r: Result<HealthStatus, String>)
        ensures
            parse_result(r, health_status_parse(value@), "不明なhealth_status: "@, value@),
    {
        if str_eq(value, "unknown") {
            Ok(HealthStatus::Unknown)
        } else if str_eq(value, "healthy") {
            Ok(HealthStatus::Healthy)
        } else if str_eq(value, "unhealthy") {
            Ok(HealthStatus::Unhealthy)
        } else {
            unknown_value("不明なhealth_status: ", value)
        }
    }
}

impl Protocol {
    pub fn as_str(&self) -> (r: &'static str)
        ensures
            r@ == protocol_text(*self),
    {
        match self {
            Protocol::Tcp => "tcp",
            Protocol::Udp => "udp",
        }
    }

    pub fn try_from(value: &str) -> (r: Result<Protocol, String>)
        ensures
            parse_result(r, protocol_parse(value@), "不明なprotocol: "@, value@),
    {
        if str_eq(value, "tcp") {
            Ok(Protocol::Tcp)
        } else if str_eq(value, "udp") {
            Ok(Protocol::Udp)
        } else {
            unknown_value("不明なprotocol: ", value)
        }
    }
}

/// Reading back what `as_str` wrote gives the value again, for every enum of the model.
pub proof fn lemma_text_round_trips(s: SourceType, t: ServiceStatus, h: HealthStatus, p: Protocol)
    ensures
        source_type_parse(source_type_text(s)) == Some(s),
        service_status_parse(service_status_text(t)) == Some(t),
        health_status_parse(health_status_text(h)) == Some(h),
        protocol_parse(protocol_text(p)) == Some(p),
{
    reveal_strlit("image");
    reveal_strlit("compose");
    reveal_strlit("stopped");
    reveal_strlit("running");
    reveal_strlit("error");
    reveal_strlit("unknown");
    reveal_strlit("healthy");
    reveal_strlit("unhealthy");
    reveal_strlit("tcp");
    reveal_strlit("udp");
    assert("image"@ != "compose"@) by { assert("image"@[0] != "compose"@[0]); }
    assert("stopped"@ != "running"@) by { assert("stopped"@[0] != "running"@[0]); }
    assert("stopped"@ != "error"@) by { assert("stopped"@[0] != "error"@[0]); }
    assert("running"@ != "error"@) by { assert("running"@[0] != "error"@[0]); }
    assert("unknown"@ != "healthy"@) by { assert("unknown"@[0] != "healthy"@[0]); }
    assert("unknown"@ != "unhealthy"@) by { assert("unknown"@.len() != "unhealthy"@.len()); }
    assert("healthy"@ != "unhealthy"@) by { assert("healthy"@.len() != "unhealthy"@.len()); }
    assert("tcp"@ != "udp"@) by { assert("tcp"@[0] != "udp"@[0]); }
}

/// A container of a service. Its Docker name is `svc-{id}`.
#[derive(Debug, Clone)]
pub struct ServiceContainer {
    pub id: i64,
    pub service_id: i64,
    pub name: String,
    pub health_status: HealthStatus,
    pub last_health_check_at: Option<String>,
}

/// A port of a container; an `is_http` port is what Traefik routes the subdomain to.
#[derive(Debug, Clone)]
pub struct ServicePort {
    pub id: i64,
    pub container_id: i64,
    pub container_port: i64,
    /// The port published on the host; 0 when the port has none, as an HTTP port
    /// that Traefik reaches over the shared network may be registered without one.
    pub host_port: i64,
    pub protocol: Protocol,
    pub is_http: bool,
}

/// A persisted directory of a container.
#[derive(Debug, Clone)]
pub struct ServiceVolume {
    pub id: i64,
    pub container_id: i64,
    pub container_path: String,
}

/// A container together with its ports and volumes.
#[derive(Debug, Clone)]
pub struct ContainerWithChildren {
    pub container: ServiceContainer,
    pub ports: Vec<ServicePort>,
    pub volumes: Vec<ServiceVolume>,
}

/// A registered service.
#[derive(Debug)]
pub struct Service {
    pub id: i64,
    pub name: String,
    pub subdomain: String,
    pub source_type: SourceType,
    pub image: Option<String>,
    pub compose_content: Option<String>,
    pub env_vars: serde_json::Value,
    pub status: ServiceStatus,
    pub health_status: HealthStatus,
    pub last_health_check_at: Option<String>,
    pub created_at: String,
    pub updated_at: String,
}

/// A service with all its containers, as the API returns it.
#[derive(Debug)]
pub struct ServiceDetail {
    pub service: Service,
    pub containers: Vec<ContainerWithChildren>,
    /// Set only for the reply to an operation whose route write failed; never stored.
    pub route_warning: Option<String>,
}

} // verus!
