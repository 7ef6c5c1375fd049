//! Database rows of services, containers, ports and volumes, and how they become the
//! domain model.

use vstd::prelude::*;
use crate::domain::{
    HealthStatus, Protocol, Service, ServiceContainer, ServicePort, ServiceStatus, ServiceVolume,
    SourceType, health_status_parse, protocol_parse, service_status_parse, source_type_parse,
};
use crate::text::{push_str, to_owned_str};

verus! {

#[derive(Debug, Clone)]
pub struct ServiceRow {
    pub id: i64,
    pub name: String,
    pub subdomain: String,
    pub source_type: String,
    pub image: Option<String>,
    pub compose_content: Option<String>,
    /// The environment variables as JSON text.
    pub env_vars: String,
    pub status: String,
    pub health_status: String,
    pub last_health_check_at: Option<String>,
    pub created_at: String,
    pub updated_at: String,
}

#[derive(Debug, Clone)]
pub struct ServiceContainerRow {
    pub id: i64,
    pub service_id: i64,
    pub name: String,
    pub health_status: String,
    pub last_health_check_at: Option<String>,
}

#[derive(Debug, Clone)]
pub struct ServicePortRow {
    pub id: i64,
    pub container_id: i64,
    pub container_port: i64,
    pub host_port: i64,
    pub protocol: String,
    /// 0 or 1, as SQLite stores a boolean.
    pub is_http: i64,
}

#[derive(Debug, Clone)]
pub struct ServiceVolumeRow {
    pub id: i64,
    pub container_id: i64,
    pub container_path: String,
}

/// What `serde_json::from_str::<serde_json::Value>` gives for a text: the value it
/// reads, or the parser's message for text that is not JSON.
pub uninterp spec fn json_parse(s: Seq<char>) -> Result<serde_json::Value, Seq<char>>;

/// `serde_json::from_str::<serde_json::Value>`: the value of JSON text, or the parser's
/// message (`Display` of its error). Both depend on the text only; the contract names
/// them `json_parse`.
#[verifier::external_body]
fn parse_json(s: &str) -> (r: Result<serde_json::Value, String>)
    ensures
        match r {
            Ok(v) => json_parse(s@) == Ok::<serde_json::Value, Seq<char>>(v),
            Err(m) => json_parse(s@) == Err::<serde_json::Value, Seq<char>>(m@),
        },
{
    serde_json::from_str::<serde_json::Value>(s).map_err(|e| e.to_string())
}

impl ServiceContainer {
    /// A container from its row; an unknown health text is an error naming it.
    pub fn try_from(row: ServiceContainerRow) -> (r: Result<ServiceContainer, String>)
        ensures
            match health_status_parse(row.health_status@) {
                Some(h) => r matches Ok(c) && c.id == row.id && c.service_id == row.service_id
                    && c.name == row.name && c.health_status == h && c.last_health_check_at
                    == row.last_health_check_at,
                None => r matches Err(m) && m@ == "不明なhealth_status: "@ + row.health_status@,
            },
    {
        let health_status = match HealthStatus::try_from(row.health_status.as_str()) {
            Ok(h) => h,
            Err(e) => {
                return Err(e);
            },
        };
        Ok(
            ServiceContainer {
                id: row.id,
                service_id: row.service_id,
                name: row.name,
                health_status,
                last_health_check_at: row.last_health_check_at,
            },
        )
    }
}

impl ServicePort {
    /// A port from its row; a stored boolean is true when it is not 0.
    pub fn try_from(row: ServicePortRow) -> (r: Result<ServicePort, String>)
        ensures
            match protocol_parse(row.protocol@) {
                Some(p) => r matches Ok(v) && v.id == row.id && v.container_id == row.container_id
                    && v.container_port == row.container_port && v.host_port == row.host_port
                    && v.protocol == p && v.is_http == (row.is_http != 0),
                None => r matches Err(m) && m@ == "不明なprotocol: "@ + row.protocol@,
            },
    {
        let protocol = match Protocol::try_from(row.protocol.as_str()) {
            Ok(p) => p,
            Err(e) => {
                return Err(e);
            },
        };
        Ok(
            ServicePort {
                id: row.id,
                container_id: row.container_id,
                container_port: row.container_port,
                host_port: row.host_port,
                protocol,
                is_http: row.is_http != 0,
            },
        )
    }
}

impl ServiceVolume {
    pub fn from_row(row: ServiceVolumeRow) -> (r: ServiceVolume)
        ensures
            r.id == row.id,
            r.container_id == row.container_id,
            r.container_path == row.container_path,
    {
        ServiceVolume { id: row.id, container_id: row.container_id, container_path: row.container_path }
    }
}

/// The first problem of a service row, in the order the fields are read: the source
/// type, the JSON of the environment variables, the status, the health.
pub open spec fn service_row_error(row: ServiceRow) -> Option<Seq<char>> {
    if source_type_parse(row.source_type@) is None {
        Some("不明なsource_type: "@ + row.source_type@)
    } else if json_parse(row.env_vars@) is Err {
        Some("env_varsのJSON解析に失敗: "@ + json_parse(row.env_vars@)->Err_0)
    } else if service_status_parse(row.status@) is None {
        Some("不明なstatus: "@ + row.status@)
    } else if health_status_parse(row.health_status@) is None {
        Some("不明なhealth_status: "@ + row.health_status@)
    } else {
        None
    }
}

impl Service {
    /// A service from its row. The environment variables are parsed from JSON; the other
    /// fields are copied or read back from their stored text.
    pub fn try_from(row: ServiceRow) -> (r: Result<Service, String>)
        ensures
            match service_row_error(row) {
                Some(m) => r matches Err(e) && e@ == m,
                None => r matches Ok(s) && s.id == row.id && s.name == row.name && s.subdomain
                    == row.subdomain && Some(s.source_type) == source_type_parse(row.source_type@)
                    && s.image == row.image && s.compose_content == row.compose_content
                    && json_parse(row.env_vars@) == Ok::<serde_json::Value, Seq<char>>(s.env_vars) && Some(
                    s.status,
                ) == service_status_parse(row.status@) && Some(s.health_status)
                    == health_status_parse(row.health_status@) && s.last_health_check_at
                    == row.last_health_check_at && s.created_at == row.created_at && s.updated_at
                    == row.updated_at,
            },
    {
        let source_type = match SourceType::try_from(row.source_type.as_str()) {
            Ok(v) => v,
            Err(e) => {
                return Err(e);
            },
        };
        let env_vars = match parse_json(row.env_vars.as_str()) {
            Ok(v) => v,
            Err(e) => {
                let mut m = to_owned_str("env_varsのJSON解析に失敗: ");
                push_str(&mut m, e.as_str());
                return Err(m);
            },
        };
        let status = match ServiceStatus::try_from(row.status.as_str()) {
            Ok(v) => v,
            Err(e) => {
                return Err(e);
            },
        };
        let health_status = match HealthStatus::try_from(row.health_status.as_str()) {
            Ok(v) => v,
            Err(e) => {
                return Err(e);
            },
        };
        Ok(
            Service {
                id: row.id,
                name: row.name,
                subdomain: row.subdomain,
                source_type,
                image: row.image,
                compose_content: row.compose_content,
                env_vars,
                status,
                health_status,
                last_health_check_at: row.last_health_check_at,
                created_at: row.created_at,
                updated_at: row.updated_at,
            },
        )
    }
}

} // verus!
