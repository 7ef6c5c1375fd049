//! Request bodies of the API, as plain values.

use vstd::prelude::*;

verus! {

/// A port in a registration or update request. `host_port` is absent for an HTTP port,
/// which is reached through Traefik and never published on the host.
#[derive(Debug, Clone)]
pub struct PortInput {
    pub container_port: i64,
    pub host_port: Option<i64>,
    pub protocol: String,
    pub is_http: bool,
}

#[derive(Debug, Clone)]
pub struct VolumeInput {
    pub container_path: String,
}

#[derive(Debug, Clone)]
pub struct ContainerInput {
    pub name: String,
    pub ports: Vec<PortInput>,
    pub volumes: Vec<VolumeInput>,
}

/// `POST /api/services`.
#[derive(Debug)]
pub struct CreateServiceRequest {
    pub name: String,
    pub source_type: String,
    pub image: Option<String>,
    pub compose_content: Option<String>,
    pub env_vars: Option<serde_json::Value>,
    pub containers: Vec<ContainerInput>,
}

/// `PUT /api/services/{id_or_name}`: only the fields given change.
#[derive(Debug, Default)]
pub struct UpdateServiceRequest {
    pub name: Option<String>,
    pub image: Option<String>,
    pub compose_content: Option<String>,
    pub env_vars: Option<serde_json::Value>,
    pub containers: Option<Vec<ContainerInput>>,
}

/// Metadata part of `POST /api/services/upload`.
#[derive(Debug, Clone)]
pub struct UploadServiceMetadata {
    pub name: String,
    pub build_args: Vec<BuildArgInput>,
    pub platform: Option<String>,
}

#[derive(Debug, Clone)]
pub struct BuildArgInput {
    pub key: String,
    pub value: String,
}

/// Metadata part of `POST /api/services/{id_or_name}/upload`.
#[derive(Debug, Clone)]
pub struct UpdateUploadMetadata {
    pub build_args: Vec<BuildArgInput>,
    pub platform: Option<String>,
}

/// Query of `DELETE /api/services/{id_or_name}`.
#[derive(Debug, Clone, Default)]
pub struct DeleteQuery {
    pub purge_volumes: bool,
}

/// `PUT /api/settings`: the basic settings, always sent whole.
#[derive(Debug, Clone)]
pub struct UpdateSettingsRequest {
    pub domain: String,
    pub https_redirect: bool,
    pub api_token: String,
}

#[derive(Debug, Clone)]
pub struct DnsCredentialInput {
    pub key: String,
    pub value: String,
}

/// `PUT /api/settings/registry`.
#[derive(Debug, Clone)]
pub struct UpdateRegistryConfigRequest {
    pub registry_url: String,
    pub registry_username: Option<String>,
    pub registry_password: Option<String>,
}

/// `PUT /api/settings/dns-provider`.
#[derive(Debug, Clone)]
pub struct UpdateDnsConfigRequest {
    pub dns_provider: String,
    pub acme_email: String,
    pub credentials: Vec<DnsCredentialInput>,
}

/// Protocol assumed when a port omits it.
pub fn default_protocol() -> (r: String)
    ensures
        r@ == "tcp"@,
{
    crate::text::to_owned_str("tcp")
}

} // verus!
