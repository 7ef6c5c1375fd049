//! What Docker is asked to run for a service: the container of an image service, the
//! override file of a compose project, and the environment file both read.

use vstd::prelude::*;
use crate::domain::{ContainerWithChildren, ServiceDetail, ServicePort, ServiceVolume, protocol_text};
use crate::keyed::{entries_map, keyed_insert, names_unique};
use crate::naming::{
    SAHAI_NETWORK, container_docker_name, registry_tag_name, registry_tag_spec, svc_name_spec,
    volume_host_path, volume_host_path_spec,
};
use crate::registration::contains_name;
use crate::text::{
    dec_int, join, join_spec, push_i64, push_str, starts_with, to_owned_str, trim, trim_spec, views,
    i64_to_string,
};

verus! {

/// What serde_json's `as_object` and `as_str` give for a value: for an object, each key
/// with its value when that is a JSON string (`None` for another kind of value), in the
/// order the object is walked; `None` for a value that is not an object.
pub uninterp spec fn json_string_entries(value: serde_json::Value) -> Option<Seq<(Seq<char>, Option<Seq<char>>)>>;

pub open spec fn entry_view(e: (String, Option<String>)) -> (Seq<char>, Option<Seq<char>>) {
    (
        e.0@,
        match e.1 {
            Some(v) => Some(v@),
            None => None,
        },
    )
}

pub open spec fn entries_view(o: Option<Vec<(String, Option<String>)>>) -> Option<Seq<(Seq<char>, Option<Seq<char>>)>> {
    match o {
        Some(v) => Some(v@.map_values(|e: (String, Option<String>)| entry_view(e))),
        None => None,
    }
}

/// The string entries of a JSON value, through `serde_json::Value::as_object` and
/// `serde_json::Value::as_str`; the contract names the result `json_string_entries`.
#[verifier::external_body]
fn json_object_entries(value: &serde_json::Value) -> (r: Option<Vec<(String, Option<String>)>>)
    ensures
        entries_view(r) == json_string_entries(*value),
{
    value.as_object().map(
        |map| map.iter().map(|(k, v)| (k.clone(), v.as_str().map(|s| s.to_string()))).collect(),
    )
}

/// The credentials Docker is handed to pull an image from sahai's own registry.
#[derive(Debug, Clone, PartialEq, Eq)]
pub struct PullCredentials {
    pub username: String,
    pub password: String,
    pub server_address: String,
}

/// An image of sahai's own registry: its name starts with the registry (trimmed, not
/// empty) and a slash.
pub open spec fn own_registry_image(image: Seq<char>, registry_url: Seq<char>) -> bool {
    let prefix = trim_spec(registry_url) + "/"@;
    &&& trim_spec(registry_url).len() > 0
    &&& prefix.len() <= image.len()
    &&& image.take(prefix.len() as int) == prefix
}

/// The credentials to pull `image` with: sahai's registry credentials, only for an image
/// of sahai's own registry and only when both a user name and a password are set, so
/// that they are never sent to another registry.
pub fn registry_credentials_for(
    image: &str,
    registry_url: &str,
    username: &Option<String>,
    password: &Option<String>,
) -> (r: Option<PullCredentials>)
    ensures
        r is Some <==> (own_registry_image(image@, registry_url@) && username is Some
            && password is Some),
        r matches Some(c) ==> {
            &&& c.username@ == username->0@
            &&& c.password@ == password->0@
            &&& c.server_address@ == trim_spec(registry_url@)
        },
{
    let url = trim(registry_url);
    if url.unicode_len() == 0 {
        return None;
    }
    let mut prefix = to_owned_str(url.as_str());
    push_str(&mut prefix, "/");
    if !starts_with(image, prefix.as_str()) {
        return None;
    }
    match (username, password) {
        (Some(u), Some(p)) => Some(
            PullCredentials {
                username: to_owned_str(u.as_str()),
                password: to_owned_str(p.as_str()),
                server_address: url,
            },
        ),
        _ => None,
    }
}

pub open spec fn env_entry_line(e: (String, Option<String>)) -> Seq<char> {
    e.0@ + "="@ + match e.1 {
        Some(v) => v@,
        None => Seq::<char>::empty(),
    }
}

/// `KEY=value` for each environment variable; a value that is not a string counts as
/// empty, and a setting that is not an object gives no variables.
pub open spec fn env_lines_spec(entries: Option<Vec<(String, Option<String>)>>) -> Seq<Seq<char>> {
    match entries {
        Some(v) => v@.map_values(|e: (String, Option<String>)| env_entry_line(e)),
        None => seq![],
    }
}

fn env_entry_line_exec(e: &(String, Option<String>)) -> (r: String)
    ensures
        r@ == env_entry_line(*e),
{
    let mut s = to_owned_str(e.0.as_str());
    push_str(&mut s, "=");
    match &e.1 {
        Some(v) => push_str(&mut s, v.as_str()),
        None => {},
    }
    s
}

/// The `KEY=value` lines of a service's environment variables.
pub fn env_lines(entries: &Option<Vec<(String, Option<String>)>>) -> (r: Vec<String>)
    ensures
        views(r@) == env_lines_spec(*entries),
{
    let mut out: Vec<String> = Vec::new();
    match entries {
        Some(v) => {
            let mut k: usize = 0;
            while k < v.len()
                invariant
                    k <= v@.len(),
                    views(out@) == v@.take(k as int).map_values(
                        |e: (String, Option<String>)| env_entry_line(e),
                    ),
                decreases v@.len() - k,
            {
                let line = env_entry_line_exec(&v[k]);
                let ghost before = out@;
                out.push(line);
                assert(views(out@) =~= views(before).push(line@));
                assert(v@.take(k + 1).map_values(|e: (String, Option<String>)| env_entry_line(e))
                    =~= v@.take(k as int).map_values(|e: (String, Option<String>)| env_entry_line(e)).push(
                    env_entry_line(v@[k as int]),
                ));
                k = k + 1;
            }
            assert(v@.take(v@.len() as int) =~= v@);
        },
        None => {},
    }
    out
}

/// The text of a service's `.env` file: its `KEY=value` lines joined by newlines.
pub fn env_file_content(entries: &Option<Vec<(String, Option<String>)>>) -> (r: String)
    ensures
        r@ == join_spec(env_lines_spec(*entries), "\n"@),
{
    let lines = env_lines(entries);
    join(&lines, "\n")
}

/// `KEY=value` of one entry as a JSON object gives it; a value that is not a string
/// counts as empty.
pub open spec fn env_line_of(e: (Seq<char>, Option<Seq<char>>)) -> Seq<char> {
    e.0 + "="@ + match e.1 {
        Some(v) => v,
        None => Seq::<char>::empty(),
    }
}

/// The lines of the stored environment variables; a setting that is not an object
/// gives none.
pub open spec fn env_lines_of(o: Option<Seq<(Seq<char>, Option<Seq<char>>)>>) -> Seq<Seq<char>> {
    match o {
        Some(s) => s.map_values(|e: (Seq<char>, Option<Seq<char>>)| env_line_of(e)),
        None => seq![],
    }
}

proof fn lemma_env_lines_view(e: Option<Vec<(String, Option<String>)>>)
    ensures
        env_lines_spec(e) == env_lines_of(entries_view(e)),
{
    match e {
        Some(v) => {
            assert(v@.map_values(|x: (String, Option<String>)| env_entry_line(x)) =~= v@.map_values(
                |x: (String, Option<String>)| entry_view(x),
            ).map_values(|y: (Seq<char>, Option<Seq<char>>)| env_line_of(y)));
        },
        None => {},
    }
}

/// The text of a service's `.env` file, from its environment variables as stored.
pub fn generate_env_file_content(env_vars: &serde_json::Value) -> (r: String)
    ensures
        r@ == join_spec(env_lines_of(json_string_entries(*env_vars)), "\n"@),
{
    let entries = json_object_entries(env_vars);
    proof {
        lemma_env_lines_view(entries);
    }
    env_file_content(&entries)
}

/// `<container port>/<protocol>`, the key of a port in Docker's configuration.
pub open spec fn port_key_spec(p: ServicePort) -> Seq<char> {
    dec_int(p.container_port as int) + "/"@ + protocol_text(p.protocol)
}

fn port_key(p: &ServicePort) -> (r: String)
    ensures
        r@ == port_key_spec(*p),
{
    let mut s = i64_to_string(p.container_port);
    push_str(&mut s, "/");
    push_str(&mut s, p.protocol.as_str());
    s
}

/// Every port of the container is exposed, once per key.
pub open spec fn exposed_spec(ports: Seq<ServicePort>) -> Map<Seq<char>, ()>
    decreases ports.len(),
{
    if ports.len() == 0 {
        Map::empty()
    } else {
        exposed_spec(ports.drop_last()).insert(port_key_spec(ports.last()), ())
    }
}

/// A port that has a host port to publish on: an HTTP port registered without one,
/// which Traefik reaches over the shared network, carries 0 instead.
pub open spec fn has_host_port(p: ServicePort) -> bool {
    p.host_port != 0
}

/// Every port with a host port is published on it, once per key, the last such port
/// of a key deciding; a port without one is exposed only.
pub open spec fn bindings_spec(ports: Seq<ServicePort>) -> Map<Seq<char>, Seq<char>>
    decreases ports.len(),
{
    if ports.len() == 0 {
        Map::empty()
    } else {
        let p = ports.last();
        if has_host_port(p) {
            bindings_spec(ports.drop_last()).insert(port_key_spec(p), dec_int(p.host_port as int))
        } else {
            bindings_spec(ports.drop_last())
        }
    }
}

/// `<host path>:<container path>` for a volume of service `service_id`.
pub open spec fn bind_spec(root: Seq<char>, service_id: int, v: ServiceVolume) -> Seq<char> {
    volume_host_path_spec(root, service_id, v.container_path@) + ":"@ + v.container_path@
}

fn bind_line(root: &str, service_id: i64, v: &ServiceVolume) -> (r: String)
    ensures
        r@ == bind_spec(root@, service_id as int, *v),
{
    let mut s = volume_host_path(root, service_id, v.container_path.as_str());
    push_str(&mut s, ":");
    push_str(&mut s, v.container_path.as_str());
    s
}

fn bind_lines(root: &str, service_id: i64, vols: &Vec<ServiceVolume>) -> (r: Vec<String>)
    ensures
        r@.len() == vols@.len(),
        forall|i: int| 0 <= i < vols@.len() ==> #[trigger] r@[i]@ == bind_spec(root@, service_id as int, vols@[i]),
{
    let mut out: Vec<String> = Vec::new();
    let mut k: usize = 0;
    while k < vols.len()
        invariant
            k <= vols@.len(),
            out@.len() == k,
            forall|i: int| 0 <= i < k ==> #[trigger] out@[i]@ == bind_spec(root@, service_id as int, vols@[i]),
        decreases vols@.len() - k,
    {
        out.push(bind_line(root, service_id, &vols[k]));
        k = k + 1;
    }
    out
}

/// The container of an image service, as Docker is asked to create it. It restarts
/// unless stopped, and joins the network it shares with Traefik.
#[derive(Debug, Clone)]
pub struct ContainerPlan {
    pub name: String,
    pub image: String,
    pub env: Vec<String>,
    pub exposed_ports: Vec<(String, ())>,
    /// Port key and the host port it is published on.
    pub port_bindings: Vec<(String, String)>,
    pub binds: Vec<String>,
    pub network: String,
    /// Docker's restart policy: `unless-stopped`, so a service comes back after a
    /// crash or a reboot until it is stopped on purpose.
    pub restart_policy: String,
}

pub open spec fn plan_error_spec(service: ServiceDetail) -> Option<Seq<char>> {
    if service.containers@.len() == 0 {
        Some("image型サービスにコンテナが存在しません"@)
    } else if service.service.image is None {
        Some("imageが未設定です"@)
    } else {
        None
    }
}

/// Everything of the plan but the environment, which comes from the stored JSON.
pub open spec fn plan_matches(p: ContainerPlan, service: ServiceDetail, root: Seq<char>) -> bool {
    let c = service.containers@[0];
    &&& p.name@ == svc_name_spec(c.container.id as int)
    &&& service.service.image matches Some(img) && p.image@ == img@
    &&& entries_map(p.exposed_ports@) == exposed_spec(c.ports@)
    &&& entries_map(p.port_bindings@) == bindings_spec(c.ports@)
    &&& names_unique(p.exposed_ports@)
    &&& names_unique(p.port_bindings@)
    &&& p.binds@.len() == c.volumes@.len()
    &&& forall|i: int| 0 <= i < c.volumes@.len() ==> #[trigger] p.binds@[i]@ == bind_spec(
        root,
        service.service.id as int,
        c.volumes@[i],
    )
    &&& p.network@ == SAHAI_NETWORK@
    &&& p.restart_policy@ == "unless-stopped"@
}

/// The container of an image service, with the environment given as the entries of its
/// stored JSON object.
pub fn plan_container_with_env(
    service: &ServiceDetail,
    host_data_root: &str,
    env: &Option<Vec<(String, Option<String>)>>,
) -> (r: Result<ContainerPlan, String>)
    ensures
        match plan_error_spec(*service) {
            Some(m) => r matches Err(e) && e@ == m,
            None => r matches Ok(p) && plan_matches(p, *service, host_data_root@) && views(p.env@)
                == env_lines_spec(*env),
        },
{
    if service.containers.len() == 0 {
        return Err(to_owned_str("image型サービスにコンテナが存在しません"));
    }
    let c = &service.containers[0];
    let image = match &service.service.image {
        Some(img) => img.clone(),
        None => {
            return Err(to_owned_str("imageが未設定です"));
        },
    };
    let mut exposed: Vec<(String, ())> = Vec::new();
    let mut bindings: Vec<(String, String)> = Vec::new();
    let mut k: usize = 0;
    while k < c.ports.len()
        invariant
            *c == service.containers@[0],
            k <= c.ports@.len(),
            entries_map(exposed@) == exposed_spec(c.ports@.take(k as int)),
            entries_map(bindings@) == bindings_spec(c.ports@.take(k as int)),
            names_unique(exposed@),
            names_unique(bindings@),
        decreases c.ports@.len() - k,
    {
        assert(c.ports@.take(k + 1).drop_last() =~= c.ports@.take(k as int));
        let p = &c.ports[k];
        let key = port_key(p);
        keyed_insert(&mut exposed, key.clone(), ());
        if p.host_port != 0 {
            keyed_insert(&mut bindings, key, i64_to_string(p.host_port));
        }
        k = k + 1;
    }
    assert(c.ports@.take(c.ports@.len() as int) =~= c.ports@);
    let binds = bind_lines(host_data_root, service.service.id, &c.volumes);
    let env_lines_v = env_lines(env);
    Ok(
        ContainerPlan {
            name: container_docker_name(c.container.id),
            image,
            env: env_lines_v,
            exposed_ports: exposed,
            port_bindings: bindings,
            binds,
            network: to_owned_str(SAHAI_NETWORK),
            restart_policy: to_owned_str("unless-stopped"),
        },
    )
}

/// The container of an image service: named after its first container, on the service's
/// image, with every port exposed and published, every volume bound
/// under the host data root, and the stored environment variables.
pub fn build_container_config(service: &ServiceDetail, host_data_root: &str) -> (r: Result<
    ContainerPlan,
    String,
>)
    ensures
        match plan_error_spec(*service) {
            Some(m) => r matches Err(e) && e@ == m,
            None => r matches Ok(p) && plan_matches(p, *service, host_data_root@) && views(p.env@)
                == env_lines_of(json_string_entries(service.service.env_vars)),
        },
{
    let env = json_object_entries(&service.service.env_vars);
    proof {
        lemma_env_lines_view(env);
    }
    plan_container_with_env(service, host_data_root, &env)
}

/// One compose service's entry in the override file.
#[derive(Debug, Clone)]
pub struct OverrideService {
    pub container_name: String,
    pub image: Option<String>,
    pub ports: Vec<String>,
    pub volumes: Vec<String>,
    pub env_file: Vec<String>,
}

/// `<host port>:<container port>/<protocol>`.
pub open spec fn port_mapping_spec(p: ServicePort) -> Seq<char> {
    dec_int(p.host_port as int) + ":"@ + dec_int(p.container_port as int) + "/"@ + protocol_text(p.protocol)
}

/// The port mappings of the ports that have a host port, in port order.
pub open spec fn published_mappings(ports: Seq<ServicePort>) -> Seq<Seq<char>>
    decreases ports.len(),
{
    if ports.len() == 0 {
        seq![]
    } else {
        let rest = published_mappings(ports.drop_last());
        if has_host_port(ports.last()) {
            rest.push(port_mapping_spec(ports.last()))
        } else {
            rest
        }
    }
}

/// `<registry>/<service>-<compose service>:latest`, the image a built compose service runs.
pub open spec fn built_image_spec(registry_url: Seq<char>, service: Seq<char>, compose: Seq<char>) -> Seq<char> {
    registry_url + "/"@ + registry_tag_spec(service, Some(compose)) + ":latest"@
}

pub open spec fn override_matches(
    o: OverrideService,
    c: ContainerWithChildren,
    service: ServiceDetail,
    registry_url: Seq<char>,
    build_names: Seq<Seq<char>>,
    root: Seq<char>,
    env_file_path: Seq<char>,
) -> bool {
    &&& o.container_name@ == svc_name_spec(c.container.id as int)
    &&& if build_names.contains(c.container.name@) {
        o.image matches Some(img) && img@ == built_image_spec(registry_url, service.service.name@, c.container.name@)
    } else {
        o.image is None
    }
    &&& views(o.ports@) == published_mappings(c.ports@)
    &&& o.volumes@.len() == c.volumes@.len()
    &&& forall|j: int| 0 <= j < c.volumes@.len() ==> #[trigger] o.volumes@[j]@ == bind_spec(
        root,
        service.service.id as int,
        c.volumes@[j],
    )
    &&& o.env_file@.len() == 1
    &&& o.env_file@[0]@ == env_file_path
}

fn port_mapping(p: &ServicePort) -> (r: String)
    ensures
        r@ == port_mapping_spec(*p),
{
    let mut s = i64_to_string(p.host_port);
    push_str(&mut s, ":");
    push_i64(&mut s, p.container_port);
    push_str(&mut s, "/");
    push_str(&mut s, p.protocol.as_str());
    s
}

fn override_for(
    c: &ContainerWithChildren,
    service: &ServiceDetail,
    registry_url: &str,
    build_service_names: &Vec<String>,
    data_root: &str,
    env_file_path: &str,
) -> (r: OverrideService)
    ensures
        override_matches(
            r,
            *c,
            *service,
            registry_url@,
            views(build_service_names@),
            data_root@,
            env_file_path@,
        ),
{
    let image = if contains_name(build_service_names, c.container.name.as_str()) {
        let tag = registry_tag_name(service.service.name.as_str(), Some(c.container.name.as_str()));
        let mut s = to_owned_str(registry_url);
        push_str(&mut s, "/");
        push_str(&mut s, tag.as_str());
        push_str(&mut s, ":latest");
        Some(s)
    } else {
        None
    };
    let mut ports: Vec<String> = Vec::new();
    let mut k: usize = 0;
    while k < c.ports.len()
        invariant
            k <= c.ports@.len(),
            views(ports@) == published_mappings(c.ports@.take(k as int)),
        decreases c.ports@.len() - k,
    {
        assert(c.ports@.take(k + 1).drop_last() =~= c.ports@.take(k as int));
        let ghost before = ports@;
        if c.ports[k].host_port != 0 {
            ports.push(port_mapping(&c.ports[k]));
            assert(views(ports@) =~= views(before).push(port_mapping_spec(c.ports@[k as int])));
        }
        k = k + 1;
    }
    assert(c.ports@.take(c.ports@.len() as int) =~= c.ports@);
    let volumes = bind_lines(data_root, service.service.id, &c.volumes);
    let mut env_file: Vec<String> = Vec::new();
    env_file.push(to_owned_str(env_file_path));
    OverrideService {
        container_name: container_docker_name(c.container.id),
        image,
        ports,
        volumes,
        env_file,
    }
}

/// The override file of a compose project, one entry per container keyed by its
/// compose service name: its Docker name, ports, volumes and environment file for
/// every container, and the registry image for the services that are built.
pub fn plan_override(
    service: &ServiceDetail,
    registry_url: &str,
    build_service_names: &Vec<String>,
    data_root: &str,
    env_file_path: &str,
) -> (r: Vec<(String, OverrideService)>)
    ensures
        r@.len() == service.containers@.len(),
        forall|i: int|
            0 <= i < r@.len() ==> (#[trigger] r@[i]).0@ == service.containers@[i].container.name@
                && override_matches(
                r@[i].1,
                service.containers@[i],
                *service,
                registry_url@,
                views(build_service_names@),
                data_root@,
                env_file_path@,
            ),
{
    let mut out: Vec<(String, OverrideService)> = Vec::new();
    let mut k: usize = 0;
    while k < service.containers.len()
        invariant
            k <= service.containers@.len(),
            out@.len() == k,
            forall|i: int|
                0 <= i < k ==> (#[trigger] out@[i]).0@ == service.containers@[i].container.name@
                    && override_matches(
                    out@[i].1,
                    service.containers@[i],
                    *service,
                    registry_url@,
                    views(build_service_names@),
                    data_root@,
                    env_file_path@,
                ),
        decreases service.containers@.len() - k,
    {
        let c = &service.containers[k];
        let o = override_for(c, service, registry_url, build_service_names, data_root, env_file_path);
        out.push((c.container.name.clone(), o));
        k = k + 1;
    }
    out
}

} // verus!
