//! Names that tie a service to its Docker objects: container and project names,
//! subdomains, registry tags and volume host paths.

use vstd::prelude::*;
use vstd::string::*;

use crate::validation::{has_bad_inner, is_name_inner, reserved_name, service_name_error};
use crate::text::{
    dec_int, push_i64, push_str, replace_char, replace_char_spec, strip_lead_char,
    strip_trail_char, to_owned_str, trim_char, trim_end_char,
};

verus! {

/// Docker network shared by sahai's own containers and the services' containers.
pub const SAHAI_NETWORK: &'static str = "sahai";

pub open spec fn svc_name_spec(id: int) -> Seq<char> {
    "svc-"@ + dec_int(id)
}

/// Docker container name of a `ServiceContainer`: `svc-{container_id}`.
pub fn container_docker_name(container_id: i64) -> (r: String)
    ensures
        r@ == svc_name_spec(container_id as int),
{
    let mut s = to_owned_str("svc-");
    push_i64(&mut s, container_id);
    s
}

/// docker compose project name of a service: `svc-{service_id}`.
pub fn compose_project_name(service_id: i64) -> (r: String)
    ensures
        r@ == svc_name_spec(service_id as int),
{
    let mut s = to_owned_str("svc-");
    push_i64(&mut s, service_id);
    s
}

pub open spec fn subdomain_spec(name: Seq<char>, domain: Seq<char>) -> Seq<char> {
    name + "."@ + domain
}

/// Subdomain of a service: `{name}.{domain}`.
pub fn subdomain_for(name: &str, domain: &str) -> (r: String)
    ensures
        r@ == subdomain_spec(name@, domain@),
{
    let mut s = to_owned_str(name);
    push_str(&mut s, ".");
    push_str(&mut s, domain);
    s
}

/// A service's subdomain is never the admin UI's host `sahai.<domain>` nor the
/// registry's host `registry.sahai.<domain>`: the one name that could give the first is
/// reserved, and a service name cannot hold the dot that the second needs.
pub proof fn lemma_service_subdomain_never_own_host(name: Seq<char>, domain: Seq<char>)
    requires
        service_name_error(name) is None,
    ensures
        subdomain_spec(name, domain) != "sahai."@ + domain,
        subdomain_spec(name, domain) != "registry.sahai."@ + domain,
{
    reveal_strlit("sahai.");
    reveal_strlit("sahai");
    reveal_strlit("registry.sahai.");
    reveal_strlit(".");
    let sub = subdomain_spec(name, domain);
    assert("sahai."@.len() == 6);
    assert("registry.sahai."@.len() == 15);
    assert("."@.len() == 1);
    assert(sub.len() == name.len() + 1 + domain.len());
    if sub == "sahai."@ + domain {
        assert(sub.len() == 6 + domain.len());
        assert(name.len() == 5);
        assert(name =~= sub.take(5));
        assert(sub.take(5) =~= "sahai"@);
        assert(name == reserved_name());
    }
    if sub == "registry.sahai."@ + domain {
        assert(sub.len() == 15 + domain.len());
        assert(name.len() == 14);
        assert(name[8] == sub[8]);
        assert(name[8] == '.');
        assert(!is_name_inner(name[8]));
        assert(has_bad_inner(name));
    }
}

pub open spec fn registry_tag_spec(service_name: Seq<char>, compose_name: Option<Seq<char>>) -> Seq<
    char,
> {
    match compose_name {
        Some(c) => service_name + "-"@ + c,
        None => service_name,
    }
}

pub open spec fn opt_view(o: Option<&str>) -> Option<Seq<char>> {
    match o {
        Some(s) => Some(s@),
        None => None,
    }
}

/// Name part of a registry tag: `<service-name>` for an image service,
/// `<service-name>-<compose service>` for each service of a compose project.
pub fn registry_tag_name(service_name: &str, compose_service_name: Option<&str>) -> (r: String)
    ensures
        r@ == registry_tag_spec(service_name@, opt_view(compose_service_name)),
{
    match compose_service_name {
        Some(compose_name) => {
            let mut s = to_owned_str(service_name);
            push_str(&mut s, "-");
            push_str(&mut s, compose_name);
            s
        },
        None => to_owned_str(service_name),
    }
}

pub open spec fn normalize_path_spec(p: Seq<char>) -> Seq<char> {
    replace_char_spec(strip_trail_char(strip_lead_char(p, '/'), '/'), '/', "-"@)
}

/// `replace_char_spec` leaves no `from` behind when `to` holds none.
pub proof fn lemma_replace_removes(s: Seq<char>, from: char, to: Seq<char>)
    requires
        !to.contains(from),
    ensures
        !replace_char_spec(s, from, to).contains(from),
    decreases s.len(),
{
    if s.len() > 0 {
        lemma_replace_removes(s.drop_last(), from, to);
        let a = replace_char_spec(s.drop_last(), from, to);
        let b = if s.last() == from {
            to
        } else {
            seq![s.last()]
        };
        assert forall|i: int| 0 <= i < (a + b).len() implies (a + b)[i] != from by {
            if i < a.len() {
                assert((a + b)[i] == a[i]);
            } else {
                assert((a + b)[i] == b[i - a.len()]);
            }
        }
    }
}

/// A container path as a host directory name: `/var/lib/mysql` becomes `var-lib-mysql`.
pub fn normalize_container_path(container_path: &str) -> (r: String)
    ensures
        r@ == normalize_path_spec(container_path@),
        !r@.contains('/'),
{
    let t = trim_char(container_path, '/');
    let r = replace_char(t.as_str(), '/', "-");
    proof {
        reveal_strlit("-");
        assert(!"-"@.contains('/')) by {
            assert("-"@.len() == 1);
            assert("-"@[0] == '-');
        }
        lemma_replace_removes(t@, '/', "-"@);
    }
    r
}

pub open spec fn volume_host_path_spec(root: Seq<char>, service_id: int, container_path: Seq<
    char,
>) -> Seq<char> {
    strip_trail_char(root, '/') + "/services/"@ + dec_int(service_id) + "/"@
        + normalize_path_spec(container_path)
}

/// Host side of a service volume: `<host_data_root>/services/<service_id>/<normalized path>`,
/// always with `/` separators. It depends on the service, never on the container.
pub fn volume_host_path(host_data_root: &str, service_id: i64, container_path: &str) -> (r: String)
    ensures
        r@ == volume_host_path_spec(host_data_root@, service_id as int, container_path@),
{
    let mut s = trim_end_char(host_data_root, '/');
    push_str(&mut s, "/services/");
    push_i64(&mut s, service_id);
    push_str(&mut s, "/");
    let n = normalize_container_path(container_path);
    push_str(&mut s, n.as_str());
    s
}

} // verus!
