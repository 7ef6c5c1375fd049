//! The public answer of the "Not Service" page: whether a subdomain belongs to a
//! registered service, and which host ports it publishes.

use vstd::prelude::*;
use crate::domain::{ServicePort, protocol_text};
use crate::text::to_owned_str;

verus! {

/// A published port as the page shows it.
#[derive(Debug, Clone, PartialEq)]
pub struct NotServicePortDto {
    pub host_port: i64,
    pub container_port: i64,
    pub protocol: String,
}

/// The page's answer; `name` and `ports` are present exactly when a service was found.
#[derive(Debug, PartialEq)]
pub struct NotServiceInfoDto {
    pub found: bool,
    pub name: Option<String>,
    pub ports: Option<Vec<NotServicePortDto>>,
}

/// The answer for a subdomain that no service has.
pub fn not_found_response() -> (r: NotServiceInfoDto)
    ensures
        !r.found,
        r.name is None,
        r.ports is None,
{
    NotServiceInfoDto { found: false, name: None, ports: None }
}

pub open spec fn port_dto_matches(d: NotServicePortDto, p: ServicePort) -> bool {
    &&& d.host_port == p.host_port
    &&& d.container_port == p.container_port
    &&& d.protocol@ == protocol_text(p.protocol)
}

/// The answer for a service: its name and every port, in order (an empty list when it
/// has none).
pub fn found_response(name: &str, ports: &[ServicePort]) -> (r: NotServiceInfoDto)
    ensures
        r.found,
        r.name matches Some(n) && n@ == name@,
        r.ports matches Some(v) && v@.len() == ports@.len() && forall|i: int|
            0 <= i < ports@.len() ==> port_dto_matches(#[trigger] v@[i], ports@[i]),
{
    let mut out: Vec<NotServicePortDto> = Vec::new();
    let mut k: usize = 0;
    while k < ports.len()
        invariant
            k <= ports@.len(),
            out@.len() == k,
            forall|i: int| 0 <= i < k ==> port_dto_matches(#[trigger] out@[i], ports@[i]),
        decreases ports@.len() - k,
    {
        let p = &ports[k];
        out.push(
            NotServicePortDto {
                host_port: p.host_port,
                container_port: p.container_port,
                protocol: to_owned_str(p.protocol.as_str()),
            },
        );
        k = k + 1;
    }
    NotServiceInfoDto { found: true, name: Some(to_owned_str(name)), ports: Some(out) }
}

} // verus!
