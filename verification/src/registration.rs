//! Checks on a registration request before anything is written.

use vstd::prelude::*;
use crate::domain::{SourceType, source_type_parse};
use crate::dto::{ContainerInput, CreateServiceRequest, PortInput};
use crate::error::{
    AppError, CoreError, FieldError, append_errors, core_error_text, field_errors_view, push_error,
    validation_outcome, outcome_of,
};
use crate::naming::{registry_tag_name, registry_tag_spec};
use crate::port_check::{collect_request_errors, request_port_errors};
use crate::text::{dec_nat, push_str, push_u64, str_eq, to_owned_str, views};
use crate::validation::{
    compose_service_name_error, registry_tag_length_error, service_name_error,
    validate_compose_service_name, validate_registry_tag_length, validate_service_name,
};

verus! {

/// No error, or the one error `(field, message)`.
pub open spec fn opt_error(field: Seq<char>, e: Option<Seq<char>>) -> Seq<(Seq<char>, Seq<char>)> {
    match e {
        Some(m) => seq![(field, m)],
        None => seq![],
    }
}

pub open spec fn compose_field(name: Seq<char>) -> Seq<char> {
    "compose_content["@ + name + "]"@
}

/// Errors about the compose services themselves: a bad service name, and a registry
/// tag `<service>-<compose service>` that would be too long.
pub open spec fn compose_name_errors(service: Seq<char>, names: Seq<Seq<char>>) -> Seq<
    (Seq<char>, Seq<char>),
>
    decreases names.len(),
{
    if names.len() == 0 {
        seq![]
    } else {
        let n = names.last();
        compose_name_errors(service, names.drop_last()) + opt_error(
            compose_field(n),
            compose_service_name_error(n),
        ) + opt_error(
            compose_field(n),
            registry_tag_length_error(registry_tag_spec(service, Some(n))),
        )
    }
}

pub open spec fn unknown_container_message(name: Seq<char>) -> Seq<char> {
    "'"@ + name + "' はcompose_contentに存在しないサービス名です"@
}

/// One error for each listed container that the compose content does not define.
pub open spec fn unknown_container_errors(cs: Seq<ContainerInput>, names: Seq<Seq<char>>) -> Seq<
    (Seq<char>, Seq<char>),
>
    decreases cs.len(),
{
    if cs.len() == 0 {
        seq![]
    } else {
        let c = cs.last();
        unknown_container_errors(cs.drop_last(), names) + if names.contains(c.name@) {
            Seq::<(Seq<char>, Seq<char>)>::empty()
        } else {
            seq![
                (
                    "containers["@ + dec_nat((cs.len() - 1) as nat) + "].name"@,
                    unknown_container_message(c.name@),
                ),
            ]
        }
    }
}

/// The error for request container `k` named `name`, which the compose content does
/// not define.
pub open spec fn unknown_container_error(k: int, name: Seq<char>) -> (Seq<char>, Seq<char>) {
    ("containers["@ + dec_nat(k as nat) + "].name"@, "'"@ + name + "' はcompose_contentに存在しないサービス名です"@)
}

proof fn lemma_unknown_message_names(a: Seq<char>, b: Seq<char>, k1: int, k2: int)
    requires
        unknown_container_error(k1, a).1 == unknown_container_error(k2, b).1,
    ensures
        a == b,
{
    reveal_strlit("'");
    let q = "'"@;
    let sfx = "' はcompose_contentに存在しないサービス名です"@;
    let ma = unknown_container_error(k1, a).1;
    let mb = unknown_container_error(k2, b).1;
    assert(ma == q + a + sfx);
    assert(mb == q + b + sfx);
    assert(ma.len() == 1 + a.len() + sfx.len());
    assert(mb.len() == 1 + b.len() + sfx.len());
    assert forall|i: int| 0 <= i < a.len() implies a[i] == b[i] by {
        assert(ma[i + 1] == a[i]);
        assert(mb[i + 1] == b[i]);
    }
    assert(a =~= b);
}

/// A compose registration lists only services of its compose content: container `k`
/// is reported exactly when its name is none of the compose service names, wherever
/// in that list a match would stand, and every such report is about one of them.
pub proof fn lemma_unknown_containers_are_those_not_in_compose(cs: Seq<ContainerInput>, names: Seq<Seq<char>>)
    ensures
        forall|k: int|
            0 <= k < cs.len() ==> (unknown_container_errors(cs, names).contains(
                #[trigger] unknown_container_error(k, cs[k].name@),
            ) <==> !names.contains(cs[k].name@)),
        forall|e: (Seq<char>, Seq<char>)|
            #[trigger] unknown_container_errors(cs, names).contains(e) ==> exists|k: int|
                0 <= k < cs.len() && !names.contains(cs[k].name@) && e == unknown_container_error(k, cs[k].name@),
    decreases cs.len(),
{
    if cs.len() > 0 {
        let front = cs.drop_last();
        lemma_unknown_containers_are_those_not_in_compose(front, names);
        let ef = unknown_container_errors(front, names);
        let all = unknown_container_errors(cs, names);
        let last = cs.len() - 1;
        let tail = if names.contains(cs.last().name@) {
            Seq::<(Seq<char>, Seq<char>)>::empty()
        } else {
            seq![unknown_container_error(last, cs.last().name@)]
        };
        assert(all == ef + tail);
        assert forall|e: (Seq<char>, Seq<char>)| #[trigger] all.contains(e) implies exists|k: int|
            0 <= k < cs.len() && !names.contains(cs[k].name@) && e == unknown_container_error(k, cs[k].name@) by {
            let n = choose|n: int| 0 <= n < all.len() && all[n] == e;
            if n < ef.len() {
                assert(ef.contains(e));
                let k = choose|k: int|
                    0 <= k < front.len() && !names.contains(front[k].name@) && e == unknown_container_error(
                        k,
                        front[k].name@,
                    );
                assert(front[k] == cs[k]);
            } else {
                assert(cs[last] == cs.last());
            }
        }
        assert forall|k: int| 0 <= k < cs.len() implies (all.contains(
            #[trigger] unknown_container_error(k, cs[k].name@),
        ) <==> !names.contains(cs[k].name@)) by {
            let e = unknown_container_error(k, cs[k].name@);
            if all.contains(e) {
                let j = choose|j: int|
                    0 <= j < cs.len() && !names.contains(cs[j].name@) && e == unknown_container_error(
                        j,
                        cs[j].name@,
                    );
                lemma_unknown_message_names(cs[k].name@, cs[j].name@, k, j);
            }
            if !names.contains(cs[k].name@) {
                if k < last {
                    assert(front[k] == cs[k]);
                    assert(ef.contains(e));
                    let n = choose|n: int| 0 <= n < ef.len() && ef[n] == e;
                    assert(all[n] == e);
                } else {
                    assert(cs[k] == cs.last());
                    assert(all[all.len() - 1] == e);
                }
            }
        }
    }
}

pub open spec fn http_ports_in(ps: Seq<PortInput>) -> int
    decreases ps.len(),
{
    if ps.len() == 0 {
        0
    } else {
        http_ports_in(ps.drop_last()) + if ps.last().is_http {
            1int
        } else {
            0int
        }
    }
}

/// Number of ports marked `is_http` over all containers.
pub open spec fn http_port_count(cs: Seq<ContainerInput>) -> int
    decreases cs.len(),
{
    if cs.len() == 0 {
        0
    } else {
        http_port_count(cs.drop_last()) + http_ports_in(cs.last().ports@)
    }
}

/// Every port of a request, container after container.
pub open spec fn request_ports(cs: Seq<ContainerInput>) -> Seq<PortInput>
    decreases cs.len(),
{
    if cs.len() == 0 {
        seq![]
    } else {
        request_ports(cs.drop_last()) + cs.last().ports@
    }
}

/// Whether a port is an HTTP port.
pub open spec fn http_pred() -> spec_fn(PortInput) -> bool {
    |p: PortInput| p.is_http
}

proof fn lemma_http_ports_in_filter(ps: Seq<PortInput>)
    ensures
        http_ports_in(ps) == ps.filter(http_pred()).len(),
    decreases ps.len(),
{
    if ps.len() > 0 {
        lemma_http_ports_in_filter(ps.drop_last());
        assert(ps.drop_last().push(ps.last()) =~= ps);
        ps.drop_last().lemma_filter_len_push(http_pred(), ps.last());
    }
}

/// The HTTP ports of a request are counted one by one: the count is the number of
/// ports marked `is_http` among all ports of all containers, two in one container as
/// much as two in two, and the request is refused for them exactly when there are
/// more than one.
pub proof fn lemma_http_ports_counted_one_by_one(cs: Seq<ContainerInput>)
    ensures
        http_port_count(cs) == request_ports(cs).filter(http_pred()).len(),
        http_errors(cs).len() > 0 <==> request_ports(cs).filter(http_pred()).len() > 1,
{
    lemma_http_port_count_is_filter(cs);
}

proof fn lemma_http_port_count_is_filter(cs: Seq<ContainerInput>)
    ensures
        http_port_count(cs) == request_ports(cs).filter(http_pred()).len(),
    decreases cs.len(),
{
    if cs.len() > 0 {
        lemma_http_port_count_is_filter(cs.drop_last());
        lemma_http_ports_in_filter(cs.last().ports@);
        Seq::filter_distributes_over_add(request_ports(cs.drop_last()), cs.last().ports@, http_pred());
    }
}

pub open spec fn is_compose_request(req: CreateServiceRequest) -> bool {
    req.source_type@ == "compose"@
}

/// The service names that parsing the compose content gave, when it succeeded.
pub open spec fn parsed_names(parse: Result<Vec<String>, CoreError>) -> Option<Seq<Seq<char>>> {
    match parse {
        Ok(v) => Some(views(v@)),
        Err(_) => None,
    }
}

pub open spec fn compose_errors(req: CreateServiceRequest, parse: Result<Vec<String>, CoreError>) -> Seq<
    (Seq<char>, Seq<char>),
> {
    if is_compose_request(req) && req.compose_content is Some {
        match parse {
            Ok(v) => compose_name_errors(req.name@, views(v@)),
            Err(e) => seq![("compose_content"@, core_error_text(e))],
        }
    } else {
        seq![]
    }
}

pub open spec fn container_errors(req: CreateServiceRequest, parse: Result<Vec<String>, CoreError>) -> Seq<
    (Seq<char>, Seq<char>),
> {
    let cs = req.containers@;
    if is_compose_request(req) {
        match (req.compose_content, parsed_names(parse)) {
            (Some(_), Some(names)) => unknown_container_errors(cs, names),
            _ => seq![],
        }
    } else if cs.len() != 1 {
        seq![("containers"@, "image型はcontainersを1件だけ指定してください"@)]
    } else if cs[0].name@ != req.name@ {
        seq![("containers[0].name"@, "image型ではcontainers[0].nameはnameと完全一致させてください"@)]
    } else {
        seq![]
    }
}

pub open spec fn http_errors(cs: Seq<ContainerInput>) -> Seq<(Seq<char>, Seq<char>)> {
    if http_port_count(cs) > 1 {
        seq![("containers[].ports[].is_http"@, "is_httpはサービスにつき最大1件までです"@)]
    } else {
        seq![]
    }
}

/// An image registration has exactly one container, named like the service: its
/// container part has no error exactly then, and otherwise one error.
pub proof fn lemma_image_request_has_one_container_named_like_it(
    req: CreateServiceRequest,
    parse: Result<Vec<String>, CoreError>,
)
    requires
        req.source_type@ != "compose"@,
    ensures
        container_errors(req, parse).len() == 0 <==> req.containers@.len() == 1 && req.containers@[0].name@
            == req.name@,
        container_errors(req, parse).len() <= 1,
{
}

/// Every error a registration request has, in the order they are reported: the
/// name, the compose content, the containers against the source type, the published
/// ports, and more than one HTTP port. `parse` is the outcome of parsing the compose
/// content; it is read only for a compose request that carries content.
pub open spec fn create_request_errors(
    req: CreateServiceRequest,
    parse: Result<Vec<String>, CoreError>,
) -> Seq<(Seq<char>, Seq<char>)> {
    opt_error("name"@, service_name_error(req.name@)) + compose_errors(req, parse) + container_errors(
        req,
        parse,
    ) + request_port_errors(req.containers@) + http_errors(req.containers@)
}

fn opt_error_exec(errors: &mut Vec<FieldError>, field: &str, r: Result<(), CoreError>)
    ensures
        field_errors_view(final(errors)@) == field_errors_view(old(errors)@) + match r {
            Ok(()) => Seq::<(Seq<char>, Seq<char>)>::empty(),
            Err(e) => seq![(field@, core_error_text(e))],
        },
{
    match r {
        Ok(()) => {
            assert(field_errors_view(errors@) =~= field_errors_view(old(errors)@) + Seq::<
                (Seq<char>, Seq<char>),
            >::empty());
        },
        Err(e) => {
            let m = e.message();
            push_error(errors, to_owned_str(field), m);
            assert(field_errors_view(errors@) =~= field_errors_view(old(errors)@) + seq![
                (field@, core_error_text(e)),
            ]);
        },
    }
}

fn push_compose_name_errors(errors: &mut Vec<FieldError>, service: &str, names: &Vec<String>)
    ensures
        field_errors_view(final(errors)@) == field_errors_view(old(errors)@) + compose_name_errors(
            service@,
            views(names@),
        ),
{
    let ghost start = field_errors_view(errors@);
    let ghost nv = views(names@);
    let mut k: usize = 0;
    assert(compose_name_errors(service@, nv.take(0)) =~= Seq::<(Seq<char>, Seq<char>)>::empty());
    assert(start + Seq::<(Seq<char>, Seq<char>)>::empty() =~= start);
    while k < names.len()
        invariant
            nv == views(names@),
            k <= names@.len(),
            field_errors_view(errors@) == start + compose_name_errors(service@, nv.take(k as int)),
        decreases names@.len() - k,
    {
        let n = names[k].as_str();
        assert(nv.take(k + 1).drop_last() =~= nv.take(k as int));
        assert(nv.take(k + 1).last() == n@);
        let mut field = to_owned_str("compose_content[");
        push_str(&mut field, n);
        push_str(&mut field, "]");
        let r1 = validate_compose_service_name(n);
        opt_error_exec(errors, field.as_str(), r1);
        let tag = registry_tag_name(service, Some(n));
        let r2 = validate_registry_tag_length(tag.as_str());
        opt_error_exec(errors, field.as_str(), r2);
        assert(field_errors_view(errors@) =~= start + compose_name_errors(service@, nv.take(k + 1)));
        k = k + 1;
    }
    assert(nv.take(names@.len() as int) =~= nv);
}

/// Whether `name` is one of `names`.
pub fn contains_name(names: &Vec<String>, name: &str) -> (r: bool)
    ensures
        r == views(names@).contains(name@),
{
    let mut k: usize = 0;
    while k < names.len()
        invariant
            k <= names@.len(),
            forall|j: int| 0 <= j < k ==> names@[j]@ != name@,
        decreases names@.len() - k,
    {
        if str_eq(names[k].as_str(), name) {
            assert(views(names@)[k as int] == name@);
            return true;
        }
        k = k + 1;
    }
    proof {
        if views(names@).contains(name@) {
            let j = choose|j: int| 0 <= j < views(names@).len() && views(names@)[j] == name@;
            assert(names@[j]@ == name@);
        }
    }
    false
}

fn push_unknown_container_errors(errors: &mut Vec<FieldError>, cs: &Vec<ContainerInput>, names: &Vec<String>)
    ensures
        field_errors_view(final(errors)@) == field_errors_view(old(errors)@) + unknown_container_errors(
            cs@,
            views(names@),
        ),
{
    let ghost start = field_errors_view(errors@);
    let mut i: usize = 0;
    assert(unknown_container_errors(cs@.take(0), views(names@)) =~= Seq::<(Seq<char>, Seq<char>)>::empty());
    assert(start + Seq::<(Seq<char>, Seq<char>)>::empty() =~= start);
    while i < cs.len()
        invariant
            i <= cs@.len(),
            field_errors_view(errors@) == start + unknown_container_errors(cs@.take(i as int), views(names@)),
        decreases cs@.len() - i,
    {
        assert(cs@.take(i + 1).drop_last() =~= cs@.take(i as int));
        let name = cs[i].name.as_str();
        if !contains_name(names, name) {
            let mut field = to_owned_str("containers[");
            push_u64(&mut field, i as u64);
            push_str(&mut field, "].name");
            let mut m = to_owned_str("'");
            push_str(&mut m, name);
            push_str(&mut m, "' はcompose_contentに存在しないサービス名です");
            push_error(errors, field, m);
        }
        assert(field_errors_view(errors@) =~= start + unknown_container_errors(cs@.take(i + 1), views(names@)));
        i = i + 1;
    }
    assert(cs@.take(cs@.len() as int) =~= cs@);
}

/// `min(count, 2)`: enough to tell whether there is more than one HTTP port.
fn http_ports_capped(cs: &Vec<ContainerInput>) -> (n: usize)
    ensures
        n == if http_port_count(cs@) < 2 { http_port_count(cs@) } else { 2 },
{
    let mut n: usize = 0;
    let mut i: usize = 0;
    while i < cs.len()
        invariant
            i <= cs@.len(),
            0 <= http_port_count(cs@.take(i as int)),
            n == if http_port_count(cs@.take(i as int)) < 2 { http_port_count(cs@.take(i as int)) } else { 2 },
        decreases cs@.len() - i,
    {
        assert(cs@.take(i + 1).drop_last() =~= cs@.take(i as int));
        let ps = &cs[i].ports;
        let ghost before = http_port_count(cs@.take(i as int));
        let mut j: usize = 0;
        while j < ps.len()
            invariant
                *ps == cs@[i as int].ports,
                j <= ps@.len(),
                0 <= before,
                0 <= http_ports_in(ps@.take(j as int)),
                n == if before + http_ports_in(ps@.take(j as int)) < 2 {
                    before + http_ports_in(ps@.take(j as int))
                } else {
                    2
                },
            decreases ps@.len() - j,
        {
            assert(ps@.take(j + 1).drop_last() =~= ps@.take(j as int));
            if ps[j].is_http && n < 2 {
                n = n + 1;
            }
            j = j + 1;
        }
        assert(ps@.take(ps@.len() as int) =~= ps@);
        i = i + 1;
    }
    assert(cs@.take(cs@.len() as int) =~= cs@);
    n
}

/// Checks a registration request as a whole and reports every problem at once,
/// field by field. `compose_parse` is the outcome of parsing `req.compose_content`;
/// it is read only for a compose request that carries content.
pub fn validate(req: &CreateServiceRequest, compose_parse: &Result<Vec<String>, CoreError>) -> (r: Result<
    (),
    AppError,
>)
    ensures
        validation_outcome(r, create_request_errors(*req, *compose_parse)),
{
    let mut errors: Vec<FieldError> = Vec::new();
    let rn = validate_service_name(req.name.as_str());
    opt_error_exec(&mut errors, "name", rn);
    assert(field_errors_view(errors@) =~= opt_error("name"@, service_name_error(req.name@)));
    let ghost e1 = field_errors_view(errors@);

    let is_compose = str_eq(req.source_type.as_str(), "compose");
    if is_compose && req.compose_content.is_some() {
        match compose_parse {
            Ok(names) => {
                push_compose_name_errors(&mut errors, req.name.as_str(), names);
            },
            Err(e) => {
                let m = e.message();
                push_error(&mut errors, to_owned_str("compose_content"), m);
            },
        }
    }
    assert(field_errors_view(errors@) =~= e1 + compose_errors(*req, *compose_parse));
    let ghost e2 = field_errors_view(errors@);

    if is_compose {
        if req.compose_content.is_some() {
            if let Ok(names) = compose_parse {
                push_unknown_container_errors(&mut errors, &req.containers, names);
            }
        }
    } else if req.containers.len() != 1 {
        push_error(
            &mut errors,
            to_owned_str("containers"),
            to_owned_str("image型はcontainersを1件だけ指定してください"),
        );
    } else if !str_eq(req.containers[0].name.as_str(), req.name.as_str()) {
        push_error(
            &mut errors,
            to_owned_str("containers[0].name"),
            to_owned_str("image型ではcontainers[0].nameはnameと完全一致させてください"),
        );
    }
    assert(field_errors_view(errors@) =~= e2 + container_errors(*req, *compose_parse));
    let ghost e3 = field_errors_view(errors@);

    let port_errors = collect_request_errors(req.containers.as_slice());
    append_errors(&mut errors, port_errors);
    let ghost e4 = field_errors_view(errors@);

    let n = http_ports_capped(&req.containers);
    if n > 1 {
        push_error(
            &mut errors,
            to_owned_str("containers[].ports[].is_http"),
            to_owned_str("is_httpはサービスにつき最大1件までです"),
        );
    }
    assert(field_errors_view(errors@) =~= e4 + http_errors(req.containers@));
    assert(field_errors_view(errors@) =~= create_request_errors(*req, *compose_parse));
    outcome_of(errors)
}

/// The source type a request names, and whether its image and compose fields fit it:
/// an unknown type is a validation error on `source_type`; an image service may not carry
/// compose content, and a compose service may not name an image.
pub open spec fn source_type_outcome(req: CreateServiceRequest, r: Result<SourceType, AppError>) -> bool {
    match source_type_parse(req.source_type@) {
        None => r matches Err(AppError::Validation(v)) && field_errors_view(v@) == seq![
            ("source_type"@, "不明なsource_type: "@ + req.source_type@),
        ],
        Some(SourceType::Image) => if req.compose_content is Some {
            r matches Err(AppError::Unprocessable(m)) && m@ == "source_type=imageの場合、compose_contentは指定できません"@
        } else {
            r == Ok::<SourceType, AppError>(SourceType::Image)
        },
        Some(SourceType::Compose) => if req.image is Some {
            r matches Err(AppError::Unprocessable(m)) && m@ == "source_type=composeの場合、imageは指定できません"@
        } else {
            r == Ok::<SourceType, AppError>(SourceType::Compose)
        },
    }
}

/// Reads the source type of a registration request and checks the fields that
/// depend on it.
pub fn check_source_type(req: &CreateServiceRequest) -> (r: Result<SourceType, AppError>)
    ensures
        source_type_outcome(*req, r),
{
    let st = match SourceType::try_from(req.source_type.as_str()) {
        Ok(st) => st,
        Err(m) => {
            return Err(AppError::validation_single(to_owned_str("source_type"), m));
        },
    };
    match st {
        SourceType::Image => {
            if req.compose_content.is_some() {
                return Err(
                    AppError::Unprocessable(
                        to_owned_str("source_type=imageの場合、compose_contentは指定できません"),
                    ),
                );
            }
        },
        SourceType::Compose => {
            if req.image.is_some() {
                return Err(
                    AppError::Unprocessable(to_owned_str("source_type=composeの場合、imageは指定できません")),
                );
            }
        },
    }
    Ok(st)
}

pub open spec fn container_names(cs: Seq<ContainerInput>) -> Seq<Seq<char>> {
    cs.map_values(|c: ContainerInput| c.name@)
}

/// The compose services that the request does not list, in compose order.
pub open spec fn implicit_names(names: Seq<Seq<char>>, explicit: Seq<Seq<char>>) -> Seq<Seq<char>>
    decreases names.len(),
{
    if names.len() == 0 {
        seq![]
    } else {
        implicit_names(names.drop_last(), explicit) + if explicit.contains(names.last()) {
            Seq::<Seq<char>>::empty()
        } else {
            seq![names.last()]
        }
    }
}

fn listed(cs: &Vec<ContainerInput>, name: &str) -> (r: bool)
    ensures
        r == container_names(cs@).contains(name@),
{
    let mut k: usize = 0;
    while k < cs.len()
        invariant
            k <= cs@.len(),
            forall|j: int| 0 <= j < k ==> cs@[j].name@ != name@,
        decreases cs@.len() - k,
    {
        if str_eq(cs[k].name.as_str(), name) {
            assert(container_names(cs@)[k as int] == name@);
            return true;
        }
        k = k + 1;
    }
    proof {
        if container_names(cs@).contains(name@) {
            let j = choose|j: int| 0 <= j < container_names(cs@).len() && container_names(cs@)[j] == name@;
            assert(cs@[j].name@ == name@);
        }
    }
    false
}

/// The compose services that get a container of their own with no ports and no
/// volumes at registration, because the request does not list them.
pub fn implicit_container_names(all_names: &Vec<String>, containers: &Vec<ContainerInput>) -> (r: Vec<
    String,
>)
    ensures
        views(r@) == implicit_names(views(all_names@), container_names(containers@)),
{
    let ghost nv = views(all_names@);
    let ghost ex = container_names(containers@);
    let mut out: Vec<String> = Vec::new();
    let mut k: usize = 0;
    assert(views(out@) =~= implicit_names(nv.take(0), ex));
    while k < all_names.len()
        invariant
            nv == views(all_names@),
            ex == container_names(containers@),
            k <= all_names@.len(),
            views(out@) == implicit_names(nv.take(k as int), ex),
        decreases all_names@.len() - k,
    {
        assert(nv.take(k + 1).drop_last() =~= nv.take(k as int));
        assert(nv.take(k + 1).last() == all_names@[k as int]@);
        if !listed(containers, all_names[k].as_str()) {
            out.push(all_names[k].clone());
        }
        assert(views(out@) =~= implicit_names(nv.take(k + 1), ex));
        k = k + 1;
    }
    assert(nv.take(all_names@.len() as int) =~= nv);
    out
}

} // verus!
