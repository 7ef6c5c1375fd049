//! The decisions of the service operations: what an update may change, how compose
//! content changes the containers, when start and stop have work to do, and what an
//! upload must bring.

use vstd::prelude::*;
use crate::compose::{diff_container_names, lists_sorted, added_set, removed_set, name_set};
use crate::domain::{Protocol, Service, ServiceStatus, SourceType, protocol_parse, source_type_text};
use crate::dto::{ContainerInput, CreateServiceRequest};
use crate::error::{
    AppError, CoreError, FieldError, append_errors, core_error_text, field_errors_view, outcome_of,
    push_error, validation_outcome,
};
use crate::naming::{registry_tag_name, registry_tag_spec};
use crate::cli::image_tag;
use crate::port_check::{collect_request_errors, request_port_errors};
use crate::registration::{contains_name, compose_field};
use crate::text::{dec_nat, push_str, push_u64, str_eq, to_owned_str, views};
use crate::validation::{
    compose_service_name_error, registry_tag_length_error, validate_compose_service_name,
    validate_registry_tag_length,
};

verus! {

pub open spec fn unknown_container_update_errors(cs: Seq<ContainerInput>, existing: Seq<Seq<char>>) -> Seq<
    (Seq<char>, Seq<char>),
>
    decreases cs.len(),
{
    if cs.len() == 0 {
        seq![]
    } else {
        unknown_container_update_errors(cs.drop_last(), existing) + if existing.contains(cs.last().name@) {
            Seq::<(Seq<char>, Seq<char>)>::empty()
        } else {
            seq![
                (
                    "containers["@ + dec_nat((cs.len() - 1) as nat) + "].name"@,
                    "'"@ + cs.last().name@ + "' は現時点で実在するコンテナ名ではありません"@,
                ),
            ]
        }
    }
}

/// The error for update container `k` named `name`, which the service does not have.
pub open spec fn missing_container_error(k: int, name: Seq<char>) -> (Seq<char>, Seq<char>) {
    ("containers["@ + dec_nat(k as nat) + "].name"@, "'"@ + name + "' は現時点で実在するコンテナ名ではありません"@)
}

proof fn lemma_missing_message_names(a: Seq<char>, b: Seq<char>, k1: int, k2: int)
    requires
        missing_container_error(k1, a).1 == missing_container_error(k2, b).1,
    ensures
        a == b,
{
    reveal_strlit("'");
    let q = "'"@;
    let sfx = "' は現時点で実在するコンテナ名ではありません"@;
    let ma = missing_container_error(k1, a).1;
    let mb = missing_container_error(k2, b).1;
    assert(ma == q + a + sfx);
    assert(mb == q + b + sfx);
    assert(q.len() == 1);
    assert(ma.len() == 1 + a.len() + sfx.len());
    assert(mb.len() == 1 + b.len() + sfx.len());
    assert(a.len() == b.len());
    assert forall|i: int| 0 <= i < a.len() implies a[i] == b[i] by {
        assert(ma[i + 1] == a[i]);
        assert(mb[i + 1] == b[i]);
    }
    assert(a =~= b);
}

/// An update names only containers the service has: container `k` of the update is
/// reported exactly when its name is none of the existing names, wherever in that
/// list a match would stand, and every such report is about one of them.
pub proof fn lemma_unknown_containers_are_those_not_existing(cs: Seq<ContainerInput>, existing: Seq<Seq<char>>)
    ensures
        forall|k: int|
            0 <= k < cs.len() ==> (unknown_container_update_errors(cs, existing).contains(
                #[trigger] missing_container_error(k, cs[k].name@),
            ) <==> !existing.contains(cs[k].name@)),
        forall|e: (Seq<char>, Seq<char>)|
            #[trigger] unknown_container_update_errors(cs, existing).contains(e) ==> exists|k: int|
                0 <= k < cs.len() && !existing.contains(cs[k].name@) && e == missing_container_error(
                    k,
                    cs[k].name@,
                ),
    decreases cs.len(),
{
    if cs.len() > 0 {
        let front = cs.drop_last();
        lemma_unknown_containers_are_those_not_existing(front, existing);
        let ef = unknown_container_update_errors(front, existing);
        let all = unknown_container_update_errors(cs, existing);
        let last = cs.len() - 1;
        let tail = if existing.contains(cs.last().name@) {
            Seq::<(Seq<char>, Seq<char>)>::empty()
        } else {
            seq![missing_container_error(last, cs.last().name@)]
        };
        assert(all == ef + tail);
        assert forall|e: (Seq<char>, Seq<char>)| #[trigger] all.contains(e) implies exists|k: int|
            0 <= k < cs.len() && !existing.contains(cs[k].name@) && e == missing_container_error(k, cs[k].name@) by {
            let n = choose|n: int| 0 <= n < all.len() && all[n] == e;
            if n < ef.len() {
                assert(ef.contains(e));
                let k = choose|k: int|
                    0 <= k < front.len() && !existing.contains(front[k].name@) && e == missing_container_error(
                        k,
                        front[k].name@,
                    );
                assert(front[k] == cs[k]);
            } else {
                assert(cs[last] == cs.last());
            }
        }
        assert forall|k: int| 0 <= k < cs.len() implies (all.contains(
            #[trigger] missing_container_error(k, cs[k].name@),
        ) <==> !existing.contains(cs[k].name@)) by {
            let e = missing_container_error(k, cs[k].name@);
            if all.contains(e) {
                let j = choose|j: int|
                    0 <= j < cs.len() && !existing.contains(cs[j].name@) && e == missing_container_error(
                        j,
                        cs[j].name@,
                    );
                lemma_missing_message_names(cs[k].name@, cs[j].name@, k, j);
            }
            if !existing.contains(cs[k].name@) {
                if k < last {
                    assert(front[k] == cs[k]);
                    assert(ef.contains(e));
                    let n = choose|n: int| 0 <= n < ef.len() && ef[n] == e;
                    assert(all[n] == e);
                } else {
                    assert(cs[k] == cs.last());
                    assert(all[all.len() - 1] == e);
                }
            }
        }
    }
}

/// The errors of the container part of an update: a container that does not exist now,
/// then the published ports as at registration.
pub open spec fn container_update_errors(cs: Seq<ContainerInput>, existing: Seq<Seq<char>>) -> Seq<
    (Seq<char>, Seq<char>),
> {
    unknown_container_update_errors(cs, existing) + request_port_errors(cs)
}

/// Checks the containers of an update against the containers the service has.
pub fn check_container_updates(inputs: &Vec<ContainerInput>, existing_names: &Vec<String>) -> (r: Result<
    (),
    AppError,
>)
    ensures
        validation_outcome(r, container_update_errors(inputs@, views(existing_names@))),
{
    let mut errors: Vec<FieldError> = Vec::new();
    let mut i: usize = 0;
    while i < inputs.len()
        invariant
            i <= inputs@.len(),
            field_errors_view(errors@) == unknown_container_update_errors(
                inputs@.take(i as int),
                views(existing_names@),
            ),
        decreases inputs@.len() - i,
    {
        assert(inputs@.take(i + 1).drop_last() =~= inputs@.take(i as int));
        let name = inputs[i].name.as_str();
        let ghost before = field_errors_view(errors@);
        if !contains_name(existing_names, name) {
            let mut field = to_owned_str("containers[");
            push_u64(&mut field, i as u64);
            push_str(&mut field, "].name");
            let mut m = to_owned_str("'");
            push_str(&mut m, name);
            push_str(&mut m, "' は現時点で実在するコンテナ名ではありません");
            push_error(&mut errors, field, m);
        }
        assert(field_errors_view(errors@) =~= unknown_container_update_errors(
            inputs@.take(i + 1),
            views(existing_names@),
        ));
        i = i + 1;
    }
    assert(inputs@.take(inputs@.len() as int) =~= inputs@);
    let port_errors = collect_request_errors(inputs.as_slice());
    append_errors(&mut errors, port_errors);
    outcome_of(errors)
}

/// The first port of an update whose protocol is unknown, as `(container, port)`.
pub open spec fn is_first_bad_protocol(cs: Seq<ContainerInput>, i: int, j: int) -> bool {
    &&& 0 <= i < cs.len()
    &&& 0 <= j < cs[i].ports@.len()
    &&& protocol_parse(cs[i].ports@[j].protocol@) is None
    &&& forall|a: int, b: int|
        #![trigger cs[a].ports@[b]]
        0 <= a < cs.len() && 0 <= b < cs[a].ports@.len() && (a < i || (a == i && b < j))
            ==> protocol_parse(cs[a].ports@[b].protocol@) is Some
}

/// The protocols of every port of an update, or the error of the first unknown one.
pub fn port_protocols(inputs: &Vec<ContainerInput>) -> (r: Result<Vec<Vec<Protocol>>, AppError>)
    ensures
        match r {
            Ok(v) => v@.len() == inputs@.len() && forall|i: int|
                0 <= i < inputs@.len() ==> (#[trigger] v@[i])@.len() == inputs@[i].ports@.len() && forall|
                    j: int,
                |
                    0 <= j < inputs@[i].ports@.len() ==> protocol_parse(inputs@[i].ports@[j].protocol@)
                        == Some(#[trigger] v@[i]@[j]),
            Err(e) => exists|i: int, j: int|
                is_first_bad_protocol(inputs@, i, j) && (e matches AppError::Validation(fs)
                    && field_errors_view(fs@) == seq![
                    (
                        "containers["@ + dec_nat(i as nat) + "].ports["@ + dec_nat(j as nat)
                            + "].protocol"@,
                        "不明なprotocol: "@ + inputs@[i].ports@[j].protocol@,
                    ),
                ]),
        },
{
    let mut out: Vec<Vec<Protocol>> = Vec::new();
    let mut i: usize = 0;
    while i < inputs.len()
        invariant
            i <= inputs@.len(),
            out@.len() == i,
            forall|a: int|
                0 <= a < i ==> (#[trigger] out@[a])@.len() == inputs@[a].ports@.len() && forall|b: int|
                    0 <= b < inputs@[a].ports@.len() ==> protocol_parse(inputs@[a].ports@[b].protocol@)
                        == Some(#[trigger] out@[a]@[b]),
        decreases inputs@.len() - i,
    {
        let ports = &inputs[i].ports;
        let mut row: Vec<Protocol> = Vec::new();
        let mut j: usize = 0;
        while j < ports.len()
            invariant
                *ports == inputs@[i as int].ports,
                i < inputs@.len(),
                j <= ports@.len(),
                row@.len() == j,
                forall|b: int| 0 <= b < j ==> protocol_parse(ports@[b].protocol@) == Some(#[trigger] row@[b]),
                forall|a: int|
                    0 <= a < i ==> (#[trigger] out@[a])@.len() == inputs@[a].ports@.len() && forall|b: int|
                        0 <= b < inputs@[a].ports@.len() ==> protocol_parse(inputs@[a].ports@[b].protocol@)
                            == Some(#[trigger] out@[a]@[b]),
                out@.len() == i,
            decreases ports@.len() - j,
        {
            match Protocol::try_from(ports[j].protocol.as_str()) {
                Ok(p) => {
                    row.push(p);
                },
                Err(m) => {
                    let mut field = to_owned_str("containers[");
                    push_u64(&mut field, i as u64);
                    push_str(&mut field, "].ports[");
                    push_u64(&mut field, j as u64);
                    push_str(&mut field, "].protocol");
                    let e = AppError::validation_single(field, m);
                    assert(is_first_bad_protocol(inputs@, i as int, j as int)) by {
                        assert forall|a: int, b: int|
                            #![trigger inputs@[a].ports@[b]]
                            0 <= a < inputs@.len() && 0 <= b < inputs@[a].ports@.len() && (a < i || (a == i
                                && b < j)) implies protocol_parse(inputs@[a].ports@[b].protocol@) is Some by {
                            if a < i {
                                assert(protocol_parse(inputs@[a].ports@[b].protocol@) == Some(out@[a]@[b]));
                            } else {
                                assert(protocol_parse(ports@[b].protocol@) == Some(row@[b]));
                            }
                        }
                    }
                    return Err(e);
                },
            }
            j = j + 1;
        }
        out.push(row);
        i = i + 1;
    }
    Ok(out)
}

/// After an update, a service may still have at most one HTTP port.
pub fn check_http_port_count(count: i64) -> (r: Result<(), AppError>)
    ensures
        count <= 1 ==> r is Ok,
        count > 1 ==> (r matches Err(AppError::Validation(fs)) && field_errors_view(fs@) == seq![
            ("containers[].ports[].is_http"@, "is_httpはサービスにつき最大1件までです"@),
        ]),
{
    if count > 1 {
        return Err(
            AppError::validation_single(
                to_owned_str("containers[].ports[].is_http"),
                to_owned_str("is_httpはサービスにつき最大1件までです"),
            ),
        );
    }
    Ok(())
}

/// The first service name of new compose content that is not valid, if any.
pub open spec fn first_bad_compose_name(names: Seq<Seq<char>>) -> Option<Seq<char>>
    decreases names.len(),
{
    if names.len() == 0 {
        None
    } else {
        match compose_service_name_error(names[0]) {
            Some(m) => Some(m),
            None => first_bad_compose_name(names.drop_first()),
        }
    }
}

/// How new compose content changes the containers of a service: the services to add,
/// and the ids of the containers to remove. Containers that stay keep their ids, and so
/// their Docker names.
#[derive(Debug, Clone)]
pub struct ComposeSync {
    pub added: Vec<String>,
    pub removed: Vec<String>,
    pub removed_ids: Vec<i64>,
}

/// The ids of the rows of the given names, in order; a name without a row has no id.
pub open spec fn ids_for(rows: Seq<(i64, String)>, names: Seq<Seq<char>>) -> Seq<i64>
    decreases names.len(),
{
    if names.len() == 0 {
        seq![]
    } else {
        ids_for(rows, names.drop_last()) + match first_row_id(rows, names.last()) {
            Some(id) => seq![id],
            None => Seq::<i64>::empty(),
        }
    }
}

pub open spec fn row_names(rows: Seq<(i64, String)>) -> Seq<String> {
    rows.map_values(|r: (i64, String)| r.1)
}

/// The id of the first row named `name`.
pub open spec fn first_row_id(rows: Seq<(i64, String)>, name: Seq<char>) -> Option<i64>
    decreases rows.len(),
{
    if rows.len() == 0 {
        None
    } else if rows[0].1@ == name {
        Some(rows[0].0)
    } else {
        first_row_id(rows.drop_first(), name)
    }
}

fn find_row_id(rows: &Vec<(i64, String)>, name: &str) -> (r: Option<i64>)
    ensures
        r == first_row_id(rows@, name@),
{
    let mut k: usize = 0;
    assert(rows@.skip(0) =~= rows@);
    while k < rows.len()
        invariant
            k <= rows@.len(),
            first_row_id(rows@, name@) == first_row_id(rows@.skip(k as int), name@),
        decreases rows@.len() - k,
    {
        assert(rows@.skip(k as int).drop_first() =~= rows@.skip(k + 1));
        assert(rows@.skip(k as int)[0] == rows@[k as int]);
        if str_eq(rows[k].1.as_str(), name) {
            return Some(rows[k].0);
        }
        k = k + 1;
    }
    None
}

/// Plans the container changes of new compose content: every new service name must be
/// valid (the first that is not is the error); then the names are compared with the
/// existing containers.
pub fn plan_compose_sync(existing: &Vec<(i64, String)>, desired: &Vec<String>) -> (r: Result<ComposeSync, CoreError>)
    ensures
        match first_bad_compose_name(views(desired@)) {
            Some(m) => r matches Err(e) && core_error_text(e) == m,
            None => r matches Ok(plan) && lists_sorted(
                views(plan.added@),
                added_set(row_names(existing@), desired@),
            ) && lists_sorted(views(plan.removed@), removed_set(row_names(existing@), desired@))
                && plan.removed_ids@ == ids_for(existing@, views(plan.removed@)),
        },
{
    let mut k: usize = 0;
    let ghost dv = views(desired@);
    assert(dv.skip(0) =~= dv);
    while k < desired.len()
        invariant
            dv == views(desired@),
            k <= desired@.len(),
            first_bad_compose_name(dv) == first_bad_compose_name(dv.skip(k as int)),
        decreases desired@.len() - k,
    {
        assert(dv.skip(k as int).drop_first() =~= dv.skip(k + 1));
        assert(dv.skip(k as int)[0] == desired@[k as int]@);
        match validate_compose_service_name(desired[k].as_str()) {
            Err(e) => {
                return Err(e);
            },
            Ok(()) => {},
        }
        k = k + 1;
    }
    assert(dv.skip(desired@.len() as int).len() == 0);
    let mut names: Vec<String> = Vec::new();
    let mut i: usize = 0;
    while i < existing.len()
        invariant
            i <= existing@.len(),
            names@ == row_names(existing@.take(i as int)),
        decreases existing@.len() - i,
    {
        names.push(existing[i].1.clone());
        assert(names@ =~= row_names(existing@.take(i + 1)));
        i = i + 1;
    }
    assert(existing@.take(existing@.len() as int) =~= existing@);
    let diff = diff_container_names(&names, desired);
    let mut removed_ids: Vec<i64> = Vec::new();
    let mut j: usize = 0;
    while j < diff.removed.len()
        invariant
            j <= diff.removed@.len(),
            removed_ids@ == ids_for(existing@, views(diff.removed@).take(j as int)),
        decreases diff.removed@.len() - j,
    {
        let ghost rv = views(diff.removed@);
        assert(rv.take(j + 1).drop_last() =~= rv.take(j as int));
        assert(rv.take(j + 1).last() == diff.removed@[j as int]@);
        let name = diff.removed[j].as_str();
        match find_row_id(existing, name) {
            Some(id) => {
                removed_ids.push(id);
            },
            None => {},
        }
        assert(removed_ids@ =~= ids_for(existing@, rv.take(j + 1)));
        j = j + 1;
    }
    assert(views(diff.removed@).take(diff.removed@.len() as int) =~= views(diff.removed@));
    Ok(ComposeSync { added: diff.added, removed: diff.removed, removed_ids })
}

proof fn lemma_first_row_id_found(rows: Seq<(i64, String)>, name: Seq<char>)
    ensures
        first_row_id(rows, name) matches Some(id) ==> exists|m: int|
            0 <= m < rows.len() && rows[m].1@ == name && rows[m].0 == id,
    decreases rows.len(),
{
    if rows.len() > 0 && rows[0].1@ != name {
        let rest = rows.drop_first();
        lemma_first_row_id_found(rest, name);
        if let Some(id) = first_row_id(rows, name) {
            let m = choose|m: int| 0 <= m < rest.len() && rest[m].1@ == name && rest[m].0 == id;
            assert(rows[m + 1] == rest[m]);
        }
    }
}

proof fn lemma_ids_for_origin(rows: Seq<(i64, String)>, names: Seq<Seq<char>>, id: i64)
    requires
        ids_for(rows, names).contains(id),
    ensures
        exists|n: int| 0 <= n < names.len() && first_row_id(rows, names[n]) == Some(id),
    decreases names.len(),
{
    let front = names.drop_last();
    let prev = ids_for(rows, front);
    let tail = match first_row_id(rows, names.last()) {
        Some(x) => seq![x],
        None => Seq::<i64>::empty(),
    };
    assert(ids_for(rows, names) == prev + tail);
    if prev.contains(id) {
        lemma_ids_for_origin(rows, front, id);
        let n = choose|n: int| 0 <= n < front.len() && first_row_id(rows, front[n]) == Some(id);
        assert(names[n] == front[n]);
    } else {
        let i = choose|i: int| 0 <= i < (prev + tail).len() && (prev + tail)[i] == id;
        if i < prev.len() {
            assert(prev[i] == (prev + tail)[i]);
        }
        assert(tail[i - prev.len()] == id);
        assert(first_row_id(rows, names[names.len() - 1]) == Some(id));
    }
}

/// A container whose compose service is still there is never removed by a sync: its
/// row, and so its Docker name `svc-<id>`, survives new compose content.
pub proof fn lemma_kept_containers_keep_ids(
    existing: Seq<(i64, String)>,
    desired: Seq<String>,
    removed: Seq<Seq<char>>,
    k: int,
)
    requires
        0 <= k < existing.len(),
        views(desired).contains(existing[k].1@),
        forall|i: int, j: int| 0 <= i < j < existing.len() ==> existing[i].0 != existing[j].0,
        lists_sorted(removed, removed_set(row_names(existing), desired)),
    ensures
        !ids_for(existing, removed).contains(existing[k].0),
{
    if ids_for(existing, removed).contains(existing[k].0) {
        lemma_ids_for_origin(existing, removed, existing[k].0);
        let n = choose|n: int|
            0 <= n < removed.len() && first_row_id(existing, removed[n]) == Some(existing[k].0);
        lemma_first_row_id_found(existing, removed[n]);
        let m = choose|m: int|
            0 <= m < existing.len() && existing[m].1@ == removed[n] && existing[m].0 == existing[k].0;
        assert(removed.contains(removed[n]));
        assert(!name_set(desired).contains(removed[n]));
        assert(name_set(desired).contains(existing[k].1@));
        assert(m != k);
        if m < k {
            assert(existing[m].0 != existing[k].0);
        } else {
            assert(existing[k].0 != existing[m].0);
        }
    }
}


/// What an operation has to do given the current status.
#[derive(Debug, Clone, Copy, PartialEq, Eq, Structural)]
pub enum LifecycleStep {
    /// The service is already where the operation would bring it.
    NoOp,
    Run,
}

/// Starting a running service does nothing.
pub fn start_step(status: ServiceStatus) -> (r: LifecycleStep)
    ensures
        (r == LifecycleStep::NoOp) == (status == ServiceStatus::Running),
{
    if status == ServiceStatus::Running {
        LifecycleStep::NoOp
    } else {
        LifecycleStep::Run
    }
}

/// Stopping a stopped service does nothing.
pub fn stop_step(status: ServiceStatus) -> (r: LifecycleStep)
    ensures
        (r == LifecycleStep::NoOp) == (status == ServiceStatus::Stopped),
{
    if status == ServiceStatus::Stopped {
        LifecycleStep::NoOp
    } else {
        LifecycleStep::Run
    }
}

/// The status after a start: running when the containers started, error otherwise.
pub fn status_after_start(started: bool) -> (r: ServiceStatus)
    ensures
        r == if started {
            ServiceStatus::Running
        } else {
            ServiceStatus::Error
        },
{
    if started {
        ServiceStatus::Running
    } else {
        ServiceStatus::Error
    }
}

/// The warning passed on when the service started but its route could not be written.
pub fn route_warning_message(error: &str) -> (r: String)
    ensures
        r@ == "Traefikルートの反映に失敗しました: "@ + error@
            + "。もう一度反映するには再起動(restart)をお試しください"@,
{
    let mut s = to_owned_str("Traefikルートの反映に失敗しました: ");
    push_str(&mut s, error);
    push_str(&mut s, "。もう一度反映するには再起動(restart)をお試しください");
    s
}

pub open spec fn credentials_missing_message() -> Seq<char> {
    "サーバーにレジストリ認証情報が設定されていません(設定画面の「レジストリ設定」から入力してください)"@
}

/// An upload is built and pushed by the server, which needs registry credentials.
pub fn check_registry_credentials(username: &Option<String>, password: &Option<String>) -> (r: Result<(), AppError>)
    ensures
        (username is Some && password is Some) ==> r is Ok,
        !(username is Some && password is Some) ==> (r matches Err(AppError::Unprocessable(m)) && m@
            == credentials_missing_message()),
{
    if username.is_some() && password.is_some() {
        Ok(())
    } else {
        Err(
            AppError::Unprocessable(
                to_owned_str(
                    "サーバーにレジストリ認証情報が設定されていません(設定画面の「レジストリ設定」から入力してください)",
                ),
            ),
        )
    }
}

/// An uploaded project must be of the registered kind: a compose file exactly for a
/// compose service.
pub fn check_upload_layout(is_compose_dir: bool, registered: SourceType) -> (r: Result<(), AppError>)
    ensures
        (is_compose_dir == (registered == SourceType::Compose)) ==> r is Ok,
        (is_compose_dir != (registered == SourceType::Compose)) ==> (r matches Err(
            AppError::Unprocessable(m),
        ) && m@ == "登録内容(source_type="@ + source_type_text(registered)
            + ")とアップロードされたプロジェクト構成が一致しません"@),
{
    let registered_compose = registered == SourceType::Compose;
    if is_compose_dir != registered_compose {
        let mut m = to_owned_str("登録内容(source_type=");
        push_str(&mut m, registered.as_str());
        push_str(&mut m, ")とアップロードされたプロジェクト構成が一致しません");
        return Err(AppError::Unprocessable(m));
    }
    Ok(())
}

/// The first error among the compose services to build, in order: a bad name, then a
/// registry tag that would be too long. Nothing is built unless all pass.
pub open spec fn build_targets_error(service: Seq<char>, names: Seq<Seq<char>>) -> Option<(Seq<char>, Seq<char>)>
    decreases names.len(),
{
    if names.len() == 0 {
        None
    } else {
        let n = names[0];
        match compose_service_name_error(n) {
            Some(m) => Some((compose_field(n), m)),
            None => match registry_tag_length_error(registry_tag_spec(service, Some(n))) {
                Some(m) => Some((compose_field(n), m)),
                None => build_targets_error(service, names.drop_first()),
            },
        }
    }
}

/// A compose service that cannot be built under `service`: its name is no valid
/// compose service name, or the registry tag made from it is too long.
pub open spec fn build_target_fails(service: Seq<char>, n: Seq<char>) -> bool {
    compose_service_name_error(n) is Some || registry_tag_length_error(registry_tag_spec(service, Some(n))) is Some
}

/// The error reported for a compose service that cannot be built: at its
/// `compose_content[<name>]` field, the name's problem if it has one, else the tag's.
pub open spec fn build_target_error(service: Seq<char>, n: Seq<char>) -> (Seq<char>, Seq<char>) {
    match compose_service_name_error(n) {
        Some(m) => (compose_field(n), m),
        None => (compose_field(n), registry_tag_length_error(registry_tag_spec(service, Some(n))).unwrap()),
    }
}

/// The build targets pass exactly when every one can be built; otherwise the one
/// error reported is that of the first target, in the order given (by name, as
/// `build_specs` lists them), that cannot.
pub proof fn lemma_build_targets_first_failure(service: Seq<char>, names: Seq<Seq<char>>)
    ensures
        build_targets_error(service, names) is None <==> forall|k: int|
            0 <= k < names.len() ==> !build_target_fails(service, #[trigger] names[k]),
        build_targets_error(service, names) matches Some(e) ==> exists|k: int|
            0 <= k < names.len() && build_target_fails(service, #[trigger] names[k]) && (forall|j: int|
                0 <= j < k ==> !build_target_fails(service, #[trigger] names[j])) && e == build_target_error(
                service,
                names[k],
            ),
    decreases names.len(),
{
    if names.len() > 0 {
        let rest = names.drop_first();
        lemma_build_targets_first_failure(service, rest);
        if build_target_fails(service, names[0]) {
            assert(build_targets_error(service, names) == Some(build_target_error(service, names[0])));
        } else {
            assert(build_targets_error(service, names) == build_targets_error(service, rest));
            assert forall|k: int| 1 <= k < names.len() implies names[k] == #[trigger] rest[k - 1] by {}
            if build_targets_error(service, rest) is None {
                assert forall|k: int| 0 <= k < names.len() implies !build_target_fails(
                    service,
                    #[trigger] names[k],
                ) by {
                    if k > 0 {
                        assert(names[k] == rest[k - 1]);
                    }
                }
            } else {
                let k = choose|k: int|
                    0 <= k < rest.len() && build_target_fails(service, #[trigger] rest[k]) && (forall|j: int|
                        0 <= j < k ==> !build_target_fails(service, #[trigger] rest[j]))
                        && build_targets_error(service, rest) == Some(build_target_error(service, rest[k]));
                assert(names[k + 1] == rest[k]);
                assert forall|j: int| 0 <= j < k + 1 implies !build_target_fails(service, #[trigger] names[j]) by {
                    if j > 0 {
                        assert(names[j] == rest[j - 1]);
                    }
                }
                assert(!(forall|i: int| 0 <= i < names.len() ==> !build_target_fails(service, #[trigger] names[i])));
            }
        }
    }
}

/// Checks every compose service to build before the first build starts.
pub fn check_build_targets(service: &str, names: &Vec<String>) -> (r: Result<(), AppError>)
    ensures
        match build_targets_error(service@, views(names@)) {
            Some(e) => r matches Err(AppError::Validation(fs)) && field_errors_view(fs@) == seq![e],
            None => r is Ok,
        },
{
    let ghost nv = views(names@);
    let mut k: usize = 0;
    assert(nv.skip(0) =~= nv);
    while k < names.len()
        invariant
            nv == views(names@),
            k <= names@.len(),
            build_targets_error(service@, nv) == build_targets_error(service@, nv.skip(k as int)),
        decreases names@.len() - k,
    {
        assert(nv.skip(k as int).drop_first() =~= nv.skip(k + 1));
        let n = names[k].as_str();
        assert(nv.skip(k as int)[0] == n@);
        let mut field = to_owned_str("compose_content[");
        push_str(&mut field, n);
        push_str(&mut field, "]");
        match validate_compose_service_name(n) {
            Err(e) => {
                let m = e.message();
                return Err(AppError::validation_single(field, m));
            },
            Ok(()) => {},
        }
        let tag = registry_tag_name(service, Some(n));
        match validate_registry_tag_length(tag.as_str()) {
            Err(e) => {
                let m = e.message();
                return Err(AppError::validation_single(field, m));
            },
            Ok(()) => {},
        }
        k = k + 1;
    }
    assert(nv.skip(names@.len() as int).len() == 0);
    Ok(())
}

pub open spec fn expected_image_tag_spec(service: Service, container_name: Seq<char>, registry_url: Seq<char>) -> Seq<char> {
    match service.source_type {
        SourceType::Image => match service.image {
            Some(i) => i@,
            None => Seq::empty(),
        },
        SourceType::Compose => registry_url + "/"@ + registry_tag_spec(service.name@, Some(container_name))
            + ":latest"@,
    }
}

/// The image a container of the service starts from: the stored image of an image
/// service (empty when there is none), `<registry>/<service>-<container>:latest` for a
/// container of a compose service.
pub fn expected_image_tag(service: &Service, container_name: &str, registry_url: &str) -> (r: String)
    ensures
        r@ == expected_image_tag_spec(*service, container_name@, registry_url@),
{
    match service.source_type {
        SourceType::Image => match &service.image {
            Some(i) => to_owned_str(i.as_str()),
            None => String::new(),
        },
        SourceType::Compose => {
            let tag = registry_tag_name(service.name.as_str(), Some(container_name));
            image_tag(registry_url, tag.as_str())
        },
    }
}

/// The registration of an uploaded image service: one container of the service's name,
/// on the image just pushed; ports, variables and volumes are set in the web UI.
pub fn image_create_request(name: &str, tag: String) -> (r: CreateServiceRequest)
    ensures
        r.name@ == name@,
        r.source_type@ == "image"@,
        r.image == Some(tag),
        r.compose_content is None,
        r.env_vars is None,
        r.containers@.len() == 1,
        r.containers@[0].name@ == name@,
        r.containers@[0].ports@.len() == 0,
        r.containers@[0].volumes@.len() == 0,
{
    let mut containers: Vec<ContainerInput> = Vec::new();
    containers.push(ContainerInput { name: to_owned_str(name), ports: Vec::new(), volumes: Vec::new() });
    CreateServiceRequest {
        name: to_owned_str(name),
        source_type: to_owned_str("image"),
        image: Some(tag),
        compose_content: None,
        env_vars: None,
        containers,
    }
}

/// The registration of an uploaded compose service: its compose content and no listed
/// containers; registration creates one for each compose service.
pub fn compose_create_request(name: &str, content: String) -> (r: CreateServiceRequest)
    ensures
        r.name@ == name@,
        r.source_type@ == "compose"@,
        r.image is None,
        r.compose_content == Some(content),
        r.env_vars is None,
        r.containers@.len() == 0,
{
    CreateServiceRequest {
        name: to_owned_str(name),
        source_type: to_owned_str("compose"),
        image: None,
        compose_content: Some(content),
        env_vars: None,
        containers: Vec::new(),
    }
}


/// The first check a compose service's build context fails, in the order they are made:
/// the context must be a directory of the upload, inside it, and a Dockerfile it names
/// must be a file inside the upload too.
#[derive(Debug, Clone, Copy, PartialEq, Eq, Structural)]
pub enum ContextProblem {
    ContextMissing,
    ContextOutside,
    DockerfileMissing,
    DockerfileOutside,
}

pub open spec fn context_problem_message(p: ContextProblem, context: Seq<char>, dockerfile: Seq<char>) -> Seq<char> {
    match p {
        ContextProblem::ContextMissing => "build.context '"@ + context
            + "' がアップロードされたプロジェクト内に見つかりません。プロジェクトルートからの相対パスで指定し、.dockerignoreで除外されていないか確認してください。"@,
        ContextProblem::ContextOutside => "build.context '"@ + context
            + "' がプロジェクトの外を指しています。アップロードされる範囲に含まれないため、プロジェクトルート配下の相対パスで指定してください。"@,
        ContextProblem::DockerfileMissing => "build.dockerfile '"@ + dockerfile + "' が build.context 内に見つかりません。"@,
        ContextProblem::DockerfileOutside => "build.dockerfile '"@ + dockerfile + "' がプロジェクトの外を指しています。"@,
    }
}

/// The validation error on `compose_content[<service>]` for a build context problem.
pub fn context_problem_error(compose_service: &str, context: &str, dockerfile: &str, problem: ContextProblem) -> (r: AppError)
    ensures
        r matches AppError::Validation(fs) && field_errors_view(fs@) == seq![
            (compose_field(compose_service@), context_problem_message(problem, context@, dockerfile@)),
        ],
{
    let mut field = to_owned_str("compose_content[");
    push_str(&mut field, compose_service);
    push_str(&mut field, "]");
    let m = match problem {
        ContextProblem::ContextMissing => {
            let mut m = to_owned_str("build.context '");
            push_str(&mut m, context);
            push_str(
                &mut m,
                "' がアップロードされたプロジェクト内に見つかりません。プロジェクトルートからの相対パスで指定し、.dockerignoreで除外されていないか確認してください。",
            );
            m
        },
        ContextProblem::ContextOutside => {
            let mut m = to_owned_str("build.context '");
            push_str(&mut m, context);
            push_str(
                &mut m,
                "' がプロジェクトの外を指しています。アップロードされる範囲に含まれないため、プロジェクトルート配下の相対パスで指定してください。",
            );
            m
        },
        ContextProblem::DockerfileMissing => {
            let mut m = to_owned_str("build.dockerfile '");
            push_str(&mut m, dockerfile);
            push_str(&mut m, "' が build.context 内に見つかりません。");
            m
        },
        ContextProblem::DockerfileOutside => {
            let mut m = to_owned_str("build.dockerfile '");
            push_str(&mut m, dockerfile);
            push_str(&mut m, "' がプロジェクトの外を指しています。");
            m
        },
    };
    AppError::validation_single(field, m)
}

} // verus!
