//! Health decisions of the background health checks: what an inspection means, when a
//! container counts as unhealthy, and the health of a service as a whole.

use vstd::prelude::*;
use std::collections::HashMap;
use crate::domain::HealthStatus;
use crate::text::str_eq;

verus! {

broadcast use vstd::std_specs::hash::group_hash_axioms;

/// Consecutive failed checks after which a container is unhealthy.
pub const FAILURE_THRESHOLD: u32 = 3;

/// Docker's own verdict for a container with a `HEALTHCHECK`.
#[derive(Debug, Clone, Copy, PartialEq, Eq, Structural)]
pub enum HealthObservation {
    Healthy,
    Unhealthy,
    Starting,
}

/// What an inspection of a container found.
#[derive(Debug, Clone, Copy, PartialEq, Eq, Structural)]
pub enum ContainerRuntimeState {
    /// The container has a `HEALTHCHECK` and Docker judged it.
    DockerHealth(HealthObservation),
    /// The container has no `HEALTHCHECK`; whether it is running.
    Running(bool),
    /// No such container (never started, or removed).
    NotFound,
}

pub open spec fn observation_spec(status: Option<Seq<char>>) -> HealthObservation {
    match status {
        Some(s) => if s == "healthy"@ {
            HealthObservation::Healthy
        } else if s == "unhealthy"@ {
            HealthObservation::Unhealthy
        } else {
            HealthObservation::Starting
        },
        None => HealthObservation::Starting,
    }
}

/// Docker's status texts are read by their exact lower-case spelling: `healthy` and
/// only it is a passing check, `unhealthy` and only it a failing one; any other text,
/// or no status at all, is a container still starting.
pub proof fn lemma_observation_by_status_text(status: Option<Seq<char>>)
    ensures
        (observation_spec(status) == HealthObservation::Healthy) <==> status == Some("healthy"@),
        (observation_spec(status) == HealthObservation::Unhealthy) <==> status == Some("unhealthy"@),
        (observation_spec(status) == HealthObservation::Starting) <==> !(status == Some("healthy"@)
            || status == Some("unhealthy"@)),
{
    reveal_strlit("healthy");
    reveal_strlit("unhealthy");
    assert("healthy"@ != "unhealthy"@) by {
        assert("healthy"@.len() != "unhealthy"@.len());
    }
}

/// Docker's health status text, lower case, as an observation: anything but
/// `healthy` and `unhealthy` (such as `starting`) counts as still starting.
pub fn observation_from_status(status: Option<&str>) -> (r: HealthObservation)
    ensures
        r == observation_spec(match status {
            Some(s) => Some(s@),
            None => None,
        }),
{
    match status {
        Some(s) => {
            if str_eq(s, "healthy") {
                HealthObservation::Healthy
            } else if str_eq(s, "unhealthy") {
                HealthObservation::Unhealthy
            } else {
                HealthObservation::Starting
            }
        },
        None => HealthObservation::Starting,
    }
}

pub open spec fn is_healthy_state(state: ContainerRuntimeState) -> bool {
    state == ContainerRuntimeState::DockerHealth(HealthObservation::Healthy) || state
        == ContainerRuntimeState::Running(true)
}

/// A check passes exactly for a container Docker reports healthy, or, without a
/// `HEALTHCHECK`, for a running one; a starting or unhealthy report, a stopped
/// container and a missing one all count as failures.
pub proof fn lemma_check_passes_exactly(state: ContainerRuntimeState)
    ensures
        is_healthy_state(state) <==> match state {
            ContainerRuntimeState::DockerHealth(o) => o == HealthObservation::Healthy,
            ContainerRuntimeState::Running(running) => running,
            ContainerRuntimeState::NotFound => false,
        },
{
}

/// A check succeeds when Docker reports the container healthy, or, without a
/// `HEALTHCHECK`, when it is running.
pub fn observed_healthy(state: ContainerRuntimeState) -> (r: bool)
    ensures
        r == is_healthy_state(state),
{
    match state {
        ContainerRuntimeState::DockerHealth(HealthObservation::Healthy) => true,
        ContainerRuntimeState::Running(running) => running,
        _ => false,
    }
}

pub open spec fn failures_of(m: Map<i64, u32>, id: i64) -> nat {
    if m.contains_key(id) {
        m[id] as nat
    } else {
        0
    }
}

/// The counters after one check of container `id`, and the container's health.
pub open spec fn threshold_step(m: Map<i64, u32>, id: i64, healthy: bool) -> (Map<i64, u32>, HealthStatus) {
    if healthy {
        (m.remove(id), HealthStatus::Healthy)
    } else {
        let n = failures_of(m, id) + 1;
        (
            m.insert(id, n as u32),
            if n >= FAILURE_THRESHOLD {
                HealthStatus::Unhealthy
            } else {
                HealthStatus::Unknown
            },
        )
    }
}

/// Records one check of a container: a success forgets its failures and makes it
/// healthy; a failure counts, and makes it unhealthy from the third in a row on,
/// unknown before that.
pub fn apply_threshold(failures: &mut HashMap<i64, u32>, container_id: i64, observed_healthy: bool) -> (r:
    HealthStatus)
    requires
        failures_of(old(failures)@, container_id) < u32::MAX,
    ensures
        (final(failures)@, r) == threshold_step(old(failures)@, container_id, observed_healthy),
{
    if observed_healthy {
        failures.remove(&container_id);
        HealthStatus::Healthy
    } else {
        let count: u32 = match failures.get(&container_id) {
            Some(c) => *c + 1,
            None => 1,
        };
        failures.insert(container_id, count);
        if count >= FAILURE_THRESHOLD {
            HealthStatus::Unhealthy
        } else {
            HealthStatus::Unknown
        }
    }
}

/// Failed checks at the end of `obs` (`false` is a failed check).
pub open spec fn trailing_failures(obs: Seq<bool>) -> nat
    decreases obs.len(),
{
    if obs.len() == 0 || obs.last() {
        0
    } else {
        trailing_failures(obs.drop_last()) + 1
    }
}

/// The counters after a run of checks of container `id`.
pub open spec fn threshold_run(m: Map<i64, u32>, id: i64, obs: Seq<bool>) -> Map<i64, u32>
    decreases obs.len(),
{
    if obs.len() == 0 {
        m
    } else {
        threshold_step(threshold_run(m, id, obs.drop_last()), id, obs.last()).0
    }
}

/// After checks of a container whose failures were not counted before, its counter holds
/// exactly the failures since its last success; and the last check reports it healthy
/// after a success, unhealthy after three or more failures in a row, unknown otherwise.
pub proof fn lemma_threshold_counts_trailing_failures(m: Map<i64, u32>, id: i64, obs: Seq<bool>)
    requires
        !m.contains_key(id),
        obs.len() < u32::MAX,
    ensures
        failures_of(threshold_run(m, id, obs), id) == trailing_failures(obs),
        obs.len() > 0 ==> threshold_step(threshold_run(m, id, obs.drop_last()), id, obs.last()).1 == (
        if obs.last() {
            HealthStatus::Healthy
        } else if trailing_failures(obs) >= 3 {
            HealthStatus::Unhealthy
        } else {
            HealthStatus::Unknown
        }),
    decreases obs.len(),
{
    if obs.len() > 0 {
        lemma_threshold_counts_trailing_failures(m, id, obs.drop_last());
        lemma_trailing_failures_bounded(obs.drop_last());
    }
}

proof fn lemma_trailing_failures_bounded(obs: Seq<bool>)
    ensures
        trailing_failures(obs) <= obs.len(),
    decreases obs.len(),
{
    if obs.len() > 0 {
        lemma_trailing_failures_bounded(obs.drop_last());
    }
}

/// Checks of one container leave the counters of every other container as they were.
pub proof fn lemma_threshold_counters_independent(m: Map<i64, u32>, id: i64, healthy: bool, other: i64)
    requires
        other != id,
    ensures
        threshold_step(m, id, healthy).0.contains_key(other) == m.contains_key(other),
        failures_of(threshold_step(m, id, healthy).0, other) == failures_of(m, other),
{
}

/// The health of a service from the health of its containers: unhealthy if any is,
/// healthy if all are (so also for none), unknown otherwise.
pub open spec fn worst_spec(s: Seq<HealthStatus>) -> HealthStatus {
    if s.contains(HealthStatus::Unhealthy) {
        HealthStatus::Unhealthy
    } else if forall|i: int| 0 <= i < s.len() ==> s[i] == HealthStatus::Healthy {
        HealthStatus::Healthy
    } else {
        HealthStatus::Unknown
    }
}

/// The worst case ranks unhealthy over unknown over healthy: one unhealthy container
/// makes the service unhealthy, it is healthy only when every container is (so also
/// with none), and unknown in every other case.
pub proof fn lemma_worst_case_ranks(s: Seq<HealthStatus>)
    ensures
        (worst_spec(s) == HealthStatus::Unhealthy) <==> exists|i: int|
            0 <= i < s.len() && s[i] == HealthStatus::Unhealthy,
        (worst_spec(s) == HealthStatus::Healthy) <==> forall|i: int|
            0 <= i < s.len() ==> s[i] == HealthStatus::Healthy,
        (worst_spec(s) == HealthStatus::Unknown) <==> (exists|i: int|
            0 <= i < s.len() && s[i] == HealthStatus::Unknown) && !exists|i: int|
            0 <= i < s.len() && s[i] == HealthStatus::Unhealthy,
{
    if exists|i: int| 0 <= i < s.len() && s[i] == HealthStatus::Unhealthy {
        let i = choose|i: int| 0 <= i < s.len() && s[i] == HealthStatus::Unhealthy;
        assert(s.contains(HealthStatus::Unhealthy));
    }
    if s.contains(HealthStatus::Unhealthy) {
        let i = choose|i: int| 0 <= i < s.len() && s[i] == HealthStatus::Unhealthy;
    }
    if !(forall|i: int| 0 <= i < s.len() ==> s[i] == HealthStatus::Healthy) {
        let i = choose|i: int| !(0 <= i < s.len() ==> s[i] == HealthStatus::Healthy);
        assert(s[i] == HealthStatus::Unknown || s[i] == HealthStatus::Unhealthy);
    }
}

/// The health of a service, from the health of its containers.
pub fn worst_case(statuses: &[HealthStatus]) -> (r: HealthStatus)
    ensures
        r == worst_spec(statuses@),
{
    let n = statuses.len();
    let mut all_healthy = true;
    let mut k: usize = 0;
    while k < n
        invariant
            n == statuses@.len(),
            k <= n,
            forall|i: int| 0 <= i < k ==> statuses@[i] != HealthStatus::Unhealthy,
            all_healthy == forall|i: int| 0 <= i < k ==> statuses@[i] == HealthStatus::Healthy,
        decreases n - k,
    {
        let s = statuses[k];
        if s == HealthStatus::Unhealthy {
            assert(statuses@[k as int] == HealthStatus::Unhealthy);
            return HealthStatus::Unhealthy;
        }
        if s != HealthStatus::Healthy {
            all_healthy = false;
        }
        k = k + 1;
    }
    if all_healthy {
        HealthStatus::Healthy
    } else {
        HealthStatus::Unknown
    }
}

/// The worse of two healths, as `worst_spec` orders them.
pub open spec fn combine(a: HealthStatus, b: HealthStatus) -> HealthStatus {
    if a == HealthStatus::Unhealthy || b == HealthStatus::Unhealthy {
        HealthStatus::Unhealthy
    } else if a == HealthStatus::Healthy && b == HealthStatus::Healthy {
        HealthStatus::Healthy
    } else {
        HealthStatus::Unknown
    }
}

/// The health of each service after one round of checks: entries are
/// `(service_id, container health)` in the order they were checked.
pub open spec fn aggregate_spec(entries: Seq<(i64, HealthStatus)>) -> Map<i64, HealthStatus>
    decreases entries.len(),
{
    if entries.len() == 0 {
        Map::empty()
    } else {
        let m = aggregate_spec(entries.drop_last());
        let (sid, h) = entries.last();
        m.insert(
            sid,
            if m.contains_key(sid) {
                combine(m[sid], h)
            } else {
                h
            },
        )
    }
}

fn combine_exec(a: HealthStatus, b: HealthStatus) -> (r: HealthStatus)
    ensures
        r == combine(a, b),
{
    if a == HealthStatus::Unhealthy || b == HealthStatus::Unhealthy {
        HealthStatus::Unhealthy
    } else if a == HealthStatus::Healthy && b == HealthStatus::Healthy {
        HealthStatus::Healthy
    } else {
        HealthStatus::Unknown
    }
}

/// Groups the container healths of one round by service, each service getting the
/// worst case of its containers.
pub fn aggregate_by_service(entries: &Vec<(i64, HealthStatus)>) -> (r: HashMap<i64, HealthStatus>)
    ensures
        r@ == aggregate_spec(entries@),
{
    let mut m: HashMap<i64, HealthStatus> = HashMap::new();
    let mut k: usize = 0;
    while k < entries.len()
        invariant
            k <= entries@.len(),
            m@ == aggregate_spec(entries@.take(k as int)),
        decreases entries@.len() - k,
    {
        assert(entries@.take(k + 1).drop_last() =~= entries@.take(k as int));
        let (sid, h) = entries[k];
        let v = match m.get(&sid) {
            Some(prev) => combine_exec(*prev, h),
            None => h,
        };
        m.insert(sid, v);
        k = k + 1;
    }
    assert(entries@.take(entries@.len() as int) =~= entries@);
    m
}

/// The healths of the containers of service `sid`, in check order.
pub open spec fn statuses_of(entries: Seq<(i64, HealthStatus)>, sid: i64) -> Seq<HealthStatus>
    decreases entries.len(),
{
    if entries.len() == 0 {
        seq![]
    } else {
        let rest = statuses_of(entries.drop_last(), sid);
        if entries.last().0 == sid {
            rest.push(entries.last().1)
        } else {
            rest
        }
    }
}

proof fn lemma_worst_push(s: Seq<HealthStatus>, h: HealthStatus)
    requires
        s.len() > 0,
    ensures
        worst_spec(s.push(h)) == combine(worst_spec(s), h),
{
    let t = s.push(h);
    assert(t.last() == h);
    if s.contains(HealthStatus::Unhealthy) {
        let i = choose|i: int| 0 <= i < s.len() && s[i] == HealthStatus::Unhealthy;
        assert(t[i] == HealthStatus::Unhealthy);
    } else if h == HealthStatus::Unhealthy {
        assert(t[s.len() as int] == HealthStatus::Unhealthy);
    } else {
        assert(!t.contains(HealthStatus::Unhealthy)) by {
            if t.contains(HealthStatus::Unhealthy) {
                let i = choose|i: int| 0 <= i < t.len() && t[i] == HealthStatus::Unhealthy;
                if i < s.len() {
                    assert(s[i] == t[i]);
                }
            }
        }
        if !(forall|i: int| 0 <= i < s.len() ==> s[i] == HealthStatus::Healthy) {
            let i = choose|i: int| !(0 <= i < s.len() ==> s[i] == HealthStatus::Healthy);
            assert(t[i] == s[i]);
        }
    }
}

/// Each service's aggregate is the worst case over exactly its own containers, and
/// a service has an aggregate only when one of its containers was checked.
pub proof fn lemma_aggregate_is_worst_case(entries: Seq<(i64, HealthStatus)>, sid: i64)
    ensures
        aggregate_spec(entries).contains_key(sid) == (statuses_of(entries, sid).len() > 0),
        aggregate_spec(entries).contains_key(sid) ==> aggregate_spec(entries)[sid] == worst_spec(
            statuses_of(entries, sid),
        ),
    decreases entries.len(),
{
    if entries.len() > 0 {
        let prefix = entries.drop_last();
        lemma_aggregate_is_worst_case(prefix, sid);
        let (s, h) = entries.last();
        if s == sid {
            let prev = statuses_of(prefix, sid);
            if prev.len() > 0 {
                lemma_worst_push(prev, h);
            } else {
                let one = prev.push(h);
                assert(one.len() == 1 && one[0] == h);
                if h == HealthStatus::Unhealthy {
                    assert(one.contains(HealthStatus::Unhealthy));
                } else {
                    assert(!one.contains(HealthStatus::Unhealthy)) by {
                        if one.contains(HealthStatus::Unhealthy) {
                            let i = choose|i: int| 0 <= i < one.len() && one[i] == HealthStatus::Unhealthy;
                        }
                    }
                }
            }
        }
    }
}

} // verus!
