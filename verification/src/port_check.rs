//! Host-port checks that need no database: each published port on its own, and
//! ports claimed twice within one request.

use vstd::prelude::*;
use crate::dto::{ContainerInput, PortInput};
use crate::error::{FieldError, field_errors_view};
use crate::text::{dec_nat, dec_int, push_str, push_u64, push_i64, to_owned_str};
use crate::validation::{host_port_error, validate_host_port};

verus! {

/// `containers[i].ports[j].host_port`.
pub open spec fn field_path_spec(i: int, j: int) -> Seq<char> {
    "containers["@ + dec_nat(i as nat) + "].ports["@ + dec_nat(j as nat) + "].host_port"@
}

/// The path of a port's `host_port` field in a request.
pub fn field_path(container_index: usize, port_index: usize) -> (r: String)
    ensures
        r@ == field_path_spec(container_index as int, port_index as int),
{
    let mut s = to_owned_str("containers[");
    push_u64(&mut s, container_index as u64);
    push_str(&mut s, "].ports[");
    push_u64(&mut s, port_index as u64);
    push_str(&mut s, "].host_port");
    s
}

/// The host port a port publishes: none for an HTTP port, which Traefik reaches
/// inside the network, whatever `host_port` it carries.
pub open spec fn published_port(p: PortInput) -> Option<i64> {
    if p.is_http {
        None
    } else {
        p.host_port
    }
}

/// The published ports of container `i`, as `(i, j, host_port)` in port order.
pub open spec fn port_slots(i: int, ps: Seq<PortInput>) -> Seq<(int, int, i64)>
    decreases ps.len(),
{
    if ps.len() == 0 {
        seq![]
    } else {
        let rest = port_slots(i, ps.drop_last());
        match published_port(ps.last()) {
            Some(h) => rest.push((i, ps.len() - 1, h)),
            None => rest,
        }
    }
}

/// The published ports of a request, container by container.
pub open spec fn request_slots(cs: Seq<ContainerInput>) -> Seq<(int, int, i64)>
    decreases cs.len(),
{
    if cs.len() == 0 {
        seq![]
    } else {
        request_slots(cs.drop_last()) + port_slots(cs.len() - 1, cs.last().ports@)
    }
}

/// The field that first claimed port `h`, if any.
pub open spec fn first_claim(seen: Seq<(i64, Seq<char>)>, h: i64) -> Option<Seq<char>>
    decreases seen.len(),
{
    if seen.len() == 0 {
        None
    } else if seen[0].0 == h {
        Some(seen[0].1)
    } else {
        first_claim(seen.drop_first(), h)
    }
}

pub open spec fn duplicate_message(h: i64, first: Seq<char>) -> Seq<char> {
    "ポート"@ + dec_int(h as int) + "はこのリクエスト内の"@ + first + "と重複しています"@
}

/// Errors so far and the ports claimed so far, after looking at one more port.
pub open spec fn scan_step(
    st: (Seq<(Seq<char>, Seq<char>)>, Seq<(i64, Seq<char>)>),
    slot: (int, int, i64),
) -> (Seq<(Seq<char>, Seq<char>)>, Seq<(i64, Seq<char>)>) {
    let field = field_path_spec(slot.0, slot.1);
    match host_port_error(slot.2 as int) {
        Some(m) => (st.0.push((field, m)), st.1),
        None => match first_claim(st.1, slot.2) {
            Some(first) => (st.0.push((field, duplicate_message(slot.2, first))), st.1),
            None => (st.0, st.1.push((slot.2, field))),
        },
    }
}

pub open spec fn scan(slots: Seq<(int, int, i64)>) -> (Seq<(Seq<char>, Seq<char>)>, Seq<(i64, Seq<char>)>)
    decreases slots.len(),
{
    if slots.len() == 0 {
        (seq![], seq![])
    } else {
        scan_step(scan(slots.drop_last()), slots.last())
    }
}

/// Every error `collect_request_errors` reports, in request order: a published port
/// that is no usable port, and each later claim of a port claimed before.
pub open spec fn request_port_errors(cs: Seq<ContainerInput>) -> Seq<(Seq<char>, Seq<char>)> {
    scan(request_slots(cs)).0
}

pub open spec fn claims_view(v: Seq<(i64, String)>) -> Seq<(i64, Seq<char>)> {
    v.map_values(|e: (i64, String)| (e.0, e.1@))
}

fn find_claim(seen: &Vec<(i64, String)>, h: i64) -> (r: Option<String>)
    ensures
        match (r, first_claim(claims_view(seen@), h)) {
            (Some(a), Some(b)) => a@ == b,
            (None, None) => true,
            _ => false,
        },
{
    let ghost sv = claims_view(seen@);
    let mut k: usize = 0;
    assert(sv.skip(0) =~= sv);
    while k < seen.len()
        invariant
            sv == claims_view(seen@),
            k <= seen@.len(),
            first_claim(sv, h) == first_claim(sv.skip(k as int), h),
        decreases seen@.len() - k,
    {
        assert(sv.skip(k as int).drop_first() =~= sv.skip(k + 1));
        if seen[k].0 == h {
            return Some(seen[k].1.clone());
        }
        k = k + 1;
    }
    assert(sv.skip(k as int).len() == 0);
    None
}

proof fn lemma_slots_step(i: int, ps: Seq<PortInput>, j: int)
    requires
        0 <= j < ps.len(),
    ensures
        port_slots(i, ps.take(j + 1)) == match published_port(ps[j]) {
            Some(h) => port_slots(i, ps.take(j)).push((i, j, h)),
            None => port_slots(i, ps.take(j)),
        },
{
    assert(ps.take(j + 1).drop_last() =~= ps.take(j));
}

proof fn lemma_request_slots_step(cs: Seq<ContainerInput>, i: int)
    requires
        0 <= i < cs.len(),
    ensures
        request_slots(cs.take(i + 1)) == request_slots(cs.take(i)) + port_slots(i, cs[i].ports@),
{
    assert(cs.take(i + 1).drop_last() =~= cs.take(i));
}

/// Checks the published host ports of a request without the database: each must be a
/// usable port, and none may be claimed twice. Every problem is reported, not only the
/// first, so that the caller can merge them with its other findings.
pub fn collect_request_errors(containers: &[ContainerInput]) -> (r: Vec<FieldError>)
    ensures
        field_errors_view(r@) == request_port_errors(containers@),
{
    let mut errors: Vec<FieldError> = Vec::new();
    let mut seen: Vec<(i64, String)> = Vec::new();
    let ghost cs = containers@;
    let mut i: usize = 0;
    while i < containers.len()
        invariant
            cs == containers@,
            i <= cs.len(),
            field_errors_view(errors@) == scan(request_slots(cs.take(i as int))).0,
            claims_view(seen@) == scan(request_slots(cs.take(i as int))).1,
        decreases cs.len() - i,
    {
        let c = &containers[i];
        let ghost base = request_slots(cs.take(i as int));
        let mut j: usize = 0;
        assert(c.ports@.take(0).len() == 0);
        assert(base + port_slots(i as int, c.ports@.take(0)) =~= base);
        while j < c.ports.len()
            invariant
                cs == containers@,
                i < cs.len(),
                *c == cs[i as int],
                base == request_slots(cs.take(i as int)),
                j <= c.ports@.len(),
                field_errors_view(errors@) == scan(base + port_slots(i as int, c.ports@.take(j as int))).0,
                claims_view(seen@) == scan(base + port_slots(i as int, c.ports@.take(j as int))).1,
            decreases c.ports@.len() - j,
        {
            let p = &c.ports[j];
            let ghost before = base + port_slots(i as int, c.ports@.take(j as int));
            proof {
                lemma_slots_step(i as int, c.ports@, j as int);
            }
            if !p.is_http {
                if let Some(h) = p.host_port {
                    let ghost slot = (i as int, j as int, h);
                    assert(base + port_slots(i as int, c.ports@.take(j + 1)) =~= before.push(slot));
                    assert(before.push(slot).drop_last() =~= before);
                    let field = field_path(i, j);
                    match validate_host_port(h) {
                        Err(e) => {
                            let msg = e.message();
                            errors.push(FieldError { field, message: msg });
                            assert(field_errors_view(errors@) =~= field_errors_view(errors@.drop_last()).push(
                                (field_path_spec(i as int, j as int), msg@),
                            ));
                        },
                        Ok(()) => {
                            match find_claim(&seen, h) {
                                Some(first) => {
                                    let mut m = to_owned_str("ポート");
                                    push_i64(&mut m, h);
                                    push_str(&mut m, "はこのリクエスト内の");
                                    push_str(&mut m, first.as_str());
                                    push_str(&mut m, "と重複しています");
                                    errors.push(FieldError { field, message: m });
                                    assert(field_errors_view(errors@) =~= field_errors_view(
                                        errors@.drop_last(),
                                    ).push((field_path_spec(i as int, j as int), m@)));
                                },
                                None => {
                                    seen.push((h, field));
                                    assert(claims_view(seen@) =~= claims_view(seen@.drop_last()).push(
                                        (h, field_path_spec(i as int, j as int)),
                                    ));
                                },
                            }
                        },
                    }
                } else {
                    assert(base + port_slots(i as int, c.ports@.take(j + 1)) =~= before);
                }
            } else {
                assert(base + port_slots(i as int, c.ports@.take(j + 1)) =~= before);
            }
            j = j + 1;
        }
        proof {
            lemma_request_slots_step(cs, i as int);
            assert(c.ports@.take(c.ports@.len() as int) =~= c.ports@);
        }
        i = i + 1;
    }
    assert(cs.take(cs.len() as int) =~= cs);
    errors
}


pub open spec fn slots_view(v: Seq<(usize, usize, i64)>) -> Seq<(int, int, i64)> {
    v.map_values(|t: (usize, usize, i64)| (t.0 as int, t.1 as int, t.2))
}

/// The published ports of a request as `(container, port, host_port)`, in request order:
/// the ports to look up among the other services.
pub fn published_slots(containers: &[ContainerInput]) -> (r: Vec<(usize, usize, i64)>)
    ensures
        slots_view(r@) == request_slots(containers@),
{
    let ghost cs = containers@;
    let mut out: Vec<(usize, usize, i64)> = Vec::new();
    let mut i: usize = 0;
    while i < containers.len()
        invariant
            cs == containers@,
            i <= cs.len(),
            slots_view(out@) == request_slots(cs.take(i as int)),
        decreases cs.len() - i,
    {
        let c = &containers[i];
        let ghost base = request_slots(cs.take(i as int));
        let mut j: usize = 0;
        assert(base + port_slots(i as int, c.ports@.take(0)) =~= base);
        while j < c.ports.len()
            invariant
                cs == containers@,
                i < cs.len(),
                *c == cs[i as int],
                base == request_slots(cs.take(i as int)),
                j <= c.ports@.len(),
                slots_view(out@) == base + port_slots(i as int, c.ports@.take(j as int)),
            decreases c.ports@.len() - j,
        {
            proof {
                lemma_slots_step(i as int, c.ports@, j as int);
            }
            let p = &c.ports[j];
            let ghost before = out@;
            if !p.is_http {
                if let Some(h) = p.host_port {
                    out.push((i, j, h));
                    assert(slots_view(out@) =~= slots_view(before).push((i as int, j as int, h)));
                }
            }
            assert(slots_view(out@) =~= base + port_slots(i as int, c.ports@.take(j + 1)));
            j = j + 1;
        }
        proof {
            lemma_request_slots_step(cs, i as int);
            assert(c.ports@.take(c.ports@.len() as int) =~= c.ports@);
        }
        i = i + 1;
    }
    assert(cs.take(cs.len() as int) =~= cs);
    out
}

/// The error for a published port that another service already uses.
pub fn port_in_use_error(container_index: usize, port_index: usize, host_port: i64, owner: &str) -> (r: FieldError)
    ensures
        r@ == (
            field_path_spec(container_index as int, port_index as int),
            "ポート"@ + dec_int(host_port as int) + "はサービス'"@ + owner@ + "'が使用中です"@,
        ),
{
    let field = field_path(container_index, port_index);
    let mut m = to_owned_str("ポート");
    push_i64(&mut m, host_port);
    push_str(&mut m, "はサービス'");
    push_str(&mut m, owner);
    push_str(&mut m, "'が使用中です");
    FieldError { field, message: m }
}

/// A slot whose host port is a usable port.
pub open spec fn usable_slot(slot: (int, int, i64)) -> bool {
    host_port_error(slot.2 as int) is None
}

/// Some usable slot before `k` publishes the same host port as slot `k`.
pub open spec fn claimed_before(slots: Seq<(int, int, i64)>, k: int) -> bool {
    exists|m: int| 0 <= m < k && #[trigger] usable_slot(slots[m]) && slots[m].2 == slots[k].2
}

/// The field of the first usable slot that publishes `h`, in request order.
pub open spec fn earlier_claim(slots: Seq<(int, int, i64)>, h: i64) -> Option<Seq<char>>
    decreases slots.len(),
{
    if slots.len() == 0 {
        None
    } else {
        match earlier_claim(slots.drop_last(), h) {
            Some(f) => Some(f),
            None => if usable_slot(slots.last()) && slots.last().2 == h {
                Some(field_path_spec(slots.last().0, slots.last().1))
            } else {
                None
            },
        }
    }
}

/// The errors of a request told slot by slot: a slot is rejected exactly when its port
/// is not usable (with that port's own message) or when a usable slot before it
/// already published the same port (naming the first such slot); every other slot,
/// the first usable claim of each port among them, gets no error.
pub open spec fn rejected_slots(slots: Seq<(int, int, i64)>) -> Seq<(Seq<char>, Seq<char>)>
    decreases slots.len(),
{
    if slots.len() == 0 {
        seq![]
    } else {
        let k = slots.len() - 1;
        let s = slots.last();
        let rest = rejected_slots(slots.drop_last());
        let field = field_path_spec(s.0, s.1);
        match host_port_error(s.2 as int) {
            Some(m) => rest.push((field, m)),
            None => if claimed_before(slots, k) {
                rest.push((field, duplicate_message(s.2, earlier_claim(slots.drop_last(), s.2).unwrap())))
            } else {
                rest
            },
        }
    }
}

proof fn lemma_first_claim_push(seen: Seq<(i64, Seq<char>)>, x: (i64, Seq<char>), h: i64)
    ensures
        first_claim(seen.push(x), h) == match first_claim(seen, h) {
            Some(f) => Some(f),
            None => if x.0 == h {
                Some(x.1)
            } else {
                None
            },
        },
    decreases seen.len(),
{
    if seen.len() > 0 {
        assert(seen.push(x).drop_first() =~= seen.drop_first().push(x));
        assert(seen.push(x)[0] == seen[0]);
        lemma_first_claim_push(seen.drop_first(), x, h);
    } else {
        assert(seen.push(x).drop_first() =~= Seq::<(i64, Seq<char>)>::empty());
        assert(seen.push(x)[0] == x);
        assert(first_claim(Seq::<(i64, Seq<char>)>::empty(), h) is None);
    }
}

proof fn lemma_earlier_claim_exists(slots: Seq<(int, int, i64)>, h: i64)
    ensures
        earlier_claim(slots, h) is Some <==> exists|m: int|
            0 <= m < slots.len() && #[trigger] usable_slot(slots[m]) && slots[m].2 == h,
    decreases slots.len(),
{
    if slots.len() > 0 {
        let front = slots.drop_last();
        lemma_earlier_claim_exists(front, h);
        if earlier_claim(front, h) is Some {
            let m = choose|m: int| 0 <= m < front.len() && #[trigger] usable_slot(front[m]) && front[m].2 == h;
            assert(slots[m] == front[m]);
        } else {
            if exists|m: int| 0 <= m < slots.len() && #[trigger] usable_slot(slots[m]) && slots[m].2 == h {
                let m = choose|m: int| 0 <= m < slots.len() && #[trigger] usable_slot(slots[m]) && slots[m].2 == h;
                if m < front.len() {
                    assert(front[m] == slots[m]);
                    assert(usable_slot(front[m]));
                } else {
                    assert(slots[m] == slots.last());
                }
            }
            if usable_slot(slots.last()) && slots.last().2 == h {
                assert(usable_slot(slots[slots.len() - 1]));
            }
        }
    }
}

/// A published port gets an error exactly when it is not a usable port or a usable
/// port before it in the request already published the same host port; a duplicate
/// names the first such port, and a first usable claim is never reported.
pub proof fn lemma_port_errors_slot_by_slot(containers: Seq<ContainerInput>)
    ensures
        request_port_errors(containers) == rejected_slots(request_slots(containers)),
{
    lemma_scan_slot_by_slot(request_slots(containers));
}

proof fn lemma_scan_slot_by_slot(slots: Seq<(int, int, i64)>)
    ensures
        scan(slots).0 == rejected_slots(slots),
        forall|h: i64| #[trigger] first_claim(scan(slots).1, h) == earlier_claim(slots, h),
    decreases slots.len(),
{
    if slots.len() > 0 {
        let front = slots.drop_last();
        lemma_scan_slot_by_slot(front);
        let x = slots.last();
        let k = slots.len() - 1;
        let st = scan(front);
        assert(scan(slots) == scan_step(st, x));
        lemma_earlier_claim_exists(front, x.2);
        assert(claimed_before(slots, k) <==> earlier_claim(front, x.2) is Some) by {
            if claimed_before(slots, k) {
                let m = choose|m: int| 0 <= m < k && #[trigger] usable_slot(slots[m]) && slots[m].2 == slots[k].2;
                assert(front[m] == slots[m]);
                assert(usable_slot(front[m]));
            }
            if earlier_claim(front, x.2) is Some {
                let m = choose|m: int| 0 <= m < front.len() && #[trigger] usable_slot(front[m]) && front[m].2 == x.2;
                assert(front[m] == slots[m]);
                assert(usable_slot(slots[m]));
            }
        }
        let field = field_path_spec(x.0, x.1);
        assert(first_claim(st.1, x.2) == earlier_claim(front, x.2));
        assert forall|h: i64| #[trigger] first_claim(scan(slots).1, h) == earlier_claim(slots, h) by {
            assert(first_claim(st.1, h) == earlier_claim(front, h));
            if host_port_error(x.2 as int) is None && first_claim(st.1, x.2) is None {
                lemma_first_claim_push(st.1, (x.2, field), h);
            }
        }
    }
}

} // verus!
