//! The services of a docker compose project, their build settings, and the
//! difference between the containers a service has and those its compose content asks for.

use vstd::prelude::*;
use vstd::string::*;
use crate::docker_args::{join_path, path_joined, plain_base, relative_part};
use crate::text::{str_eq, to_owned_str, views};

verus! {

/// The names a project's compose file may have, in the order they are looked for.
pub open spec fn compose_file_names_spec() -> Seq<Seq<char>> {
    seq!["docker-compose.yml"@, "docker-compose.yaml"@, "compose.yml"@, "compose.yaml"@]
}

/// The names a project's compose file may have, in the order they are looked for.
pub fn compose_file_names() -> (r: Vec<String>)
    ensures
        views(r@) == compose_file_names_spec(),
{
    let r = vec![
        to_owned_str("docker-compose.yml"),
        to_owned_str("docker-compose.yaml"),
        to_owned_str("compose.yml"),
        to_owned_str("compose.yaml"),
    ];
    assert(views(r@) =~= compose_file_names_spec());
    r
}

/// Name `k` is there and no name before it is (a missing entry of `present` counts
/// as absent).
pub open spec fn is_first_present(present: Seq<bool>, k: int) -> bool {
    &&& 0 <= k < 4
    &&& k < present.len()
    &&& present[k]
    &&& forall|j: int| 0 <= j < k ==> !(j < present.len() && present[j])
}

/// The compose file directly in `dir`: `dir` joined with the first name of
/// `compose_file_names()` that is there, `present[k]` telling whether the `k`-th
/// name exists in `dir`. None when no name is there: the project is then a plain
/// image project.
pub fn find_compose_file(dir: &str, present: &[bool]) -> (r: Option<String>)
    ensures
        match r {
            None => forall|k: int| 0 <= k < 4 && k < present@.len() ==> !present@[k],
            Some(p) => exists|k: int|
                #[trigger] is_first_present(present@, k) && (plain_base(dir@) ==> path_joined(
                    p@,
                    dir@,
                    compose_file_names_spec()[k],
                )),
        },
{
    let names = compose_file_names();
    assert(names@.len() == views(names@).len());
    let mut k: usize = 0;
    while k < 4
        invariant
            views(names@) == compose_file_names_spec(),
            names@.len() == 4,
            k <= 4,
            forall|j: int| 0 <= j < k ==> !(j < present@.len() && present@[j]),
        decreases 4 - k,
    {
        if k < present.len() && present[k] {
            let name = names[k].as_str();
            proof {
                assert(views(names@)[k as int] == names@[k as int]@);
                assert(name@ == compose_file_names_spec()[k as int]);
                reveal_strlit("docker-compose.yml");
                reveal_strlit("docker-compose.yaml");
                reveal_strlit("compose.yml");
                reveal_strlit("compose.yaml");
                assert(relative_part(name@));
            }
            let p = join_path(dir, name);
            assert(is_first_present(present@, k as int));
            return Some(p);
        }
        k = k + 1;
    }
    None
}

/// A compose service's `build:` value: a context given directly, or a mapping with an
/// optional context and an optional Dockerfile.
#[derive(Debug, Clone)]
pub enum BuildValue {
    Shorthand(String),
    Detailed { context: Option<String>, dockerfile: Option<String> },
}

/// One service of a compose file, as parsed: its name and its `build:` value.
#[derive(Debug, Clone)]
pub struct ComposeService {
    pub name: String,
    pub build: Option<BuildValue>,
}

/// How to build one service. `context` is relative to the directory of the compose file.
#[derive(Debug, Clone, PartialEq, Eq)]
pub struct BuildSpec {
    pub context: String,
    pub dockerfile: Option<String>,
}

/// The keys of a compose service that sahai writes itself, in the override file:
/// published ports and the environment file. A user's own values for them are taken
/// out of the compose file before it is run, since compose adds the two files' lists
/// together rather than letting the override win.
pub fn is_managed_service_key(key: &str) -> (r: bool)
    ensures
        r == (key@ == "ports"@ || key@ == "env_file"@),
{
    str_eq(key, "ports") || str_eq(key, "env_file")
}

pub open spec fn service_names_spec(services: Seq<ComposeService>) -> Seq<Seq<char>> {
    services.map_values(|s: ComposeService| s.name@)
}

/// The names of all services, in file order.
pub fn service_names(services: &Vec<ComposeService>) -> (r: Vec<String>)
    ensures
        views(r@) == service_names_spec(services@),
{
    let mut out: Vec<String> = Vec::new();
    let mut k: usize = 0;
    while k < services.len()
        invariant
            k <= services@.len(),
            views(out@) == service_names_spec(services@.take(k as int)),
        decreases services@.len() - k,
    {
        let ghost before = out@;
        out.push(services[k].name.clone());
        assert(views(out@) =~= views(before).push(services@[k as int].name@));
        assert(service_names_spec(services@.take(k + 1)) =~= service_names_spec(services@.take(k as int)).push(
            services@[k as int].name@,
        ));
        k = k + 1;
    }
    assert(services@.take(services@.len() as int) =~= services@);
    out
}

/// The names of the services that have a `build:` key, in file order.
pub open spec fn build_service_names_spec(services: Seq<ComposeService>) -> Seq<Seq<char>>
    decreases services.len(),
{
    if services.len() == 0 {
        seq![]
    } else {
        build_service_names_spec(services.drop_last()) + if services.last().build is Some {
            seq![services.last().name@]
        } else {
            Seq::<Seq<char>>::empty()
        }
    }
}

/// The services to build: those with a `build:` key (the others use ready images).
pub fn build_service_names(services: &Vec<ComposeService>) -> (r: Vec<String>)
    ensures
        views(r@) == build_service_names_spec(services@),
{
    let mut out: Vec<String> = Vec::new();
    let mut k: usize = 0;
    while k < services.len()
        invariant
            k <= services@.len(),
            views(out@) == build_service_names_spec(services@.take(k as int)),
        decreases services@.len() - k,
    {
        assert(services@.take(k + 1).drop_last() =~= services@.take(k as int));
        if services[k].build.is_some() {
            out.push(services[k].name.clone());
        }
        assert(views(out@) =~= build_service_names_spec(services@.take(k + 1)));
        k = k + 1;
    }
    assert(services@.take(services@.len() as int) =~= services@);
    out
}

/// The build of a `build:` value: a shorthand is the context; a mapping's context
/// defaults to `.`.
pub open spec fn build_spec_of(b: BuildValue) -> (Seq<char>, Option<Seq<char>>) {
    match b {
        BuildValue::Shorthand(c) => (c@, None),
        BuildValue::Detailed { context, dockerfile } => (
            match context {
                Some(c) => c@,
                None => "."@,
            },
            match dockerfile {
                Some(d) => Some(d@),
                None => None,
            },
        ),
    }
}

pub open spec fn build_spec_view(s: BuildSpec) -> (Seq<char>, Option<Seq<char>>) {
    (
        s.context@,
        match s.dockerfile {
            Some(d) => Some(d@),
            None => None,
        },
    )
}

pub open spec fn build_specs_spec(services: Seq<ComposeService>) -> Seq<(Seq<char>, (Seq<char>, Option<Seq<char>>))>
    decreases services.len(),
{
    if services.len() == 0 {
        seq![]
    } else {
        let s = services.last();
        build_specs_spec(services.drop_last()) + match s.build {
            Some(b) => seq![(s.name@, build_spec_of(b))],
            None => Seq::<(Seq<char>, (Seq<char>, Option<Seq<char>>))>::empty(),
        }
    }
}

pub open spec fn specs_view(v: Seq<(String, BuildSpec)>) -> Seq<(Seq<char>, (Seq<char>, Option<Seq<char>>))> {
    v.map_values(|e: (String, BuildSpec)| (e.0@, build_spec_view(e.1)))
}

fn clone_opt(o: &Option<String>) -> (r: Option<String>)
    ensures
        r == *o,
{
    match o {
        Some(s) => Some(s.clone()),
        None => None,
    }
}

fn spec_of(b: &BuildValue) -> (r: BuildSpec)
    ensures
        build_spec_view(r) == build_spec_of(*b),
{
    match b {
        BuildValue::Shorthand(c) => BuildSpec { context: c.clone(), dockerfile: None },
        BuildValue::Detailed { context, dockerfile } => BuildSpec {
            context: match context {
                Some(c) => c.clone(),
                None => to_owned_str("."),
            },
            dockerfile: clone_opt(dockerfile),
        },
    }
}

/// The context and Dockerfile of each service that has a `build:` key, in the order
/// the services are given (by name, as a compose file is read).
/// Services can build from different contexts, so each is built on its own.
pub fn build_specs(services: &Vec<ComposeService>) -> (r: Vec<(String, BuildSpec)>)
    ensures
        specs_view(r@) == build_specs_spec(services@),
{
    let mut out: Vec<(String, BuildSpec)> = Vec::new();
    let mut k: usize = 0;
    while k < services.len()
        invariant
            k <= services@.len(),
            specs_view(out@) == build_specs_spec(services@.take(k as int)),
        decreases services@.len() - k,
    {
        assert(services@.take(k + 1).drop_last() =~= services@.take(k as int));
        let ghost before = out@;
        match &services[k].build {
            Some(b) => {
                let spec = spec_of(b);
                let name = services[k].name.clone();
                out.push((name, spec));
                assert(specs_view(out@) =~= specs_view(before).push(
                    (services@[k as int].name@, build_spec_of(*b)),
                ));
            },
            None => {},
        }
        assert(specs_view(out@) =~= build_specs_spec(services@.take(k + 1)));
        k = k + 1;
    }
    assert(services@.take(services@.len() as int) =~= services@);
    out
}

/// Lexicographic order of character sequences (the order of `str`).
pub open spec fn seq_lt(a: Seq<char>, b: Seq<char>) -> bool
    decreases a.len(),
{
    if a.len() == 0 {
        b.len() > 0
    } else if b.len() == 0 {
        false
    } else if a[0] < b[0] {
        true
    } else if a[0] > b[0] {
        false
    } else {
        seq_lt(a.drop_first(), b.drop_first())
    }
}

proof fn lemma_lt_irreflexive(a: Seq<char>)
    ensures
        !seq_lt(a, a),
    decreases a.len(),
{
    if a.len() > 0 {
        lemma_lt_irreflexive(a.drop_first());
    }
}

proof fn lemma_lt_total(a: Seq<char>, b: Seq<char>)
    ensures
        a != b ==> seq_lt(a, b) || seq_lt(b, a),
        !(seq_lt(a, b) && seq_lt(b, a)),
    decreases a.len(),
{
    if a.len() > 0 && b.len() > 0 {
        lemma_lt_total(a.drop_first(), b.drop_first());
        if a[0] == b[0] && a.drop_first() == b.drop_first() {
            assert(a =~= seq![a[0]] + a.drop_first());
            assert(b =~= seq![b[0]] + b.drop_first());
        }
    } else if a.len() == 0 && b.len() == 0 {
        assert(a =~= b);
    }
}

proof fn lemma_lt_transitive(a: Seq<char>, b: Seq<char>, c: Seq<char>)
    requires
        seq_lt(a, b),
        seq_lt(b, c),
    ensures
        seq_lt(a, c),
    decreases a.len(),
{
    if a.len() > 0 && b.len() > 0 && c.len() > 0 {
        if a[0] == b[0] && b[0] == c[0] {
            lemma_lt_transitive(a.drop_first(), b.drop_first(), c.drop_first());
        }
    }
}

/// `a < b` on strings.
pub fn str_lt(a: &str, b: &str) -> (r: bool)
    ensures
        r == seq_lt(a@, b@),
{
    let n = a.unicode_len();
    let m = b.unicode_len();
    let mut i: usize = 0;
    assert(a@.skip(0) =~= a@);
    assert(b@.skip(0) =~= b@);
    while i < n && i < m
        invariant
            n == a@.len(),
            m == b@.len(),
            i <= n,
            i <= m,
            seq_lt(a@, b@) == seq_lt(a@.skip(i as int), b@.skip(i as int)),
        decreases n - i,
    {
        let x = a.get_char(i);
        let y = b.get_char(i);
        assert(a@.skip(i as int)[0] == x);
        assert(b@.skip(i as int)[0] == y);
        if x < y {
            return true;
        }
        if x > y {
            return false;
        }
        assert(a@.skip(i as int).drop_first() =~= a@.skip(i + 1));
        assert(b@.skip(i as int).drop_first() =~= b@.skip(i + 1));
        i = i + 1;
    }
    i < m
}

pub open spec fn strictly_sorted(s: Seq<Seq<char>>) -> bool {
    forall|i: int, j: int| 0 <= i < j < s.len() ==> seq_lt(s[i], s[j])
}

/// `s` lists the members of `x`, in increasing order and each once: what walking a
/// sorted set gives.
pub open spec fn lists_sorted(s: Seq<Seq<char>>, x: Set<Seq<char>>) -> bool {
    &&& strictly_sorted(s)
    &&& forall|y: Seq<char>| s.contains(y) <==> x.contains(y)
}

fn insert_sorted(v: &mut Vec<String>, x: String)
    requires
        strictly_sorted(views(old(v)@)),
    ensures
        strictly_sorted(views(final(v)@)),
        forall|y: Seq<char>| views(final(v)@).contains(y) <==> (views(old(v)@).contains(y) || y == x@),
{
    let ghost s = views(v@);
    let mut p: usize = 0;
    while p < v.len() && str_lt(v[p].as_str(), x.as_str())
        invariant
            s == views(v@),
            strictly_sorted(s),
            p <= v@.len(),
            forall|k: int| 0 <= k < p ==> seq_lt(s[k], x@),
        decreases v@.len() - p,
    {
        p = p + 1;
    }
    if p < v.len() && str_eq(v[p].as_str(), x.as_str()) {
        assert(s.contains(x@)) by {
            assert(s[p as int] == x@);
        }
        return;
    }
    proof {
        if p < s.len() {
            lemma_lt_total(s[p as int], x@);
        }
    }
    let ghost xv = x@;
    v.insert(p, x);
    proof {
        let t = views(v@);
        assert(t =~= s.insert(p as int, xv));
        assert forall|i: int, j: int| 0 <= i < j < t.len() implies seq_lt(t[i], t[j]) by {
            if j < p {
            } else if j == p {
            } else if i < p {
                // t[j] == s[j-1] with j - 1 >= p
                if j - 1 > p {
                    lemma_lt_transitive(s[i], s[p as int], s[j - 1]);
                }
            } else if i == p {
                if j - 1 > p {
                    lemma_lt_transitive(xv, s[p as int], s[j - 1]);
                }
            } else {
            }
        }
        assert forall|y: Seq<char>| t.contains(y) <==> (s.contains(y) || y == xv) by {
            if t.contains(y) {
                let k = choose|k: int| 0 <= k < t.len() && t[k] == y;
                if k < p {
                    assert(s[k] == y);
                } else if k > p {
                    assert(s[k - 1] == y);
                }
            }
            if s.contains(y) {
                let k = choose|k: int| 0 <= k < s.len() && s[k] == y;
                if k < p {
                    assert(t[k] == y);
                } else {
                    assert(t[k + 1] == y);
                }
            }
            if y == xv {
                assert(t[p as int] == y);
            }
        }
    }
}

pub open spec fn name_set(s: Seq<String>) -> Set<Seq<char>> {
    Set::new(|y: Seq<char>| views(s).contains(y))
}

/// The containers to add, to remove and to keep when the compose content changes.
#[derive(Debug, Default, PartialEq, Eq)]
pub struct ContainerDiff {
    /// Services that need a new container.
    pub added: Vec<String>,
    /// Containers whose service is gone.
    pub removed: Vec<String>,
    /// Containers that stay, with their ids.
    pub kept: Vec<String>,
}

pub open spec fn added_set(existing: Seq<String>, desired: Seq<String>) -> Set<Seq<char>> {
    name_set(desired).difference(name_set(existing))
}

pub open spec fn removed_set(existing: Seq<String>, desired: Seq<String>) -> Set<Seq<char>> {
    name_set(existing).difference(name_set(desired))
}

pub open spec fn kept_set(existing: Seq<String>, desired: Seq<String>) -> Set<Seq<char>> {
    name_set(existing).intersect(name_set(desired))
}

/// Sorted, duplicate-free members of `from` that are (or are not) among `other`.
fn sorted_filter(from: &Vec<String>, other: &Vec<String>, keep_common: bool) -> (r: Vec<String>)
    ensures
        lists_sorted(
            views(r@),
            if keep_common {
                name_set(from@).intersect(name_set(other@))
            } else {
                name_set(from@).difference(name_set(other@))
            },
        ),
{
    let ghost target = if keep_common {
        name_set(from@).intersect(name_set(other@))
    } else {
        name_set(from@).difference(name_set(other@))
    };
    let mut out: Vec<String> = Vec::new();
    let mut k: usize = 0;
    while k < from.len()
        invariant
            k <= from@.len(),
            target == (if keep_common {
                name_set(from@).intersect(name_set(other@))
            } else {
                name_set(from@).difference(name_set(other@))
            }),
            strictly_sorted(views(out@)),
            forall|y: Seq<char>| #[trigger] views(out@).contains(y) <==> (views(from@.take(k as int)).contains(y)
                && target.contains(y)),
        decreases from@.len() - k,
    {
        let name = from[k].as_str();
        let common = crate::registration::contains_name(other, name);
        let ghost before = views(out@);
        assert(forall|y: Seq<char>| before.contains(y) <==> (views(from@.take(k as int)).contains(y) && target.contains(y)));
        if common == keep_common {
            insert_sorted(&mut out, from[k].clone());
        }
        proof {
            let fk = views(from@.take(k as int));
            let fk1 = views(from@.take(k + 1));
            assert(fk1 =~= fk.push(name@));
            assert(views(from@).contains(name@)) by {
                assert(views(from@)[k as int] == name@);
            }
            assert(name_set(from@).contains(name@));
            assert(name_set(other@).contains(name@) == common);
            assert(target.contains(name@) == (common == keep_common));
            assert forall|y: Seq<char>| views(out@).contains(y) <==> (fk1.contains(y) && target.contains(y)) by {
                assert(views(out@).contains(y) <==> (before.contains(y) || (common == keep_common && y == name@)));
                assert(before.contains(y) <==> (fk.contains(y) && target.contains(y)));
                assert(fk1.contains(y) <==> (fk.contains(y) || y == name@)) by {
                    if fk1.contains(y) {
                        let j = choose|j: int| 0 <= j < fk1.len() && fk1[j] == y;
                        if j < fk.len() {
                            assert(fk[j] == y);
                        }
                    }
                    if fk.contains(y) {
                        let j = choose|j: int| 0 <= j < fk.len() && fk[j] == y;
                        assert(fk1[j] == y);
                    }
                    if y == name@ {
                        assert(fk1[k as int] == y);
                    }
                }
            }
        }
        k = k + 1;
    }
    assert(from@.take(from@.len() as int) =~= from@);
    out
}

/// The difference between the containers a service has and the services of its new
/// compose content, each list sorted and free of duplicates. A renamed service is one
/// removal and one addition.
pub fn diff_container_names(existing: &Vec<String>, desired: &Vec<String>) -> (r: ContainerDiff)
    ensures
        lists_sorted(views(r.added@), added_set(existing@, desired@)),
        lists_sorted(views(r.removed@), removed_set(existing@, desired@)),
        lists_sorted(views(r.kept@), kept_set(existing@, desired@)),
{
    let added = sorted_filter(desired, existing, false);
    let removed = sorted_filter(existing, desired, false);
    let kept = sorted_filter(existing, desired, true);
    ContainerDiff { added, removed, kept }
}

/// The three lists of a diff split the names: kept and removed make up the existing
/// containers, kept and added the desired services, and no name is in two lists.
pub proof fn lemma_diff_partition(existing: Seq<String>, desired: Seq<String>)
    ensures
        kept_set(existing, desired).union(removed_set(existing, desired)) == name_set(existing),
        kept_set(existing, desired).union(added_set(existing, desired)) == name_set(desired),
        kept_set(existing, desired).disjoint(removed_set(existing, desired)),
        kept_set(existing, desired).disjoint(added_set(existing, desired)),
        added_set(existing, desired).disjoint(removed_set(existing, desired)),
{
    assert(kept_set(existing, desired).union(removed_set(existing, desired)) =~= name_set(existing));
    assert(kept_set(existing, desired).union(added_set(existing, desired)) =~= name_set(desired));
}

/// Two sorted duplicate-free lists of the same names are the same list.
pub proof fn lemma_lists_sorted_unique(a: Seq<Seq<char>>, b: Seq<Seq<char>>, x: Set<Seq<char>>)
    requires
        lists_sorted(a, x),
        lists_sorted(b, x),
    ensures
        a == b,
    decreases a.len() + b.len(),
{
    if a.len() == 0 {
        if b.len() > 0 {
            assert(b.contains(b[0]));
        }
        assert(a =~= b);
    } else if b.len() == 0 {
        assert(a.contains(a[0]));
    } else {
        // The least member of x heads both lists.
        assert(a.contains(a[0]));
        assert(b.contains(b[0]));
        let ja = choose|j: int| 0 <= j < b.len() && b[j] == a[0];
        let jb = choose|j: int| 0 <= j < a.len() && a[j] == b[0];
        if ja > 0 {
            assert(seq_lt(b[0], a[0]));
            if jb > 0 {
                assert(seq_lt(a[0], b[0]));
                lemma_lt_total(a[0], b[0]);
            } else {
                lemma_lt_irreflexive(b[0]);
            }
        }
        assert(a[0] == b[0]);
        let x2 = x.remove(a[0]);
        let a2 = a.drop_first();
        let b2 = b.drop_first();
        assert forall|y: Seq<char>| a2.contains(y) <==> x2.contains(y) by {
            if a2.contains(y) {
                let j = choose|j: int| 0 <= j < a2.len() && a2[j] == y;
                assert(a[j + 1] == y);
                assert(seq_lt(a[0], a[j + 1]));
                if y == a[0] {
                    lemma_lt_irreflexive(y);
                }
            }
            if x2.contains(y) {
                assert(a.contains(y));
                let j = choose|j: int| 0 <= j < a.len() && a[j] == y;
                assert(j != 0);
                assert(a2[j - 1] == y);
            }
        }
        assert forall|y: Seq<char>| b2.contains(y) <==> x2.contains(y) by {
            if b2.contains(y) {
                let j = choose|j: int| 0 <= j < b2.len() && b2[j] == y;
                assert(b[j + 1] == y);
                assert(seq_lt(b[0], b[j + 1]));
                if y == b[0] {
                    lemma_lt_irreflexive(y);
                }
            }
            if x2.contains(y) {
                assert(b.contains(y));
                let j = choose|j: int| 0 <= j < b.len() && b[j] == y;
                assert(j != 0);
                assert(b2[j - 1] == y);
            }
        }
        lemma_lists_sorted_unique(a2, b2, x2);
        assert(a =~= b) by {
            assert forall|i: int| 0 <= i < a.len() implies a[i] == b[i] by {
                if i > 0 {
                    assert(a2[i - 1] == b2[i - 1]);
                }
            }
        }
    }
}

} // verus!
