//! Traefik dynamic configuration, planned as data: the per-service route file,
//! the admin/registry/catch-all routes and the routes used before setup.
//! Writing the YAML file is left to the caller.

use vstd::prelude::*;
use vstd::string::*;

use crate::domain::{ContainerWithChildren, ServiceDetail, ServicePort};
use crate::keyed::{entries_map, keyed_insert, names_unique};
use crate::naming::{container_docker_name, svc_name_spec};
use crate::validation::{lemma_underscore_never_a_service_name, service_name_error};
use crate::text::{
    dec_int, push_i64, push_str, replace_char, replace_char_spec, to_owned_str,
};

verus! {

pub const ENTRY_POINT_WEB: &'static str = "web";

pub const ENTRY_POINT_WEBSECURE: &'static str = "websecure";

/// TLS block of a per-service router. Its presence makes the router HTTPS-only.
#[derive(Debug, Clone)]
pub struct Tls {
    pub cert_resolver: Option<String>,
}

pub struct TlsView {
    pub cert_resolver: Option<Seq<char>>,
}

impl View for Tls {
    type V = TlsView;

    open spec fn view(&self) -> TlsView {
        TlsView { cert_resolver: self.cert_resolver.deep_view() }
    }
}

/// A per-service router.
#[derive(Debug, Clone)]
pub struct Router {
    pub rule: String,
    pub service: String,
    pub entry_points: Option<Vec<String>>,
    pub tls: Option<Tls>,
}

pub struct RouterView {
    pub rule: Seq<char>,
    pub service: Seq<char>,
    pub entry_points: Option<Seq<Seq<char>>>,
    pub tls: Option<TlsView>,
}

impl View for Router {
    type V = RouterView;

    open spec fn view(&self) -> RouterView {
        RouterView {
            rule: self.rule@,
            service: self.service@,
            entry_points: self.entry_points.deep_view(),
            tls: match self.tls {
                Some(t) => Some(t@),
                None => None,
            },
        }
    }
}

/// Certificate domains of the catch-all route (a wildcard certificate).
#[derive(Debug, Clone)]
pub struct TlsDomain {
    pub main: String,
    pub sans: Vec<String>,
}

pub struct TlsDomainView {
    pub main: Seq<char>,
    pub sans: Seq<Seq<char>>,
}

impl View for TlsDomain {
    type V = TlsDomainView;

    open spec fn view(&self) -> TlsDomainView {
        TlsDomainView { main: self.main@, sans: self.sans.deep_view() }
    }
}

pub open spec fn domains_view(d: Option<Vec<TlsDomain>>) -> Option<Seq<TlsDomainView>> {
    match d {
        Some(v) => Some(v@.map_values(|x: TlsDomain| x@)),
        None => None,
    }
}

/// TLS block of one of sahai's own routers.
#[derive(Debug, Clone)]
pub struct StaticTls {
    pub cert_resolver: Option<String>,
    pub domains: Option<Vec<TlsDomain>>,
}

pub struct StaticTlsView {
    pub cert_resolver: Option<Seq<char>>,
    pub domains: Option<Seq<TlsDomainView>>,
}

impl View for StaticTls {
    type V = StaticTlsView;

    open spec fn view(&self) -> StaticTlsView {
        StaticTlsView {
            cert_resolver: self.cert_resolver.deep_view(),
            domains: domains_view(self.domains),
        }
    }
}

/// One of sahai's own routers (admin UI, registry, catch-all, HTTPS redirect).
#[derive(Debug, Clone)]
pub struct StaticRouter {
    pub rule: String,
    pub service: String,
    pub priority: u32,
    pub entry_points: Option<Vec<String>>,
    pub middlewares: Option<Vec<String>>,
    pub tls: Option<StaticTls>,
}

pub struct StaticRouterView {
    pub rule: Seq<char>,
    pub service: Seq<char>,
    pub priority: u32,
    pub entry_points: Option<Seq<Seq<char>>>,
    pub middlewares: Option<Seq<Seq<char>>>,
    pub tls: Option<StaticTlsView>,
}

impl View for StaticRouter {
    type V = StaticRouterView;

    open spec fn view(&self) -> StaticRouterView {
        StaticRouterView {
            rule: self.rule@,
            service: self.service@,
            priority: self.priority,
            entry_points: self.entry_points.deep_view(),
            middlewares: self.middlewares.deep_view(),
            tls: match self.tls {
                Some(t) => Some(t@),
                None => None,
            },
        }
    }
}

/// Redirect of plain HTTP to another scheme.
#[derive(Debug, Clone)]
pub struct RedirectScheme {
    pub scheme: String,
    pub permanent: bool,
}

#[derive(Debug, Clone)]
pub struct StaticMiddleware {
    pub redirect_scheme: RedirectScheme,
}

pub struct StaticMiddlewareView {
    pub scheme: Seq<char>,
    pub permanent: bool,
}

impl View for StaticMiddleware {
    type V = StaticMiddlewareView;

    open spec fn view(&self) -> StaticMiddlewareView {
        StaticMiddlewareView {
            scheme: self.redirect_scheme.scheme@,
            permanent: self.redirect_scheme.permanent,
        }
    }
}

/// A Traefik service: the URLs it load-balances over.
#[derive(Debug, Clone)]
pub struct TraefikService {
    pub server_urls: Vec<String>,
}

impl View for TraefikService {
    type V = Seq<Seq<char>>;

    open spec fn view(&self) -> Seq<Seq<char>> {
        self.server_urls.deep_view()
    }
}

/// Route file of one service.
pub struct DynamicConfig {
    pub routers: Vec<(String, Router)>,
    pub services: Vec<(String, TraefikService)>,
}

/// Route file of sahai's own routes.
pub struct StaticDynamicConfig {
    pub routers: Vec<(String, StaticRouter)>,
    pub services: Vec<(String, TraefikService)>,
    pub middlewares: Option<Vec<(String, StaticMiddleware)>>,
}

pub open spec fn one(s: Seq<char>) -> Option<Seq<Seq<char>>> {
    Some(seq![s])
}

pub open spec fn twin_name_spec(base: Seq<char>) -> Seq<char> {
    base + "_tls"@
}

/// Name of the HTTPS router paired with a plain-HTTP one: `<base>_tls`.
/// Service names cannot hold `_`, so it collides with none of them.
pub fn tls_twin_router_name(base: &str) -> (r: String)
    ensures
        r@ == twin_name_spec(base@),
{
    let mut s = to_owned_str(base);
    push_str(&mut s, "_tls");
    s
}

/// The HTTPS twin of a router takes a name that no service can have, whatever the
/// router's own name.
pub proof fn lemma_tls_twin_never_a_service_name(base: Seq<char>)
    ensures
        service_name_error(twin_name_spec(base)) is Some,
{
    reveal_strlit("_tls");
    let t = twin_name_spec(base);
    assert(t[base.len() as int] == '_');
    lemma_underscore_never_a_service_name(t);
}

/// One logical route of sahai's own: router name, target service, rule, priority,
/// the certificate resolver used when HTTPS is enforced, and wildcard domains if any.
pub struct StaticRouteSpec<'a> {
    pub name: &'a str,
    pub service: &'a str,
    pub rule: String,
    pub priority: u32,
    pub cert_resolver: &'a str,
    pub domains: Option<Vec<TlsDomain>>,
}

/// The routers after registering one logical route: with `https_redirect` a single
/// websecure router with the resolver; otherwise a plain `web` router without TLS and
/// a `websecure` twin with TLS but no resolver and no domains.
pub open spec fn router_pair_spec(
    m: Map<Seq<char>, StaticRouterView>,
    name: Seq<char>,
    service: Seq<char>,
    rule: Seq<char>,
    priority: u32,
    cert_resolver: Seq<char>,
    domains: Option<Seq<TlsDomainView>>,
    https_redirect: bool,
) -> Map<Seq<char>, StaticRouterView> {
    if https_redirect {
        m.insert(
            name,
            StaticRouterView {
                rule,
                service,
                priority,
                entry_points: one("websecure"@),
                middlewares: None,
                tls: Some(StaticTlsView { cert_resolver: Some(cert_resolver), domains }),
            },
        )
    } else {
        m.insert(
            name,
            StaticRouterView {
                rule,
                service,
                priority,
                entry_points: one("web"@),
                middlewares: None,
                tls: None,
            },
        ).insert(
            twin_name_spec(name),
            StaticRouterView {
                rule,
                service,
                priority,
                entry_points: one("websecure"@),
                middlewares: None,
                tls: Some(StaticTlsView { cert_resolver: None, domains: None }),
            },
        )
    }
}

fn str_vec1(s: &str) -> (r: Vec<String>)
    ensures
        r.deep_view() == seq![s@],
{
    let mut v: Vec<String> = Vec::new();
    v.push(to_owned_str(s));
    assert(v.deep_view() =~= seq![s@]);
    v
}

/// Registers the routers of one logical route (see `router_pair_spec`).
pub fn insert_static_router_pair(
    routers: &mut Vec<(String, StaticRouter)>,
    spec: StaticRouteSpec<'_>,
    https_redirect: bool,
)
    ensures
        entries_map(final(routers)@) == router_pair_spec(
            entries_map(old(routers)@),
            spec.name@,
            spec.service@,
            spec.rule@,
            spec.priority,
            spec.cert_resolver@,
            domains_view(spec.domains),
            https_redirect,
        ),
        names_unique(old(routers)@) ==> names_unique(final(routers)@),
{
    let StaticRouteSpec { name, service, rule, priority, cert_resolver, domains } = spec;
    if https_redirect {
        let r = StaticRouter {
            rule,
            service: to_owned_str(service),
            priority,
            entry_points: Some(str_vec1(ENTRY_POINT_WEBSECURE)),
            middlewares: None,
            tls: Some(StaticTls { cert_resolver: Some(to_owned_str(cert_resolver)), domains }),
        };
        keyed_insert(routers, to_owned_str(name), r);
        return ;
    }
    let plain = StaticRouter {
        rule: rule.clone(),
        service: to_owned_str(service),
        priority,
        entry_points: Some(str_vec1(ENTRY_POINT_WEB)),
        middlewares: None,
        tls: None,
    };
    keyed_insert(routers, to_owned_str(name), plain);
    let twin = StaticRouter {
        rule,
        service: to_owned_str(service),
        priority,
        entry_points: Some(str_vec1(ENTRY_POINT_WEBSECURE)),
        middlewares: None,
        tls: Some(StaticTls { cert_resolver: None, domains: None }),
    };
    keyed_insert(routers, tls_twin_router_name(name), twin);
}


pub open spec fn middlewares_view(m: Option<Vec<(String, StaticMiddleware)>>) -> Option<
    Map<Seq<char>, StaticMiddlewareView>,
> {
    match m {
        Some(v) => Some(entries_map(v@)),
        None => None,
    }
}

pub open spec fn admin_rule_spec(domain: Seq<char>) -> Seq<char> {
    "Host(`sahai."@ + domain + "`)"@
}

pub open spec fn registry_rule_spec(domain: Seq<char>) -> Seq<char> {
    "Host(`registry.sahai."@ + domain + "`)"@
}

/// `HostRegexp` matching every subdomain of `domain`, with the dots of `domain` escaped.
pub open spec fn catchall_rule_spec(domain: Seq<char>) -> Seq<char> {
    "HostRegexp(`^.+\\."@ + replace_char_spec(domain, '.', "\\."@) + "$`)"@
}

pub open spec fn registry_router_spec(domain: Seq<char>, https_redirect: bool, cert_resolver: Seq<
    char,
>) -> StaticRouterView {
    StaticRouterView {
        rule: registry_rule_spec(domain),
        service: "sahai_registry"@,
        priority: 100,
        entry_points: one("websecure"@),
        middlewares: None,
        tls: Some(
            StaticTlsView {
                cert_resolver: if https_redirect {
                    Some(cert_resolver)
                } else {
                    None
                },
                domains: None,
            },
        ),
    }
}

pub open spec fn redirect_router_spec() -> StaticRouterView {
    StaticRouterView {
        rule: "PathPrefix(`/`)"@,
        service: "sahai_app"@,
        priority: 1,
        entry_points: one("web"@),
        middlewares: one("sahai_https_redirect"@),
        tls: None,
    }
}

pub open spec fn wildcard_domains_spec(domain: Seq<char>) -> Option<Seq<TlsDomainView>> {
    Some(seq![TlsDomainView { main: domain, sans: seq!["*."@ + domain] }])
}

/// Routers of sahai's own routes once the domain is known: the admin UI at
/// `sahai.<domain>`, the registry at `registry.sahai.<domain>` (always HTTPS, with a
/// resolver only when HTTPS is enforced), the low-priority catch-all for every other
/// subdomain and, when HTTPS is enforced, the redirect of plain HTTP.
pub open spec fn static_admin_routers_spec(domain: Seq<char>, https_redirect: bool, cert_resolver: Seq<
    char,
>) -> Map<Seq<char>, StaticRouterView> {
    let m0 = router_pair_spec(
        Map::empty(),
        "sahai_app"@,
        "sahai_app"@,
        admin_rule_spec(domain),
        100,
        cert_resolver,
        None,
        https_redirect,
    );
    let m1 = m0.insert("sahai_registry"@, registry_router_spec(domain, https_redirect, cert_resolver));
    let m2 = router_pair_spec(
        m1,
        "sahai_catchall"@,
        "sahai_app"@,
        catchall_rule_spec(domain),
        1,
        cert_resolver,
        wildcard_domains_spec(domain),
        https_redirect,
    );
    if https_redirect {
        m2.insert("sahai_https_redirect"@, redirect_router_spec())
    } else {
        m2
    }
}

/// Every router with TLS listens on `websecure` alone, every router without on `web`
/// alone.
pub open spec fn entry_points_follow_tls(m: Map<Seq<char>, StaticRouterView>) -> bool {
    forall|k: Seq<char>|
        #[trigger] m.dom().contains(k) ==> (m[k].tls is Some ==> m[k].entry_points == Some(seq!["websecure"@])) && (
        m[k].tls is None ==> m[k].entry_points == Some(seq!["web"@]))
}

/// Every router with TLS has the certificate resolver `cr` (`Some`) or none (`None`).
pub open spec fn resolvers_are(m: Map<Seq<char>, StaticRouterView>, cr: Option<Seq<char>>) -> bool {
    forall|k: Seq<char>| #[trigger] m.dom().contains(k) ==> (m[k].tls matches Some(t) ==> t.cert_resolver == cr)
}

/// Only the router named `only` may lack TLS.
pub open spec fn tls_everywhere_but(m: Map<Seq<char>, StaticRouterView>, only: Seq<char>) -> bool {
    forall|k: Seq<char>| #[trigger] m.dom().contains(k) ==> (m[k].tls is None ==> k == only)
}

proof fn lemma_router_pair_keeps(
    m: Map<Seq<char>, StaticRouterView>,
    name: Seq<char>,
    service: Seq<char>,
    rule: Seq<char>,
    priority: u32,
    cr: Seq<char>,
    domains: Option<Seq<TlsDomainView>>,
    https_redirect: bool,
    only: Seq<char>,
)
    ensures
        ({
            let m2 = router_pair_spec(m, name, service, rule, priority, cr, domains, https_redirect);
            &&& entry_points_follow_tls(m) ==> entry_points_follow_tls(m2)
            &&& https_redirect && resolvers_are(m, Some(cr)) ==> resolvers_are(m2, Some(cr))
            &&& !https_redirect && resolvers_are(m, None) ==> resolvers_are(m2, None)
            &&& https_redirect && tls_everywhere_but(m, only) ==> tls_everywhere_but(m2, only)
            &&& m2.dom().contains(name)
            &&& forall|k: Seq<char>| m.dom().contains(k) ==> #[trigger] m2.dom().contains(k)
        }),
{
}

/// sahai's own routes follow the same rule as a service's: a router with TLS listens on
/// `websecure` alone and one without on `web` alone. With the HTTPS redirect every
/// router but the redirect itself has TLS with the certificate resolver, and the
/// redirect sends plain HTTP through the `https` middleware; without it there is no
/// redirect and no router asks for a certificate. The admin UI, the registry and the
/// catch-all are always routed.
pub proof fn lemma_static_admin_routers_entry_points(domain: Seq<char>, https_redirect: bool, cr: Seq<char>)
    ensures
        ({
            let m = static_admin_routers_spec(domain, https_redirect, cr);
            &&& entry_points_follow_tls(m)
            &&& m.dom().contains("sahai_app"@)
            &&& m.dom().contains("sahai_registry"@)
            &&& m.dom().contains("sahai_catchall"@)
            &&& https_redirect ==> resolvers_are(m, Some(cr)) && tls_everywhere_but(m, "sahai_https_redirect"@)
                && m.dom().contains("sahai_https_redirect"@) && m["sahai_https_redirect"@].middlewares == Some(
                seq!["sahai_https_redirect"@],
            ) && m["sahai_https_redirect"@].rule == "PathPrefix(`/`)"@
            &&& !https_redirect ==> resolvers_are(m, None)
        }),
{
    let e = Map::<Seq<char>, StaticRouterView>::empty();
    let red = "sahai_https_redirect"@;
    lemma_router_pair_keeps(e, "sahai_app"@, "sahai_app"@, admin_rule_spec(domain), 100, cr, None, https_redirect, red);
    let m0 = router_pair_spec(e, "sahai_app"@, "sahai_app"@, admin_rule_spec(domain), 100, cr, None, https_redirect);
    let m1 = m0.insert("sahai_registry"@, registry_router_spec(domain, https_redirect, cr));
    lemma_router_pair_keeps(
        m1,
        "sahai_catchall"@,
        "sahai_app"@,
        catchall_rule_spec(domain),
        1,
        cr,
        wildcard_domains_spec(domain),
        https_redirect,
        red,
    );
    let m2 = router_pair_spec(
        m1,
        "sahai_catchall"@,
        "sahai_app"@,
        catchall_rule_spec(domain),
        1,
        cr,
        wildcard_domains_spec(domain),
        https_redirect,
    );
    assert(m1.dom().contains("sahai_app"@));
    assert(m2.dom().contains("sahai_app"@));
    assert(m2.dom().contains("sahai_registry"@));
}

pub open spec fn static_admin_services_spec(app_url: Seq<char>, registry_url: Seq<char>) -> Map<
    Seq<char>,
    Seq<Seq<char>>,
> {
    Map::empty().insert("sahai_app"@, seq![app_url]).insert("sahai_registry"@, seq![registry_url])
}

pub open spec fn static_admin_middlewares_spec(https_redirect: bool) -> Option<
    Map<Seq<char>, StaticMiddlewareView>,
> {
    if https_redirect {
        Some(
            Map::empty().insert(
                "sahai_https_redirect"@,
                StaticMiddlewareView { scheme: "https"@, permanent: true },
            ),
        )
    } else {
        None
    }
}

fn url_service(url: &str) -> (r: TraefikService)
    ensures
        r@ == seq![url@],
{
    TraefikService { server_urls: str_vec1(url) }
}

/// The admin, registry and catch-all routes for `domain` (see `static_admin_routers_spec`).
pub fn plan_static_admin_routes(
    domain: &str,
    https_redirect: bool,
    cert_resolver: &str,
    app_internal_url: &str,
    registry_internal_url: &str,
) -> (r: StaticDynamicConfig)
    ensures
        entries_map(r.routers@) == static_admin_routers_spec(domain@, https_redirect, cert_resolver@),
        entries_map(r.services@) == static_admin_services_spec(app_internal_url@, registry_internal_url@),
        middlewares_view(r.middlewares) == static_admin_middlewares_spec(https_redirect),
        names_unique(r.routers@),
        names_unique(r.services@),
        r.middlewares matches Some(m) ==> names_unique(m@),
{
    let mut admin_rule = to_owned_str("Host(`sahai.");
    push_str(&mut admin_rule, domain);
    push_str(&mut admin_rule, "`)");
    let mut registry_rule = to_owned_str("Host(`registry.sahai.");
    push_str(&mut registry_rule, domain);
    push_str(&mut registry_rule, "`)");
    let escaped = replace_char(domain, '.', "\\.");
    let mut catchall_rule = to_owned_str("HostRegexp(`^.+\\.");
    push_str(&mut catchall_rule, escaped.as_str());
    push_str(&mut catchall_rule, "$`)");

    let mut routers: Vec<(String, StaticRouter)> = Vec::new();
    insert_static_router_pair(
        &mut routers,
        StaticRouteSpec {
            name: "sahai_app",
            service: "sahai_app",
            rule: admin_rule,
            priority: 100,
            cert_resolver,
            domains: None,
        },
        https_redirect,
    );
    let registry_router = StaticRouter {
        rule: registry_rule,
        service: to_owned_str("sahai_registry"),
        priority: 100,
        entry_points: Some(str_vec1(ENTRY_POINT_WEBSECURE)),
        middlewares: None,
        tls: Some(
            StaticTls {
                cert_resolver: if https_redirect {
                    Some(to_owned_str(cert_resolver))
                } else {
                    None
                },
                domains: None,
            },
        ),
    };
    keyed_insert(&mut routers, to_owned_str("sahai_registry"), registry_router);

    let mut wildcard = to_owned_str("*.");
    push_str(&mut wildcard, domain);
    let mut sans: Vec<String> = Vec::new();
    sans.push(wildcard);
    assert(sans.deep_view() =~= seq!["*."@ + domain@]);
    let mut domains: Vec<TlsDomain> = Vec::new();
    domains.push(TlsDomain { main: to_owned_str(domain), sans });
    proof {
        assert(domains@.map_values(|x: TlsDomain| x@) =~= seq![
            TlsDomainView { main: domain@, sans: seq!["*."@ + domain@] },
        ]);
    }
    insert_static_router_pair(
        &mut routers,
        StaticRouteSpec {
            name: "sahai_catchall",
            service: "sahai_app",
            rule: catchall_rule,
            priority: 1,
            cert_resolver,
            domains: Some(domains),
        },
        https_redirect,
    );

    let mut middlewares: Option<Vec<(String, StaticMiddleware)>> = None;
    if https_redirect {
        let mut mw: Vec<(String, StaticMiddleware)> = Vec::new();
        keyed_insert(
            &mut mw,
            to_owned_str("sahai_https_redirect"),
            StaticMiddleware {
                redirect_scheme: RedirectScheme { scheme: to_owned_str("https"), permanent: true },
            },
        );
        middlewares = Some(mw);
        let redirect = StaticRouter {
            rule: to_owned_str("PathPrefix(`/`)"),
            service: to_owned_str("sahai_app"),
            priority: 1,
            entry_points: Some(str_vec1(ENTRY_POINT_WEB)),
            middlewares: Some(str_vec1("sahai_https_redirect")),
            tls: None,
        };
        keyed_insert(&mut routers, to_owned_str("sahai_https_redirect"), redirect);
    }

    let mut services: Vec<(String, TraefikService)> = Vec::new();
    keyed_insert(&mut services, to_owned_str("sahai_app"), url_service(app_internal_url));
    keyed_insert(&mut services, to_owned_str("sahai_registry"), url_service(registry_internal_url));
    StaticDynamicConfig { routers, services, middlewares }
}

/// No router and no service of sahai's own routes, set up or not, has a name that a
/// service could have, so Traefik's merged configuration never mixes them with a
/// service's routes.
pub proof fn lemma_own_route_names_never_service_names(
    domain: Seq<char>,
    https_redirect: bool,
    cert_resolver: Seq<char>,
    app_url: Seq<char>,
    registry_url: Seq<char>,
    name: Seq<char>,
)
    requires
        static_admin_routers_spec(domain, https_redirect, cert_resolver).dom().contains(name)
            || static_admin_services_spec(app_url, registry_url).dom().contains(name)
            || router_pair_spec(
            Map::empty(),
            "sahai_app"@,
            "sahai_app"@,
            "PathPrefix(`/`)"@,
            1,
            cert_resolver,
            None,
            false,
        ).dom().contains(name),
    ensures
        service_name_error(name) is Some,
{
    reveal_strlit("sahai_app");
    reveal_strlit("sahai_registry");
    reveal_strlit("sahai_catchall");
    reveal_strlit("sahai_https_redirect");
    reveal_strlit("_tls");
    assert(5 < name.len() && name[5] == '_');
    lemma_underscore_never_a_service_name(name);
}

/// Routes used before setup, when no domain is known: every request, on either
/// entry point, reaches the admin UI.
pub fn plan_bootstrap_routes(cert_resolver: &str, app_internal_url: &str) -> (r: StaticDynamicConfig)
    ensures
        entries_map(r.routers@) == router_pair_spec(
            Map::empty(),
            "sahai_app"@,
            "sahai_app"@,
            "PathPrefix(`/`)"@,
            1,
            cert_resolver@,
            None,
            false,
        ),
        entries_map(r.services@) == Map::<Seq<char>, Seq<Seq<char>>>::empty().insert(
            "sahai_app"@,
            seq![app_internal_url@],
        ),
        r.middlewares is None,
        names_unique(r.routers@),
        names_unique(r.services@),
{
    let mut routers: Vec<(String, StaticRouter)> = Vec::new();
    insert_static_router_pair(
        &mut routers,
        StaticRouteSpec {
            name: "sahai_app",
            service: "sahai_app",
            rule: to_owned_str("PathPrefix(`/`)"),
            priority: 1,
            cert_resolver,
            domains: None,
        },
        false,
    );
    let mut services: Vec<(String, TraefikService)> = Vec::new();
    keyed_insert(&mut services, to_owned_str("sahai_app"), url_service(app_internal_url));
    StaticDynamicConfig { routers, services, middlewares: None }
}


pub open spec fn has_http_port(ps: Seq<ServicePort>) -> bool {
    exists|j: int| 0 <= j < ps.len() && ps[j].is_http
}

pub open spec fn is_first_http_port(ps: Seq<ServicePort>, j: int) -> bool {
    0 <= j < ps.len() && ps[j].is_http && forall|k: int| 0 <= k < j ==> !ps[k].is_http
}

pub open spec fn is_first_http_container(cs: Seq<ContainerWithChildren>, i: int) -> bool {
    &&& 0 <= i < cs.len()
    &&& has_http_port(cs[i].ports@)
    &&& forall|k: int| 0 <= k < i ==> !has_http_port(cs[k].ports@)
}

/// Where a service's subdomain is sent: the first `is_http` port of the first container
/// that has one, reached by container name on the shared network; otherwise sahai's own
/// UI, which shows the service's ports.
pub open spec fn target_url_spec(cs: Seq<ContainerWithChildren>, app_url: Seq<char>) -> Seq<char> {
    if exists|i: int| 0 <= i < cs.len() && has_http_port(cs[i].ports@) {
        let i = choose|i: int| is_first_http_container(cs, i);
        let j = choose|j: int| is_first_http_port(cs[i].ports@, j);
        "http://"@ + svc_name_spec(cs[i].container.id as int) + ":"@ + dec_int(
            cs[i].ports@[j].container_port as int,
        )
    } else {
        app_url
    }
}

/// A service's subdomain goes to sahai's own UI exactly when no container has an HTTP
/// port. Otherwise it goes to `http://svc-<id>:<port>` for the HTTP port that comes
/// first: in the first container that has any, its first one.
pub proof fn lemma_target_is_first_http_port(cs: Seq<ContainerWithChildren>, app_url: Seq<char>, i: int, j: int)
    ensures
        (forall|a: int, b: int| 0 <= a < cs.len() && 0 <= b < cs[a].ports@.len() ==> !cs[a].ports@[b].is_http)
            ==> target_url_spec(cs, app_url) == app_url,
        ({
            &&& 0 <= i < cs.len()
            &&& 0 <= j < cs[i].ports@.len()
            &&& cs[i].ports@[j].is_http
            &&& forall|a: int, b: int| 0 <= a < i && 0 <= b < cs[a].ports@.len() ==> !cs[a].ports@[b].is_http
            &&& forall|b: int| 0 <= b < j ==> !cs[i].ports@[b].is_http
        }) ==> target_url_spec(cs, app_url) == "http://svc-"@ + dec_int(cs[i].container.id as int) + ":"@
            + dec_int(cs[i].ports@[j].container_port as int),
{
    if forall|a: int, b: int| 0 <= a < cs.len() && 0 <= b < cs[a].ports@.len() ==> !cs[a].ports@[b].is_http {
        if exists|a: int| 0 <= a < cs.len() && has_http_port(cs[a].ports@) {
            let a = choose|a: int| 0 <= a < cs.len() && has_http_port(cs[a].ports@);
            let b = choose|b: int| 0 <= b < cs[a].ports@.len() && cs[a].ports@[b].is_http;
        }
    }
    if 0 <= i < cs.len() && 0 <= j < cs[i].ports@.len() && cs[i].ports@[j].is_http && (forall|a: int, b: int|
        0 <= a < i && 0 <= b < cs[a].ports@.len() ==> !cs[a].ports@[b].is_http) && (forall|b: int|
        0 <= b < j ==> !cs[i].ports@[b].is_http) {
        assert(has_http_port(cs[i].ports@));
        assert(is_first_http_container(cs, i)) by {
            assert forall|k: int| 0 <= k < i implies !has_http_port(cs[k].ports@) by {
                if has_http_port(cs[k].ports@) {
                    let b = choose|b: int| 0 <= b < cs[k].ports@.len() && cs[k].ports@[b].is_http;
                }
            }
        }
        let ii = choose|ii: int| is_first_http_container(cs, ii);
        assert(ii == i) by {
            if ii < i {
                assert(!has_http_port(cs[ii].ports@));
            } else if ii > i {
                assert(has_http_port(cs[i].ports@));
            }
        }
        assert(is_first_http_port(cs[i].ports@, j));
        let jj = choose|jj: int| is_first_http_port(cs[i].ports@, jj);
        assert(jj == j) by {
            if jj > j {
                assert(cs[i].ports@[j].is_http);
            }
        }
        assert("http://"@ + svc_name_spec(cs[i].container.id as int) =~= "http://svc-"@ + dec_int(
            cs[i].container.id as int,
        )) by {
            reveal_strlit("http://");
            reveal_strlit("svc-");
            reveal_strlit("http://svc-");
        }
    }
}

/// The routed target of a service (see `target_url_spec`).
pub fn resolve_target_url(service: &ServiceDetail, app_internal_url: &str) -> (r: String)
    ensures
        r@ == target_url_spec(service.containers@, app_internal_url@),
{
    let cs = &service.containers;
    let n = cs.len();
    let mut i: usize = 0;
    while i < n
        invariant
            cs@ == service.containers@,
            n == cs@.len(),
            i <= n,
            forall|k: int| 0 <= k < i ==> !has_http_port(#[trigger] cs@[k].ports@),
        decreases n - i,
    {
        let ports = &cs[i].ports;
        let m = ports.len();
        let mut j: usize = 0;
        while j < m
            invariant
                cs@ == service.containers@,
                n == cs@.len(),
                i < n,
                ports@ == cs@[i as int].ports@,
                forall|k: int| 0 <= k < i ==> !has_http_port(#[trigger] cs@[k].ports@),
                m == ports@.len(),
                j <= m,
                forall|k: int| 0 <= k < j ==> !ports@[k].is_http,
            decreases m - j,
        {
            if ports[j].is_http {
                let mut url = to_owned_str("http://");
                let name = container_docker_name(cs[i].container.id);
                push_str(&mut url, name.as_str());
                push_str(&mut url, ":");
                push_i64(&mut url, ports[j].container_port);
                proof {
                    assert(cs@[i as int].ports@[j as int].is_http);
                    assert(has_http_port(cs@[i as int].ports@));
                    assert(0 <= i < cs@.len() && has_http_port(cs@[i as int].ports@));
                    assert(is_first_http_port(cs@[i as int].ports@, j as int));
                    assert(is_first_http_container(cs@, i as int));
                    let ii = choose|ii: int| is_first_http_container(cs@, ii);
                    assert(ii == i) by {
                        if ii < i {
                            assert(!has_http_port(cs@[ii].ports@));
                        } else if ii > i {
                            assert(has_http_port(cs@[i as int].ports@));
                        }
                    }
                    let jj = choose|jj: int| is_first_http_port(cs@[i as int].ports@, jj);
                    assert(jj == j) by {
                        if jj < j {
                        } else if jj > j {
                            assert(cs@[i as int].ports@[j as int].is_http);
                        }
                    }
                    assert(url@ =~= "http://"@ + svc_name_spec(cs@[i as int].container.id as int) + ":"@ + dec_int(
                        cs@[i as int].ports@[j as int].container_port as int));
                }
                return url;
            }
            j = j + 1;
        }
        assert(!has_http_port(cs@[i as int].ports@));
        i = i + 1;
    }
    to_owned_str(app_internal_url)
}

pub open spec fn host_rule_spec(subdomain: Seq<char>) -> Seq<char> {
    "Host(`"@ + subdomain + "`)"@
}

/// Routers of a service's route file: with `https_redirect` one HTTPS router with the
/// resolver; otherwise a plain-HTTP router and its HTTPS twin without resolver.
pub open spec fn service_routers_spec(
    name: Seq<char>,
    subdomain: Seq<char>,
    https_redirect: bool,
    cert_resolver: Seq<char>,
) -> Map<Seq<char>, RouterView> {
    let rule = host_rule_spec(subdomain);
    if https_redirect {
        Map::empty().insert(
            name,
            RouterView {
                rule,
                service: name,
                entry_points: one("websecure"@),
                tls: Some(TlsView { cert_resolver: Some(cert_resolver) }),
            },
        )
    } else {
        Map::empty().insert(
            name,
            RouterView { rule, service: name, entry_points: one("web"@), tls: None },
        ).insert(
            twin_name_spec(name),
            RouterView {
                rule,
                service: name,
                entry_points: one("websecure"@),
                tls: Some(TlsView { cert_resolver: None }),
            },
        )
    }
}

/// In a service's route file the entry point follows the TLS block: every router with
/// TLS listens on `websecure` alone and every router without on `web` alone. With the
/// HTTPS redirect there is only the one router, with TLS and the certificate resolver;
/// without it there is a plain router under the service's name. Each router serves
/// the service at its host.
pub proof fn lemma_service_routers_entry_points(
    name: Seq<char>,
    subdomain: Seq<char>,
    https_redirect: bool,
    cert_resolver: Seq<char>,
)
    ensures
        ({
            let m = service_routers_spec(name, subdomain, https_redirect, cert_resolver);
            &&& m.dom().contains(name)
            &&& forall|k: Seq<char>|
                #[trigger] m.dom().contains(k) ==> {
                    &&& m[k].tls is Some ==> m[k].entry_points == Some(seq!["websecure"@])
                    &&& m[k].tls is None ==> m[k].entry_points == Some(seq!["web"@])
                    &&& m[k].service == name
                    &&& m[k].rule == "Host(`"@ + subdomain + "`)"@
                    &&& https_redirect ==> k == name && m[k].tls == Some(
                        TlsView { cert_resolver: Some(cert_resolver) },
                    )
                }
            &&& !https_redirect ==> m[name].tls is None
        }),
{
    reveal_strlit("_tls");
    assert(twin_name_spec(name).len() != name.len());
}

/// The route file of a service: its routers, and one Traefik service (named like the
/// service) pointing at the resolved target.
pub fn plan_service_routes(
    service: &ServiceDetail,
    https_redirect: bool,
    cert_resolver: &str,
    app_internal_url: &str,
) -> (r: DynamicConfig)
    ensures
        entries_map(r.routers@) == service_routers_spec(
            service.service.name@,
            service.service.subdomain@,
            https_redirect,
            cert_resolver@,
        ),
        entries_map(r.services@) == Map::<Seq<char>, Seq<Seq<char>>>::empty().insert(
            service.service.name@,
            seq![target_url_spec(service.containers@, app_internal_url@)],
        ),
        names_unique(r.routers@),
        names_unique(r.services@),
{
    let target_url = resolve_target_url(service, app_internal_url);
    let name = &service.service.name;
    let mut rule = to_owned_str("Host(`");
    push_str(&mut rule, service.service.subdomain.as_str());
    push_str(&mut rule, "`)");
    let mut routers: Vec<(String, Router)> = Vec::new();
    if https_redirect {
        let r = Router {
            rule,
            service: name.clone(),
            entry_points: Some(str_vec1(ENTRY_POINT_WEBSECURE)),
            tls: Some(Tls { cert_resolver: Some(to_owned_str(cert_resolver)) }),
        };
        keyed_insert(&mut routers, name.clone(), r);
    } else {
        let plain = Router {
            rule: rule.clone(),
            service: name.clone(),
            entry_points: Some(str_vec1(ENTRY_POINT_WEB)),
            tls: None,
        };
        keyed_insert(&mut routers, name.clone(), plain);
        let twin = Router {
            rule,
            service: name.clone(),
            entry_points: Some(str_vec1(ENTRY_POINT_WEBSECURE)),
            tls: Some(Tls { cert_resolver: None }),
        };
        keyed_insert(&mut routers, tls_twin_router_name(name.as_str()), twin);
    }
    let mut services: Vec<(String, TraefikService)> = Vec::new();
    keyed_insert(&mut services, name.clone(), url_service(target_url.as_str()));
    DynamicConfig { routers, services }
}

pub open spec fn route_file_name_spec(subdomain: Seq<char>) -> Seq<char> {
    subdomain + ".yml"@
}

/// Each subdomain has its own route file: the name is the subdomain with `.yml` after
/// it, so two services never share a file.
pub proof fn lemma_route_file_names_distinct(a: Seq<char>, b: Seq<char>)
    ensures
        route_file_name_spec(a).len() == a.len() + 4,
        route_file_name_spec(a).take(a.len() as int) == a,
        route_file_name_spec(a).skip(a.len() as int) == seq!['.', 'y', 'm', 'l'],
        route_file_name_spec(a) == route_file_name_spec(b) ==> a == b,
{
    reveal_strlit(".yml");
    assert(route_file_name_spec(a).take(a.len() as int) =~= a);
    assert(route_file_name_spec(a).skip(a.len() as int) =~= seq!['.', 'y', 'm', 'l']);
    if route_file_name_spec(a) == route_file_name_spec(b) {
        assert(route_file_name_spec(b).take(b.len() as int) =~= b);
    }
}

/// File name of a service's route file in Traefik's dynamic directory.
pub fn route_file_name(subdomain: &str) -> (r: String)
    ensures
        r@ == route_file_name_spec(subdomain@),
{
    let mut s = to_owned_str(subdomain);
    push_str(&mut s, ".yml");
    s
}

} // verus!
