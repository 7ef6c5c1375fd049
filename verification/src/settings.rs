//! Settings that can change at run time, and their database row.

use vstd::prelude::*;
use crate::text::{push_str, str_eq, to_owned_str};

verus! {

/// Settings edited from the web UI and kept in the database.
#[derive(Debug, Clone)]
pub struct Settings {
    pub domain: String,
    pub https_redirect: bool,
    pub registry_url: String,
    pub api_token: String,
    pub dns_provider: String,
    pub acme_email: String,
    /// Credentials for the server-side build and push of `sahai service create`.
    pub registry_username: Option<String>,
    pub registry_password: Option<String>,
}

/// The `settings` table row.
#[derive(Debug, Clone)]
pub struct SettingsRow {
    pub domain: String,
    pub https_redirect: bool,
    pub registry_url: String,
    pub api_token: String,
    pub dns_provider: String,
    pub acme_email: String,
    pub registry_username: Option<String>,
    pub registry_password: Option<String>,
}

/// The settings a row holds, field by field.
pub open spec fn settings_of_row(row: SettingsRow) -> Settings {
    Settings {
        domain: row.domain,
        https_redirect: row.https_redirect,
        registry_url: row.registry_url,
        api_token: row.api_token,
        dns_provider: row.dns_provider,
        acme_email: row.acme_email,
        registry_username: row.registry_username,
        registry_password: row.registry_password,
    }
}

/// The row that stores the settings, field by field.
pub open spec fn row_of_settings(s: Settings) -> SettingsRow {
    SettingsRow {
        domain: s.domain,
        https_redirect: s.https_redirect,
        registry_url: s.registry_url,
        api_token: s.api_token,
        dns_provider: s.dns_provider,
        acme_email: s.acme_email,
        registry_username: s.registry_username,
        registry_password: s.registry_password,
    }
}

fn clone_opt(o: &Option<String>) -> (r: Option<String>)
    ensures
        r == *o,
{
    match o {
        Some(s) => Some(s.clone()),
        None => None,
    }
}

impl From<SettingsRow> for Settings {
    fn from(row: SettingsRow) -> (r: Settings) {
        Settings {
            domain: row.domain,
            https_redirect: row.https_redirect,
            registry_url: row.registry_url,
            api_token: row.api_token,
            dns_provider: row.dns_provider,
            acme_email: row.acme_email,
            registry_username: row.registry_username,
            registry_password: row.registry_password,
        }
    }
}

impl vstd::std_specs::convert::FromSpecImpl<SettingsRow> for Settings {
    open spec fn obeys_from_spec() -> bool {
        true
    }

    open spec fn from_spec(row: SettingsRow) -> Settings {
        settings_of_row(row)
    }
}

impl<'a> From<&'a Settings> for SettingsRow {
    fn from(s: &'a Settings) -> (r: SettingsRow) {
        SettingsRow {
            domain: s.domain.clone(),
            https_redirect: s.https_redirect,
            registry_url: s.registry_url.clone(),
            api_token: s.api_token.clone(),
            dns_provider: s.dns_provider.clone(),
            acme_email: s.acme_email.clone(),
            registry_username: clone_opt(&s.registry_username),
            registry_password: clone_opt(&s.registry_password),
        }
    }
}

impl<'a> vstd::std_specs::convert::FromSpecImpl<&'a Settings> for SettingsRow {
    open spec fn obeys_from_spec() -> bool {
        true
    }

    open spec fn from_spec(s: &'a Settings) -> SettingsRow {
        row_of_settings(*s)
    }
}

/// A row read into settings and written back is the same row.
pub proof fn lemma_settings_row_round_trip(row: SettingsRow)
    ensures
        row_of_settings(settings_of_row(row)) == row,
{
}

pub open spec fn default_registry_url_spec(domain: Seq<char>) -> Seq<char> {
    "registry.sahai."@ + domain
}

/// `registry.sahai.<domain>`: the registry that sahai serves under its domain.
pub fn default_registry_url(domain: &str) -> (r: String)
    ensures
        r@ == default_registry_url_spec(domain@),
{
    let mut s = to_owned_str("registry.sahai.");
    push_str(&mut s, domain);
    s
}

/// A non-empty value of an environment variable; unset and empty are the same.
pub open spec fn non_empty(v: Option<String>) -> Option<String> {
    match v {
        Some(s) => if s@.len() > 0 {
            Some(s)
        } else {
            None
        },
        None => None,
    }
}

pub open spec fn seed_spec(
    api_token: Option<String>,
    domain: Option<String>,
    https_redirect: Option<String>,
    registry_url: Option<String>,
    dns_provider: Option<String>,
    acme_email: Option<String>,
    registry_username: Option<String>,
    registry_password: Option<String>,
    r: Result<Settings, String>,
) -> bool {
    match api_token {
        None => r matches Err(m) && m@ == "環境変数 SAHAI_API_TOKEN が設定されていません"@,
        Some(tok) => r matches Ok(s) && {
            let d = match domain {
                Some(d) => d@,
                None => Seq::empty(),
            };
            &&& s.api_token == tok
            &&& s.domain@ == d
            &&& s.https_redirect == match https_redirect {
                Some(v) => v@ != "false"@,
                None => true,
            }
            &&& s.registry_url@ == match registry_url {
                Some(u) => u@,
                None => default_registry_url_spec(d),
            }
            &&& s.dns_provider@ == match dns_provider {
                Some(p) => p@,
                None => Seq::empty(),
            }
            &&& s.acme_email@ == match acme_email {
                Some(e) => e@,
                None => Seq::empty(),
            }
            &&& s.registry_username == non_empty(registry_username)
            &&& s.registry_password == non_empty(registry_password)
        },
    }
}

/// Seeding turns the HTTPS redirect off only when `SAHAI_HTTPS_REDIRECT` is exactly
/// `false`: unset, empty (as an unset key of an env file arrives) or any other value
/// leaves it on.
pub proof fn lemma_seed_https_redirect_off_only_for_false(
    api_token: Option<String>,
    domain: Option<String>,
    https_redirect: Option<String>,
    registry_url: Option<String>,
    dns_provider: Option<String>,
    acme_email: Option<String>,
    registry_username: Option<String>,
    registry_password: Option<String>,
    r: Result<Settings, String>,
)
    requires
        seed_spec(
            api_token,
            domain,
            https_redirect,
            registry_url,
            dns_provider,
            acme_email,
            registry_username,
            registry_password,
            r,
        ),
        r is Ok,
    ensures
        !r->Ok_0.https_redirect <==> (https_redirect matches Some(v) && v@ == "false"@),
        https_redirect is None ==> r->Ok_0.https_redirect,
        (https_redirect matches Some(v) && v@.len() == 0) ==> r->Ok_0.https_redirect,
{
    reveal_strlit("false");
}

/// Seeding needs the API token and nothing else: it succeeds exactly when
/// `SAHAI_API_TOKEN` is set, keeps the token and the domain as given, fills in the
/// registry URL as `registry.sahai.<domain>` when none is given, and keeps registry
/// credentials only when they are not empty.
pub proof fn lemma_seed_values(
    api_token: Option<String>,
    domain: Option<String>,
    https_redirect: Option<String>,
    registry_url: Option<String>,
    dns_provider: Option<String>,
    acme_email: Option<String>,
    registry_username: Option<String>,
    registry_password: Option<String>,
    r: Result<Settings, String>,
)
    requires
        seed_spec(
            api_token,
            domain,
            https_redirect,
            registry_url,
            dns_provider,
            acme_email,
            registry_username,
            registry_password,
            r,
        ),
    ensures
        r is Ok <==> api_token is Some,
        r matches Ok(s) ==> s.api_token == api_token.unwrap(),
        r matches Ok(s) ==> (domain matches Some(d) ==> s.domain@ == d@) && (domain is None ==> s.domain@.len()
            == 0),
        r matches Ok(s) ==> (registry_url matches Some(u) ==> s.registry_url@ == u@) && (registry_url is None
            ==> s.registry_url@ == "registry.sahai."@ + s.domain@),
        r matches Ok(s) ==> (dns_provider matches Some(v) ==> s.dns_provider@ == v@) && (dns_provider is None
            ==> s.dns_provider@.len() == 0),
        r matches Ok(s) ==> (acme_email matches Some(v) ==> s.acme_email@ == v@) && (acme_email is None
            ==> s.acme_email@.len() == 0),
        r matches Ok(s) ==> (s.registry_username is Some <==> (registry_username matches Some(u) && u@.len() > 0)),
        r matches Ok(s) ==> (s.registry_username matches Some(u) ==> registry_username == Some(u)),
        r matches Ok(s) ==> (s.registry_password is Some <==> (registry_password matches Some(p) && p@.len() > 0)),
        r matches Ok(s) ==> (s.registry_password matches Some(p) ==> registry_password == Some(p)),
{
}

fn keep_non_empty(v: Option<String>) -> (r: Option<String>)
    ensures
        r == non_empty(v),
{
    match v {
        Some(s) => if s.as_str().unicode_len() > 0 {
            Some(s)
        } else {
            None
        },
        None => None,
    }
}

fn or_empty(v: Option<String>) -> (r: String)
    ensures
        r@ == match v {
            Some(s) => s@,
            None => Seq::<char>::empty(),
        },
{
    match v {
        Some(s) => s,
        None => String::new(),
    }
}

impl Settings {
    /// The first settings of a deployment, from the values of its `SAHAI_*`
    /// environment variables (`None` where a variable is not set). Only the API token
    /// is required; the registry URL defaults to `registry.sahai.<domain>`, and
    /// redirecting to HTTPS is on unless the variable says `false`.
    pub fn seed(
        api_token: Option<String>,
        domain: Option<String>,
        https_redirect: Option<String>,
        registry_url: Option<String>,
        dns_provider: Option<String>,
        acme_email: Option<String>,
        registry_username: Option<String>,
        registry_password: Option<String>,
    ) -> (r: Result<Settings, String>)
        ensures
            seed_spec(
                api_token,
                domain,
                https_redirect,
                registry_url,
                dns_provider,
                acme_email,
                registry_username,
                registry_password,
                r,
            ),
    {
        let api_token = match api_token {
            Some(t) => t,
            None => {
                return Err(to_owned_str("環境変数 SAHAI_API_TOKEN が設定されていません"));
            },
        };
        let domain = or_empty(domain);
        let https_redirect = match https_redirect {
            Some(v) => !str_eq(v.as_str(), "false"),
            None => true,
        };
        let registry_url = match registry_url {
            Some(u) => u,
            None => default_registry_url(domain.as_str()),
        };
        Ok(Settings {
            domain,
            https_redirect,
            registry_url,
            api_token,
            dns_provider: or_empty(dns_provider),
            acme_email: or_empty(acme_email),
            registry_username: keep_non_empty(registry_username),
            registry_password: keep_non_empty(registry_password),
        })
    }

    /// The placeholder before the first setup: everything empty, HTTPS redirect on.
    /// An empty API token is what marks a deployment as not set up yet.
    pub fn unconfigured() -> (r: Settings)
        ensures
            r.domain@.len() == 0,
            r.https_redirect,
            r.registry_url@.len() == 0,
            r.api_token@.len() == 0,
            r.dns_provider@.len() == 0,
            r.acme_email@.len() == 0,
            r.registry_username is None,
            r.registry_password is None,
    {
        Settings {
            domain: String::new(),
            https_redirect: true,
            registry_url: String::new(),
            api_token: String::new(),
            dns_provider: String::new(),
            acme_email: String::new(),
            registry_username: None,
            registry_password: None,
        }
    }
}

} // verus!
