//! Checks and defaults applied when settings are saved from the web UI.

use vstd::prelude::*;
use crate::error::{AppError, FieldError, field_errors_view, outcome_of, push_error, validation_outcome};
use crate::dto::{UpdateDnsConfigRequest, UpdateSettingsRequest};
use crate::settings::{Settings, default_registry_url, default_registry_url_spec};
use crate::text::{is_blank, push_str, push_u64, to_owned_str, dec_nat, trim_spec};

verus! {

/// DNS and certificate settings, saved on their own because saving them recreates
/// the Traefik container.
#[derive(Debug, Clone, PartialEq, Eq)]
pub struct DnsConfig {
    pub dns_provider: String,
    pub acme_email: String,
    /// The credentials the DNS provider asks for, keyed by its environment variable names.
    pub credentials: Vec<(String, String)>,
}

/// Registry settings for the server-side build and push.
#[derive(Debug, Clone, PartialEq, Eq)]
pub struct RegistryConfig {
    pub registry_url: String,
    pub registry_username: Option<String>,
    pub registry_password: Option<String>,
    /// Why logging in to the registry failed, when it did.
    pub login_warning: Option<String>,
}

/// Empty once surrounding whitespace is dropped.
pub open spec fn blank(s: Seq<char>) -> bool {
    trim_spec(s).len() == 0
}

pub open spec fn required(field: Seq<char>, value: Seq<char>, message: Seq<char>) -> Seq<
    (Seq<char>, Seq<char>),
> {
    if blank(value) {
        seq![(field, message)]
    } else {
        seq![]
    }
}

/// The errors of the basic settings: a domain and an API token are required.
pub open spec fn settings_errors(s: Settings) -> Seq<(Seq<char>, Seq<char>)> {
    required("domain"@, s.domain@, "ドメインを入力してください"@) + required(
        "api_token"@,
        s.api_token@,
        "APIトークンを入力してください"@,
    )
}

/// The basic settings need a domain and an API token, both non-blank once trimmed:
/// they pass exactly then, and otherwise the blank ones are reported, the domain first.
pub proof fn lemma_settings_need_domain_and_token(s: Settings)
    ensures
        settings_errors(s).len() == 0 <==> trim_spec(s.domain@).len() > 0 && trim_spec(s.api_token@).len() > 0,
        trim_spec(s.domain@).len() == 0 ==> settings_errors(s)[0].0 == "domain"@,
        trim_spec(s.domain@).len() > 0 && trim_spec(s.api_token@).len() == 0 ==> settings_errors(s) == seq![
            ("api_token"@, "APIトークンを入力してください"@),
        ],
        trim_spec(s.domain@).len() == 0 && trim_spec(s.api_token@).len() == 0 ==> settings_errors(s).len() == 2
            && settings_errors(s)[1].0 == "api_token"@,
{
}

fn push_if_blank(errors: &mut Vec<FieldError>, value: &str, field: &str, message: &str)
    ensures
        field_errors_view(final(errors)@) == field_errors_view(old(errors)@) + required(
            field@,
            value@,
            message@,
        ),
{
    if is_blank(value) {
        push_error(errors, to_owned_str(field), to_owned_str(message));
        assert(field_errors_view(errors@) =~= field_errors_view(old(errors)@) + seq![(field@, message@)]);
    } else {
        assert(field_errors_view(errors@) =~= field_errors_view(old(errors)@) + Seq::<
            (Seq<char>, Seq<char>),
        >::empty());
    }
}

/// Checks the basic settings. The DNS settings are checked on their own screen, and an
/// empty registry URL is filled in from the domain before this check.
pub fn validate(settings: &Settings) -> (r: Result<(), AppError>)
    ensures
        validation_outcome(r, settings_errors(*settings)),
{
    let mut errors: Vec<FieldError> = Vec::new();
    push_if_blank(&mut errors, settings.domain.as_str(), "domain", "ドメインを入力してください");
    push_if_blank(&mut errors, settings.api_token.as_str(), "api_token", "APIトークンを入力してください");
    assert(field_errors_view(errors@) =~= settings_errors(*settings));
    outcome_of(errors)
}

pub open spec fn credential_key_errors(creds: Seq<(String, String)>) -> Seq<(Seq<char>, Seq<char>)>
    decreases creds.len(),
{
    if creds.len() == 0 {
        seq![]
    } else {
        credential_key_errors(creds.drop_last()) + required(
            "credentials["@ + dec_nat((creds.len() - 1) as nat) + "].key"@,
            creds.last().0@,
            "キーを入力してください"@,
        )
    }
}

/// The errors of the DNS settings: a provider, a notification address, and a key for
/// every credential.
pub open spec fn dns_config_errors(c: DnsConfig) -> Seq<(Seq<char>, Seq<char>)> {
    required("dns_provider"@, c.dns_provider@, "DNSプロバイダを入力してください"@) + required(
        "acme_email"@,
        c.acme_email@,
        "通知先メールアドレスを入力してください"@,
    ) + credential_key_errors(c.credentials@)
}

/// The field of credential `i`'s key.
pub open spec fn credential_field(i: int) -> Seq<char> {
    "credentials["@ + dec_nat(i as nat) + "].key"@
}

/// The positions of the credentials whose key is blank, in order.
pub open spec fn blank_key_indices(creds: Seq<(String, String)>) -> Seq<int>
    decreases creds.len(),
{
    if creds.len() == 0 {
        seq![]
    } else {
        blank_key_indices(creds.drop_last()) + if blank(creds.last().0@) {
            seq![creds.len() - 1]
        } else {
            Seq::<int>::empty()
        }
    }
}

proof fn lemma_blank_key_indices(creds: Seq<(String, String)>)
    ensures
        credential_key_errors(creds) == blank_key_indices(creds).map_values(
            |i: int| (credential_field(i), "キーを入力してください"@),
        ),
        forall|n: int, m: int|
            0 <= n < m < blank_key_indices(creds).len() ==> blank_key_indices(creds)[n]
                < blank_key_indices(creds)[m],
        forall|i: int|
            #![trigger blank_key_indices(creds).contains(i)]
            blank_key_indices(creds).contains(i) <==> 0 <= i < creds.len() && blank(creds[i].0@),
    decreases creds.len(),
{
    if creds.len() > 0 {
        let front = creds.drop_last();
        lemma_blank_key_indices(front);
        let bf = blank_key_indices(front);
        let b = blank_key_indices(creds);
        let last = creds.len() - 1;
        assert forall|n: int| 0 <= n < bf.len() implies 0 <= #[trigger] bf[n] < front.len() by {
            assert(bf.contains(bf[n]));
        }
        assert(credential_key_errors(creds) =~= b.map_values(
            |i: int| (credential_field(i), "キーを入力してください"@),
        ));
        assert forall|i: int| #![trigger b.contains(i)] b.contains(i) <==> 0 <= i < creds.len() && blank(
            creds[i].0@,
        ) by {
            if b.contains(i) {
                let n = choose|n: int| 0 <= n < b.len() && b[n] == i;
                if n < bf.len() {
                    assert(bf.contains(i));
                    assert(front[i] == creds[i]);
                }
            }
            if 0 <= i < creds.len() && blank(creds[i].0@) {
                if i < last {
                    assert(front[i] == creds[i]);
                    assert(bf.contains(i));
                    let n = choose|n: int| 0 <= n < bf.len() && bf[n] == i;
                    assert(b[n] == i);
                } else {
                    assert(b[b.len() - 1] == i);
                }
            }
        }
    }
}

/// The DNS settings pass exactly when the provider, the notification address and every
/// credential key are non-blank once trimmed. Otherwise the errors name exactly the
/// blank ones: the provider first, then the address, then the key of each credential
/// whose key is blank, in credential order.
pub proof fn lemma_dns_config_errors_exactly(c: DnsConfig)
    ensures
        dns_config_errors(c).len() == 0 <==> !blank(c.dns_provider@) && !blank(c.acme_email@) && forall|i: int|
            0 <= i < c.credentials@.len() ==> !blank(#[trigger] c.credentials@[i].0@),
        dns_config_errors(c) == required("dns_provider"@, c.dns_provider@, "DNSプロバイダを入力してください"@)
            + required("acme_email"@, c.acme_email@, "通知先メールアドレスを入力してください"@)
            + blank_key_indices(c.credentials@).map_values(
            |i: int| (credential_field(i), "キーを入力してください"@),
        ),
        forall|n: int, m: int|
            0 <= n < m < blank_key_indices(c.credentials@).len() ==> blank_key_indices(c.credentials@)[n]
                < blank_key_indices(c.credentials@)[m],
        forall|i: int|
            #![trigger blank_key_indices(c.credentials@).contains(i)]
            blank_key_indices(c.credentials@).contains(i) <==> 0 <= i < c.credentials@.len() && blank(
                c.credentials@[i].0@,
            ),
{
    let creds = c.credentials@;
    lemma_blank_key_indices(creds);
    let b = blank_key_indices(creds);
    if forall|i: int| 0 <= i < creds.len() ==> !blank(#[trigger] creds[i].0@) {
        if b.len() > 0 {
            assert(b.contains(b[0]));
        }
    } else {
        let i = choose|i: int| 0 <= i < creds.len() && blank(#[trigger] creds[i].0@);
        assert(b.contains(i));
    }
}

/// Checks the DNS settings and reports every problem.
pub fn validate_dns_config(config: &DnsConfig) -> (r: Result<(), AppError>)
    ensures
        validation_outcome(r, dns_config_errors(*config)),
{
    let mut errors: Vec<FieldError> = Vec::new();
    push_if_blank(&mut errors, config.dns_provider.as_str(), "dns_provider", "DNSプロバイダを入力してください");
    push_if_blank(
        &mut errors,
        config.acme_email.as_str(),
        "acme_email",
        "通知先メールアドレスを入力してください",
    );
    let ghost head = field_errors_view(errors@);
    let creds = &config.credentials;
    let mut i: usize = 0;
    assert(head + credential_key_errors(creds@.take(0)) =~= head);
    while i < creds.len()
        invariant
            *creds == config.credentials,
            i <= creds@.len(),
            field_errors_view(errors@) == head + credential_key_errors(creds@.take(i as int)),
        decreases creds@.len() - i,
    {
        assert(creds@.take(i + 1).drop_last() =~= creds@.take(i as int));
        let mut field = to_owned_str("credentials[");
        push_u64(&mut field, i as u64);
        push_str(&mut field, "].key");
        push_if_blank(&mut errors, creds[i].0.as_str(), field.as_str(), "キーを入力してください");
        assert(field_errors_view(errors@) =~= head + credential_key_errors(creds@.take(i + 1)));
        i = i + 1;
    }
    assert(creds@.take(creds@.len() as int) =~= creds@);
    assert(field_errors_view(errors@) =~= dns_config_errors(*config));
    outcome_of(errors)
}

/// The registry URL once defaulted: an empty one becomes `registry.sahai.<domain>`,
/// unless the domain is empty too.
pub open spec fn registry_url_default_spec(url: Seq<char>, domain: Seq<char>) -> Seq<char> {
    if blank(url) && !blank(domain) {
        default_registry_url_spec(domain)
    } else {
        url
    }
}

/// Fills in an empty registry URL from the domain; everything else stays.
pub fn apply_registry_url_default(settings: &mut Settings)
    ensures
        final(settings).registry_url@ == registry_url_default_spec(
            old(settings).registry_url@,
            old(settings).domain@,
        ),
        final(settings).domain == old(settings).domain,
        final(settings).https_redirect == old(settings).https_redirect,
        final(settings).api_token == old(settings).api_token,
        final(settings).dns_provider == old(settings).dns_provider,
        final(settings).acme_email == old(settings).acme_email,
        final(settings).registry_username == old(settings).registry_username,
        final(settings).registry_password == old(settings).registry_password,
{
    if is_blank(settings.registry_url.as_str()) && !is_blank(settings.domain.as_str()) {
        settings.registry_url = default_registry_url(settings.domain.as_str());
    }
}

/// The settings to save from a setup or an update: the registry URL defaulted, then
/// checked.
pub fn prepare_settings(new_settings: Settings) -> (r: Result<Settings, AppError>)
    ensures
        match r {
            Ok(s) => settings_errors(new_settings).len() == 0 && s.registry_url@
                == registry_url_default_spec(new_settings.registry_url@, new_settings.domain@)
                && s.domain == new_settings.domain && s.api_token == new_settings.api_token
                && s.https_redirect == new_settings.https_redirect && s.dns_provider
                == new_settings.dns_provider && s.acme_email == new_settings.acme_email
                && s.registry_username == new_settings.registry_username && s.registry_password
                == new_settings.registry_password,
            Err(e) => settings_errors(new_settings).len() > 0 && validation_outcome(
                Err(e),
                settings_errors(new_settings),
            ),
        },
{
    let mut s = new_settings;
    apply_registry_url_default(&mut s);
    match validate(&s) {
        Ok(()) => Ok(s),
        Err(e) => Err(e),
    }
}

/// An empty credential counts as none, so that emptying both clears them.
pub open spec fn normalize_spec(v: Option<String>) -> Option<String> {
    match v {
        Some(s) => if blank(s@) {
            None
        } else {
            Some(s)
        },
        None => None,
    }
}

pub fn normalize_credential(value: Option<String>) -> (r: Option<String>)
    ensures
        r == normalize_spec(value),
{
    match value {
        Some(s) => if is_blank(s.as_str()) {
            None
        } else {
            Some(s)
        },
        None => None,
    }
}

pub open spec fn both_or_neither_message() -> Seq<char> {
    "ユーザー名とパスワードは両方入力するか、両方空にしてください"@
}

/// The error of registry credentials: a user name without a password is an error on the
/// password, a password without a user name one on the user name.
pub open spec fn registry_config_error(c: RegistryConfig) -> Option<(Seq<char>, Seq<char>)> {
    if c.registry_username is Some && c.registry_password is None {
        Some(("registry_password"@, both_or_neither_message()))
    } else if c.registry_username is None && c.registry_password is Some {
        Some(("registry_username"@, both_or_neither_message()))
    } else {
        None
    }
}

/// Registry credentials are given together or not at all: after blank values are
/// dropped, the settings pass exactly when a user name and a password are both
/// present or both absent, and a lone one is reported at the field of the missing one.
pub proof fn lemma_registry_credentials_together(c: RegistryConfig)
    ensures
        registry_config_error(c) is None <==> (c.registry_username is Some) == (c.registry_password is Some),
        registry_config_error(c) matches Some(e) ==> e.0 == if c.registry_username is Some {
            "registry_password"@
        } else {
            "registry_username"@
        },
        forall|v: Option<String>|
            #![trigger normalize_spec(v)]
            normalize_spec(v) == match v {
                Some(x) => if trim_spec(x@).len() == 0 {
                    None
                } else {
                    Some(x)
                },
                None => None,
            },
{
}

/// An empty registry URL becomes `registry.sahai.<domain>` when there is a domain; a
/// given URL, or an empty one without a domain, stays as it is.
pub proof fn lemma_registry_url_default(url: Seq<char>, domain: Seq<char>)
    ensures
        trim_spec(url).len() == 0 && trim_spec(domain).len() > 0 ==> registry_url_default_spec(url, domain)
            == "registry.sahai."@ + domain,
        trim_spec(url).len() > 0 || trim_spec(domain).len() == 0 ==> registry_url_default_spec(url, domain)
            == url,
{
}

/// Accepts a user name and a password together, or neither.
pub fn validate_registry_config(config: &RegistryConfig) -> (r: Result<(), AppError>)
    ensures
        validation_outcome(
            r,
            match registry_config_error(*config) {
                Some(e) => seq![e],
                None => seq![],
            },
        ),
{
    let username_present = config.registry_username.is_some();
    let password_present = config.registry_password.is_some();
    if username_present != password_present {
        let field = if username_present {
            "registry_password"
        } else {
            "registry_username"
        };
        return Err(
            AppError::validation_single(
                to_owned_str(field),
                to_owned_str("ユーザー名とパスワードは両方入力するか、両方空にしてください"),
            ),
        );
    }
    Ok(())
}

/// The registry settings to save: credentials normalized and checked, the URL
/// defaulted from the current domain, and no warning yet.
pub fn prepare_registry_config(new_config: RegistryConfig, domain: &str) -> (r: Result<RegistryConfig, AppError>)
    ensures
        ({
            let n = RegistryConfig {
                registry_url: new_config.registry_url,
                registry_username: normalize_spec(new_config.registry_username),
                registry_password: normalize_spec(new_config.registry_password),
                login_warning: new_config.login_warning,
            };
            match registry_config_error(n) {
                Some(e) => validation_outcome(Err(r->Err_0), seq![e]) && r is Err,
                None => r matches Ok(c) && c.registry_username == n.registry_username
                    && c.registry_password == n.registry_password && c.registry_url@
                    == registry_url_default_spec(new_config.registry_url@, domain@)
                    && c.login_warning is None,
            }
        }),
{
    let config = RegistryConfig {
        registry_url: new_config.registry_url,
        registry_username: normalize_credential(new_config.registry_username),
        registry_password: normalize_credential(new_config.registry_password),
        login_warning: new_config.login_warning,
    };
    match validate_registry_config(&config) {
        Err(e) => Err(e),
        Ok(()) => {
            let url = if is_blank(config.registry_url.as_str()) && !is_blank(domain) {
                default_registry_url(domain)
            } else {
                config.registry_url
            };
            Ok(
                RegistryConfig {
                    registry_url: url,
                    registry_username: config.registry_username,
                    registry_password: config.registry_password,
                    login_warning: None,
                },
            )
        },
    }
}

/// The warning to pass on when logging in to the registry failed with `error`.
pub fn login_warning(error: &str) -> (r: String)
    ensures
        r@ == "レジストリへのログインに失敗しました: "@ + error@,
{
    let mut s = to_owned_str("レジストリへのログインに失敗しました: ");
    push_str(&mut s, error);
    s
}

pub open spec fn pairs_view(v: Seq<(String, String)>) -> Seq<(Seq<char>, Seq<char>)> {
    v.map_values(|p: (String, String)| (p.0@, p.1@))
}

/// The lines to write to the environment file that Traefik reads: the provider, the
/// notification address, then each credential.
pub fn dns_env_updates(config: &DnsConfig) -> (r: Vec<(String, String)>)
    ensures
        pairs_view(r@) == seq![
            ("SAHAI_DNS_PROVIDER"@, config.dns_provider@),
            ("SAHAI_ACME_EMAIL"@, config.acme_email@),
        ] + pairs_view(config.credentials@),
{
    let mut out: Vec<(String, String)> = Vec::new();
    out.push((to_owned_str("SAHAI_DNS_PROVIDER"), config.dns_provider.clone()));
    out.push((to_owned_str("SAHAI_ACME_EMAIL"), config.acme_email.clone()));
    let ghost head = pairs_view(out@);
    let creds = &config.credentials;
    let mut i: usize = 0;
    while i < creds.len()
        invariant
            *creds == config.credentials,
            i <= creds@.len(),
            head == seq![
                ("SAHAI_DNS_PROVIDER"@, config.dns_provider@),
                ("SAHAI_ACME_EMAIL"@, config.acme_email@),
            ],
            pairs_view(out@) == head + pairs_view(creds@.take(i as int)),
        decreases creds@.len() - i,
    {
        let ghost before = out@;
        let k = creds[i].0.clone();
        let v = creds[i].1.clone();
        out.push((k, v));
        assert(pairs_view(out@) =~= pairs_view(before).push((creds@[i as int].0@, creds@[i as int].1@)));
        assert(pairs_view(creds@.take(i + 1)) =~= pairs_view(creds@.take(i as int)).push(
            (creds@[i as int].0@, creds@[i as int].1@),
        ));
        assert(pairs_view(out@) =~= head + pairs_view(creds@.take(i + 1)));
        i = i + 1;
    }
    assert(creds@.take(creds@.len() as int) =~= creds@);
    out
}


fn clone_opt(o: &Option<String>) -> (r: Option<String>)
    ensures
        r == *o,
{
    match o {
        Some(s) => Some(s.clone()),
        None => None,
    }
}

/// The settings an update of the basic settings saves: its domain, redirect and token,
/// everything else as it is now.
pub fn merge_basic_settings(current: &Settings, req: UpdateSettingsRequest) -> (r: Settings)
    ensures
        r.domain == req.domain,
        r.https_redirect == req.https_redirect,
        r.api_token == req.api_token,
        r.registry_url == current.registry_url,
        r.dns_provider == current.dns_provider,
        r.acme_email == current.acme_email,
        r.registry_username == current.registry_username,
        r.registry_password == current.registry_password,
{
    Settings {
        domain: req.domain,
        https_redirect: req.https_redirect,
        registry_url: current.registry_url.clone(),
        api_token: req.api_token,
        dns_provider: current.dns_provider.clone(),
        acme_email: current.acme_email.clone(),
        registry_username: clone_opt(&current.registry_username),
        registry_password: clone_opt(&current.registry_password),
    }
}

/// The DNS settings of a request, credentials as `(key, value)` pairs in order.
pub fn dns_config_of(req: UpdateDnsConfigRequest) -> (r: DnsConfig)
    ensures
        r.dns_provider == req.dns_provider,
        r.acme_email == req.acme_email,
        r.credentials@.len() == req.credentials@.len(),
        forall|i: int| 0 <= i < req.credentials@.len() ==> (#[trigger] r.credentials@[i]).0 == req.credentials@[i].key
            && r.credentials@[i].1 == req.credentials@[i].value,
{
    let mut creds: Vec<(String, String)> = Vec::new();
    let mut k: usize = 0;
    while k < req.credentials.len()
        invariant
            k <= req.credentials@.len(),
            creds@.len() == k,
            forall|i: int| 0 <= i < k ==> (#[trigger] creds@[i]).0 == req.credentials@[i].key
                && creds@[i].1 == req.credentials@[i].value,
        decreases req.credentials@.len() - k,
    {
        creds.push((req.credentials[k].key.clone(), req.credentials[k].value.clone()));
        k = k + 1;
    }
    DnsConfig { dns_provider: req.dns_provider, acme_email: req.acme_email, credentials: creds }
}

} // verus!
