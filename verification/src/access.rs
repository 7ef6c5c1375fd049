//! Who may call the API, and which requests the web UI sends to the "Not Service" page.

use vstd::prelude::*;
use vstd::string::*;
use subtle::ConstantTimeEq;
use crate::text::{
    ends_with, find_char, is_first_index, is_ws, lemma_first_index_unique, lower_seq, push_str,
    str_eq, substring, to_ascii_lowercase, to_owned_str, trim, trim_end_spec, trim_spec,
    trim_start_spec,
};

verus! {

/// `presented.as_bytes().ct_eq(expected.as_bytes())` of the `subtle` crate, as a `bool`.
/// Slices of different lengths compare unequal at once; otherwise every byte is
/// compared, in time that does not depend on where they differ. The result is true
/// exactly when the bytes, and so the strings, are equal.
#[verifier::external_body]
fn ct_str_eq(presented: &str, expected: &str) -> (r: bool)
    ensures
        r == (presented@ == expected@),
{
    presented.as_bytes().ct_eq(expected.as_bytes()).into()
}

/// Whether a presented bearer token is the expected one. Before setup the expected token
/// is empty, and then nothing matches; an empty presented token never matches either.
pub fn token_matches(presented: &str, expected: &str) -> (r: bool)
    ensures
        r == (expected@.len() > 0 && presented@.len() > 0 && presented@ == expected@),
{
    if expected.unicode_len() == 0 || presented.unicode_len() == 0 {
        return false;
    }
    ct_str_eq(presented, expected)
}

/// The path of the page that explains a subdomain without a web service.
pub const NOT_SERVICE_PATH: &'static str = "/not-service";

/// The host name of a `Host` header: the text before its first `:`.
pub open spec fn host_name_spec(host: Seq<char>) -> Seq<char> {
    if host.contains(':') {
        let k = choose|k: int| is_first_index(host, ':', k);
        host.take(k)
    } else {
        host
    }
}

pub open spec fn ends_with_spec(s: Seq<char>, p: Seq<char>) -> bool {
    p.len() <= s.len() && s.skip(s.len() - p.len()) == p
}

/// A request goes to the "Not Service" page when it asks for a subdomain of the base
/// domain other than the admin host `sahai.<domain>`, ignoring the port and the case of the
/// host name; never before the domain is set, never without a `Host` header, and never for
/// that page itself.
pub open spec fn redirect_spec(host: Option<Seq<char>>, domain: Seq<char>, path: Seq<char>) -> bool {
    match host {
        Some(h) => {
            let name = lower_seq(host_name_spec(h));
            let d = lower_seq(domain);
            &&& domain.len() > 0
            &&& path != "/not-service"@
            &&& name != "sahai."@ + d
            &&& ends_with_spec(name, "."@ + d)
        },
        None => false,
    }
}

fn host_name(host: &str) -> (r: String)
    ensures
        r@ == host_name_spec(host@),
{
    match find_char(host, ':') {
        Some(k) => {
            let r = substring(host, 0, k);
            proof {
                let kk = choose|kk: int| is_first_index(host@, ':', kk);
                lemma_first_index_unique(host@, ':', k as int, kk);
                assert(r@ =~= host@.take(k as int));
            }
            r
        },
        None => to_owned_str(host),
    }
}

/// Whether the web UI should send this request to the "Not Service" page.
pub fn needs_not_service_redirect(host: Option<&str>, domain: &str, path: &str) -> (r: bool)
    ensures
        r == redirect_spec(
            match host {
                Some(h) => Some(h@),
                None => None,
            },
            domain@,
            path@,
        ),
{
    if domain.unicode_len() == 0 || str_eq(path, NOT_SERVICE_PATH) {
        return false;
    }
    let host = match host {
        Some(h) => h,
        None => {
            return false;
        },
    };
    let hostname = to_ascii_lowercase(host_name(host).as_str());
    let domain = to_ascii_lowercase(domain);
    let mut admin = to_owned_str("sahai.");
    push_str(&mut admin, domain.as_str());
    let mut suffix = to_owned_str(".");
    push_str(&mut suffix, domain.as_str());
    !str_eq(hostname.as_str(), admin.as_str()) && ends_with(hostname.as_str(), suffix.as_str())
}

/// The admin host itself is never sent to the "Not Service" page, whatever the path.
pub proof fn lemma_admin_host_never_redirected(domain: Seq<char>, path: Seq<char>)
    requires
        !domain.contains(':'),
    ensures
        !redirect_spec(Some("sahai."@ + domain), domain, path),
{
    reveal_strlit("sahai.");
    let h = "sahai."@ + domain;
    assert(!h.contains(':')) by {
        if h.contains(':') {
            let k = choose|k: int| 0 <= k < h.len() && h[k] == ':';
            if k < 6 {
                assert("sahai."@[k] == h[k]);
            } else {
                assert(domain[k - 6] == h[k]);
            }
        }
    }
    assert(lower_seq(h) =~= "sahai."@ + lower_seq(domain));
}


/// The header that carries the one-time setup token.
pub const SETUP_TOKEN_HEADER: &'static str = "X-Sahai-Setup-Token";

/// Whether a presented setup token is the issued one. `stored` is the text of the token
/// file, `None` when there is none (not issued yet, or revoked); the stored text is
/// trimmed, and an empty token on either side never matches.
pub open spec fn setup_token_spec(presented: Seq<char>, stored: Option<Seq<char>>) -> bool {
    match stored {
        Some(t) => presented.len() > 0 && trim_spec(t).len() > 0 && presented == trim_spec(t),
        None => false,
    }
}

pub fn setup_token_matches(presented: &str, stored: Option<&str>) -> (r: bool)
    ensures
        r == setup_token_spec(
            presented@,
            match stored {
                Some(t) => Some(t@),
                None => None,
            },
        ),
{
    if presented.unicode_len() == 0 {
        return false;
    }
    let stored = match stored {
        Some(t) => t,
        None => {
            return false;
        },
    };
    let expected = trim(stored);
    if expected.as_str().unicode_len() == 0 {
        return false;
    }
    ct_str_eq(presented, expected.as_str())
}

/// A token read back from the file it was written to opens setup exactly when it is
/// presented as issued: an issued token has no surrounding whitespace.
pub proof fn lemma_issued_setup_token_verifies(token: Seq<char>, presented: Seq<char>)
    requires
        token.len() > 0,
        !is_ws(token[0]),
        !is_ws(token.last()),
    ensures
        setup_token_spec(presented, Some(token)) == (presented == token),
{
    lemma_trim_no_edge_ws(token);
}

proof fn lemma_trim_no_edge_ws(t: Seq<char>)
    requires
        t.len() > 0,
        !is_ws(t[0]),
        !is_ws(t.last()),
    ensures
        trim_spec(t) == t,
{
    assert(trim_start_spec(t) == t);
    assert(trim_end_spec(t) == t);
}

} // verus!
