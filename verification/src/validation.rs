//! Rules for service names, compose service names, registry tags and host ports.

use vstd::prelude::*;
use vstd::string::*;

use crate::error::CoreError;
use crate::text::{dec_int, dec_nat, push_char, push_i64, push_str, push_u64, str_eq, to_owned_str};

verus! {

pub const SERVICE_NAME_MIN_LEN: usize = 2;

pub const SERVICE_NAME_MAX_LEN: usize = 63;

/// The one reserved service name: the admin UI lives at `sahai.<domain>`.
pub const RESERVED_SERVICE_NAME: &'static str = "sahai";

pub const MAX_REGISTRY_TAG_LEN: usize = 128;

/// Host ports that sahai itself publishes (Traefik's entry points).
pub const RESERVED_HTTP_PORT: u16 = 80;

pub const RESERVED_HTTPS_PORT: u16 = 443;

pub open spec fn is_lower(c: char) -> bool {
    'a' <= c && c <= 'z'
}

pub open spec fn is_digit(c: char) -> bool {
    '0' <= c && c <= '9'
}

/// A character allowed between the first and last character of a service name.
pub open spec fn is_name_inner(c: char) -> bool {
    is_lower(c) || is_digit(c) || c == '-'
}

/// `k` is the first inner position of `s` holding a disallowed character.
pub open spec fn is_first_bad_inner(s: Seq<char>, k: int) -> bool {
    &&& 1 <= k < s.len() - 1
    &&& !is_name_inner(s[k])
    &&& forall|j: int| 1 <= j < k ==> is_name_inner(s[j])
}

pub open spec fn has_bad_inner(s: Seq<char>) -> bool {
    exists|k: int| 1 <= k < s.len() - 1 && !is_name_inner(s[k])
}

pub open spec fn reserved_name() -> Seq<char> {
    "sahai"@
}

/// The message `validate_service_name` gives for `s`, or `None` when `s` is a valid name.
pub open spec fn service_name_error(s: Seq<char>) -> Option<Seq<char>> {
    let len = s.len();
    if !(SERVICE_NAME_MIN_LEN <= len <= SERVICE_NAME_MAX_LEN) {
        Some(
            "サービス名は"@ + dec_nat(SERVICE_NAME_MIN_LEN as nat) + "〜"@ + dec_nat(
                SERVICE_NAME_MAX_LEN as nat,
            ) + "文字で指定してください(現在"@ + dec_nat(len) + "文字)"@,
        )
    } else if !is_lower(s[0]) {
        Some("サービス名は英小文字で始まる必要があります"@)
    } else if !(is_lower(s[len - 1]) || is_digit(s[len - 1])) {
        Some("サービス名は英小文字または数字で終わる必要があります"@)
    } else if has_bad_inner(s) {
        let k = choose|k: int| is_first_bad_inner(s, k);
        Some("サービス名に使用できない文字が含まれています: '"@ + seq![s[k]] + "'"@)
    } else if s == reserved_name() {
        Some("'"@ + s + "'は予約されているため使用できません"@)
    } else {
        None
    }
}

/// A name holding `_` is never a valid service name: services may use only lower-case
/// letters, digits and `-`.
pub proof fn lemma_underscore_never_a_service_name(s: Seq<char>)
    requires
        s.contains('_'),
    ensures
        service_name_error(s) is Some,
{
    let k = choose|k: int| 0 <= k < s.len() && s[k] == '_';
    if SERVICE_NAME_MIN_LEN <= s.len() <= SERVICE_NAME_MAX_LEN && is_lower(s[0]) && (is_lower(
        s[s.len() - 1],
    ) || is_digit(s[s.len() - 1])) {
        assert(1 <= k < s.len() - 1);
        assert(!is_name_inner(s[k]));
        assert(has_bad_inner(s));
    }
}

/// A `CoreError::Validation` carrying `msg`, or `Ok(())` when there is no message.
pub open spec fn validation_result(r: Result<(), CoreError>, msg: Option<Seq<char>>) -> bool {
    match msg {
        None => r is Ok,
        Some(m) => r matches Err(CoreError::Validation(t)) && t@ == m,
    }
}

fn validation_err(m: String) -> (r: Result<(), CoreError>)
    ensures
        r matches Err(CoreError::Validation(t)) && t@ == m@,
{
    Err(CoreError::Validation(m))
}

proof fn lemma_first_bad_unique(s: Seq<char>, k1: int, k2: int)
    requires
        is_first_bad_inner(s, k1),
        is_first_bad_inner(s, k2),
    ensures
        k1 == k2,
{
}

/// Checks a service name; the error names the first rule that the name breaks.
pub fn validate_service_name(name: &str) -> (r: Result<(), CoreError>)
    ensures
        validation_result(r, service_name_error(name@)),
{
    let len = name.unicode_len();
    if !(SERVICE_NAME_MIN_LEN <= len && len <= SERVICE_NAME_MAX_LEN) {
        let mut m = to_owned_str("サービス名は");
        push_u64(&mut m, SERVICE_NAME_MIN_LEN as u64);
        push_str(&mut m, "〜");
        push_u64(&mut m, SERVICE_NAME_MAX_LEN as u64);
        push_str(&mut m, "文字で指定してください(現在");
        push_u64(&mut m, len as u64);
        push_str(&mut m, "文字)");
        return validation_err(m);
    }
    let first = name.get_char(0);
    if !('a' <= first && first <= 'z') {
        return validation_err(to_owned_str("サービス名は英小文字で始まる必要があります"));
    }
    let last = name.get_char(len - 1);
    if !(('a' <= last && last <= 'z') || ('0' <= last && last <= '9')) {
        return validation_err(to_owned_str("サービス名は英小文字または数字で終わる必要があります"));
    }
    let mut i: usize = 1;
    while i < len - 1
        invariant
            len == name@.len(),
            2 <= len <= SERVICE_NAME_MAX_LEN,
            1 <= i <= len - 1,
            is_lower(name@[0]),
            is_lower(name@[len - 1]) || is_digit(name@[len - 1]),
            forall|j: int| 1 <= j < i ==> is_name_inner(name@[j]),
        decreases len - i,
    {
        let c = name.get_char(i);
        if !(('a' <= c && c <= 'z') || ('0' <= c && c <= '9') || c == '-') {
            let mut m = to_owned_str("サービス名に使用できない文字が含まれています: '");
            push_char(&mut m, c);
            push_str(&mut m, "'");
            proof {
                assert(is_first_bad_inner(name@, i as int));
                assert(has_bad_inner(name@));
                let k = choose|k: int| is_first_bad_inner(name@, k);
                lemma_first_bad_unique(name@, i as int, k);
                assert(m@ =~= "サービス名に使用できない文字が含まれています: '"@ + seq![name@[k]] + "'"@);
                assert(is_lower(name@[0]));
                assert(is_lower(name@[len - 1]) || is_digit(name@[len - 1]));
                assert(service_name_error(name@) == Some(m@));
            }
            return validation_err(m);
        }
        i = i + 1;
    }
    assert(!has_bad_inner(name@));
    if str_eq(name, RESERVED_SERVICE_NAME) {
        let mut m = to_owned_str("'");
        push_str(&mut m, name);
        push_str(&mut m, "'は予約されているため使用できません");
        return validation_err(m);
    }
    Ok(())
}

/// A character allowed in a compose service name (a Docker repository name part).
pub open spec fn is_compose_name_char(c: char) -> bool {
    is_lower(c) || is_digit(c) || c == '.' || c == '_' || c == '-'
}

pub open spec fn is_first_bad_compose_char(s: Seq<char>, k: int) -> bool {
    &&& 0 <= k < s.len()
    &&& !is_compose_name_char(s[k])
    &&& forall|j: int| 0 <= j < k ==> is_compose_name_char(s[j])
}

/// The message `validate_compose_service_name` gives for `s`, or `None` when it is valid.
pub open spec fn compose_service_name_error(s: Seq<char>) -> Option<Seq<char>> {
    if s.len() == 0 {
        Some("composeサービス名が空です"@)
    } else if exists|k: int| 0 <= k < s.len() && !is_compose_name_char(s[k]) {
        let k = choose|k: int| is_first_bad_compose_char(s, k);
        Some(
            "composeサービス名 '"@ + s + "' に使用できない文字が含まれています: '"@ + seq![s[k]]
                + "'"@,
        )
    } else {
        None
    }
}

/// Checks a compose service name: non-empty, only `[a-z0-9._-]`.
pub fn validate_compose_service_name(name: &str) -> (r: Result<(), CoreError>)
    ensures
        validation_result(r, compose_service_name_error(name@)),
{
    let len = name.unicode_len();
    if len == 0 {
        return validation_err(to_owned_str("composeサービス名が空です"));
    }
    let mut i: usize = 0;
    while i < len
        invariant
            len == name@.len(),
            i <= len,
            forall|j: int| 0 <= j < i ==> is_compose_name_char(name@[j]),
        decreases len - i,
    {
        let c = name.get_char(i);
        if !(('a' <= c && c <= 'z') || ('0' <= c && c <= '9') || c == '.' || c == '_' || c == '-') {
            let mut m = to_owned_str("composeサービス名 '");
            push_str(&mut m, name);
            push_str(&mut m, "' に使用できない文字が含まれています: '");
            push_char(&mut m, c);
            push_str(&mut m, "'");
            proof {
                assert(is_first_bad_compose_char(name@, i as int));
                let k = choose|k: int| is_first_bad_compose_char(name@, k);
                assert(k == i);
                assert(m@ =~= "composeサービス名 '"@ + name@ + "' に使用できない文字が含まれています: '"@ + seq![name@[k]] + "'"@);
                assert(compose_service_name_error(name@) == Some(m@));
            }
            return validation_err(m);
        }
        i = i + 1;
    }
    Ok(())
}

/// The message `validate_registry_tag_length` gives for `s`, or `None` when short enough.
pub open spec fn registry_tag_length_error(s: Seq<char>) -> Option<Seq<char>> {
    if s.len() > MAX_REGISTRY_TAG_LEN {
        Some(
            "合成タグ '"@ + s + "' が"@ + dec_nat(MAX_REGISTRY_TAG_LEN as nat) + "文字を超えています("@
                + dec_nat(s.len()) + "文字)"@,
        )
    } else {
        None
    }
}

/// Checks that a composed registry tag has at most 128 characters.
pub fn validate_registry_tag_length(tag: &str) -> (r: Result<(), CoreError>)
    ensures
        validation_result(r, registry_tag_length_error(tag@)),
{
    let len = tag.unicode_len();
    if len > MAX_REGISTRY_TAG_LEN {
        let mut m = to_owned_str("合成タグ '");
        push_str(&mut m, tag);
        push_str(&mut m, "' が");
        push_u64(&mut m, MAX_REGISTRY_TAG_LEN as u64);
        push_str(&mut m, "文字を超えています(");
        push_u64(&mut m, len as u64);
        push_str(&mut m, "文字)");
        return validation_err(m);
    }
    Ok(())
}

pub open spec fn is_reserved_host_port(p: int) -> bool {
    p == RESERVED_HTTP_PORT || p == RESERVED_HTTPS_PORT
}

/// The message `validate_host_port` gives for `port`, or `None` when it is usable.
pub open spec fn host_port_error(port: int) -> Option<Seq<char>> {
    if !(1 <= port <= 65535) {
        Some("ホストポートは1〜65535で指定してください(現在"@ + dec_int(port) + ")"@)
    } else if is_reserved_host_port(port) {
        Some("ポート"@ + dec_int(port) + "は差配自身が使用しているため指定できません"@)
    } else {
        None
    }
}

/// Checks a host port on its own: a real port number that sahai does not use itself.
pub fn validate_host_port(port: i64) -> (r: Result<(), CoreError>)
    ensures
        validation_result(r, host_port_error(port as int)),
{
    if !(1 <= port && port <= 65535) {
        let mut m = to_owned_str("ホストポートは1〜65535で指定してください(現在");
        push_i64(&mut m, port);
        push_str(&mut m, ")");
        return validation_err(m);
    }
    if port == RESERVED_HTTP_PORT as i64 || port == RESERVED_HTTPS_PORT as i64 {
        let mut m = to_owned_str("ポート");
        push_i64(&mut m, port);
        push_str(&mut m, "は差配自身が使用しているため指定できません");
        return validation_err(m);
    }
    Ok(())
}

} // verus!
