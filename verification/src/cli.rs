//! Decisions and messages of the `sahai` command line client.

use vstd::prelude::*;
use vstd::string::*;
use crate::error::{CoreError, core_error_text};
use crate::naming::{registry_tag_name, registry_tag_spec};
use crate::text::{
    dec_nat, join, join_spec, push_str, push_u64, split_once, split_once_spec, starts_with,
    str_eq, strip_trail_char, to_owned_str, trim_end_char, views,
};
use crate::validation::{validate_compose_service_name, validate_registry_tag_length,
    compose_service_name_error, registry_tag_length_error};

verus! {

pub open spec fn unset_text() -> Seq<char> {
    "(未設定)"@
}

/// A setting for display: the value, or a placeholder when it is empty.
pub fn display_or_unset(value: &str) -> (r: String)
    ensures
        r@ == if value@.len() == 0 {
            unset_text()
        } else {
            value@
        },
{
    if value.unicode_len() == 0 {
        to_owned_str("(未設定)")
    } else {
        to_owned_str(value)
    }
}

pub open spec fn mask_token_spec(token: Seq<char>) -> Seq<char> {
    if token.len() == 0 {
        unset_text()
    } else {
        "(設定済み、"@ + dec_nat(token.len()) + "文字)"@
    }
}

/// What is shown of a token depends on its length alone: two tokens of one length
/// look the same, so nothing of the value is shown.
pub proof fn lemma_mask_shows_only_length(a: Seq<char>, b: Seq<char>)
    requires
        a.len() == b.len(),
    ensures
        mask_token_spec(a) == mask_token_spec(b),
{
}

/// The token for display: whether it is set and its length, never its value.
pub fn mask_token(token: &str) -> (r: String)
    ensures
        r@ == mask_token_spec(token@),
{
    let n = token.unicode_len();
    if n == 0 {
        to_owned_str("(未設定)")
    } else {
        let mut s = to_owned_str("(設定済み、");
        push_u64(&mut s, n as u64);
        push_str(&mut s, "文字)");
        s
    }
}

/// The message when looking a service up failed: a registration hint for HTTP 404,
/// the error itself otherwise (an unreachable server is not an unregistered service).
pub open spec fn lookup_error_spec(name: Seq<char>, err: Seq<char>) -> Seq<char> {
    if "HTTP 404"@.len() <= err.len() && err.take("HTTP 404"@.len() as int) == "HTTP 404"@ {
        "サービス '"@ + name + "' が見つかりません。先にWeb UIで登録してください"@
    } else {
        "サービス '"@ + name + "' の情報取得に失敗しました: "@ + err
    }
}

pub fn describe_lookup_error(name: &str, err: &str) -> (r: String)
    ensures
        r@ == lookup_error_spec(name@, err@),
{
    if starts_with(err, "HTTP 404") {
        let mut s = to_owned_str("サービス '");
        push_str(&mut s, name);
        push_str(&mut s, "' が見つかりません。先にWeb UIで登録してください");
        s
    } else {
        let mut s = to_owned_str("サービス '");
        push_str(&mut s, name);
        push_str(&mut s, "' の情報取得に失敗しました: ");
        push_str(&mut s, err);
        s
    }
}

/// The arguments of `docker push <tag>`.
pub fn docker_push_args(tag: &str) -> (r: Vec<String>)
    ensures
        views(r@) == seq!["push"@, tag@],
{
    let mut v: Vec<String> = Vec::new();
    v.push(to_owned_str("push"));
    v.push(to_owned_str(tag));
    assert(views(v@) =~= seq!["push"@, tag@]);
    v
}

/// The messages of an error and of each error it came from, joined by `: `.
pub fn describe_error_chain(messages: &Vec<String>) -> (r: String)
    ensures
        r@ == join_spec(views(messages@), ": "@),
{
    join(messages, ": ")
}

/// A `--build-arg KEY=VALUE` value: split at the first `=`, so the value may hold more.
pub fn parse_key_val(s: &str) -> (r: Result<(String, String), String>)
    ensures
        match split_once_spec(s@, '=') {
            Some((k, v)) => r matches Ok((a, b)) && a@ == k && b@ == v,
            None => r matches Err(m) && m@ == "KEY=VALUE形式で指定してください: "@ + s@,
        },
{
    match split_once(s, '=') {
        Some((k, v)) => Ok((k, v)),
        None => {
            let mut m = to_owned_str("KEY=VALUE形式で指定してください: ");
            push_str(&mut m, s);
            Err(m)
        },
    }
}

/// The URL of an API path: the base without trailing `/`, then the path.
pub fn api_url(base_url: &str, path: &str) -> (r: String)
    ensures
        r@ == strip_trail_char(base_url@, '/') + path@,
{
    let mut s = trim_end_char(base_url, '/');
    push_str(&mut s, path);
    s
}

/// `<registry>/<name>:latest`, the image an image service runs.
pub fn image_tag(registry_url: &str, name: &str) -> (r: String)
    ensures
        r@ == registry_url@ + "/"@ + name@ + ":latest"@,
{
    let mut s = to_owned_str(registry_url);
    push_str(&mut s, "/");
    push_str(&mut s, name);
    push_str(&mut s, ":latest");
    s
}

/// A project directory matches a registration when it has a compose file exactly when
/// the service is of compose type.
pub fn check_push_layout(source_type: &str, is_compose_dir: bool) -> (r: Result<(), String>)
    ensures
        (is_compose_dir == (source_type@ == "compose"@)) ==> r is Ok,
        (is_compose_dir != (source_type@ == "compose"@)) ==> (r matches Err(m) && m@
            == "登録内容(source_type="@ + source_type@ + ")とディレクトリ構成が一致しません"@),
{
    let registered_compose = str_eq(source_type, "compose");
    if is_compose_dir != registered_compose {
        let mut m = to_owned_str("登録内容(source_type=");
        push_str(&mut m, source_type);
        push_str(&mut m, ")とディレクトリ構成が一致しません");
        return Err(m);
    }
    Ok(())
}

/// The first reason a compose service cannot be pushed for service `service`: a bad
/// compose service name, else a registry tag that would be too long.
pub open spec fn push_target_error(service: Seq<char>, compose: Seq<char>) -> Option<Seq<char>> {
    match compose_service_name_error(compose) {
        Some(m) => Some(m),
        None => registry_tag_length_error(registry_tag_spec(service, Some(compose))),
    }
}

/// Checks one compose service before building it; the error names the service.
pub fn check_push_target(service: &str, compose: &str) -> (r: Result<String, String>)
    ensures
        match push_target_error(service@, compose@) {
            Some(m) => r matches Err(e) && e@ == "'"@ + compose@ + "': "@ + m,
            None => r matches Ok(tag) && tag@ == registry_tag_spec(service@, Some(compose@)),
        },
{
    let prefix = {
        let mut p = to_owned_str("'");
        push_str(&mut p, compose);
        push_str(&mut p, "': ");
        p
    };
    match validate_compose_service_name(compose) {
        Err(e) => {
            let mut m = prefix;
            let t = e.message();
            push_str(&mut m, t.as_str());
            return Err(m);
        },
        Ok(()) => {},
    }
    let tag = registry_tag_name(service, Some(compose));
    match validate_registry_tag_length(tag.as_str()) {
        Err(e) => {
            let mut m = prefix;
            let t = e.message();
            push_str(&mut m, t.as_str());
            Err(m)
        },
        Ok(()) => Ok(tag),
    }
}


/// The first compose service, in order, that cannot be pushed, with its message.
pub open spec fn first_push_error(service: Seq<char>, names: Seq<Seq<char>>) -> Option<Seq<char>>
    decreases names.len(),
{
    if names.len() == 0 {
        None
    } else {
        match push_target_error(service, names[0]) {
            Some(m) => Some("'"@ + names[0] + "': "@ + m),
            None => first_push_error(service, names.drop_first()),
        }
    }
}

/// Checks, before anything is uploaded, every compose service that has a `build:` key:
/// the first one with a bad name or too long a tag is the error.
pub fn validate_compose_build_targets(service_name: &str, build_names: &Vec<String>) -> (r: Result<(), String>)
    ensures
        match first_push_error(service_name@, views(build_names@)) {
            Some(m) => r matches Err(e) && e@ == m,
            None => r is Ok,
        },
{
    let ghost nv = views(build_names@);
    let mut k: usize = 0;
    assert(nv.skip(0) =~= nv);
    while k < build_names.len()
        invariant
            nv == views(build_names@),
            k <= build_names@.len(),
            first_push_error(service_name@, nv) == first_push_error(service_name@, nv.skip(k as int)),
        decreases build_names@.len() - k,
    {
        assert(nv.skip(k as int).drop_first() =~= nv.skip(k + 1));
        assert(nv.skip(k as int)[0] == build_names@[k as int]@);
        match check_push_target(service_name, build_names[k].as_str()) {
            Err(e) => {
                return Err(e);
            },
            Ok(_) => {},
        }
        k = k + 1;
    }
    assert(nv.skip(build_names@.len() as int).len() == 0);
    Ok(())
}

} // verus!
