//! Argument lists for `docker` subcommands, shared by the client and the server so
//! that both build the same way.

use vstd::prelude::*;
use crate::text::{push_str, to_owned_str, views};

verus! {

/// A path separator on some platform.
pub open spec fn is_sep_char(c: char) -> bool {
    c == '/' || c == '\\'
}

/// A base path that does not begin like a Windows verbatim path (`\\?\`): two
/// separators and a `?`. For a verbatim base `PathBuf::push` normalizes the whole path
/// (it removes `.` and `..`), so only other bases are joined by concatenation.
pub open spec fn plain_base(base: Seq<char>) -> bool {
    !(base.len() >= 3 && is_sep_char(base[0]) && is_sep_char(base[1]) && base[2] == '?')
}

/// A relative component that no platform reads as rooted or as carrying a drive:
/// not empty, not starting with a separator, no `:`.
pub open spec fn relative_part(rel: Seq<char>) -> bool {
    rel.len() > 0 && !is_sep_char(rel[0]) && !rel.contains(':')
}

/// `r` is `base` and `rel` joined: `base` followed by `rel`, with one separator
/// between them unless `base` is empty, already ends in a separator, or is a bare
/// Windows drive such as `C:`. The separator is the platform's: `/`, or a backslash
/// where `/` also counts as a separator.
pub open spec fn path_joined(r: Seq<char>, base: Seq<char>, rel: Seq<char>) -> bool {
    ||| ((base.len() == 0 || is_sep_char(base.last()) || (base.len() == 2 && base[1] == ':')) && r == base + rel)
    ||| (base.len() > 0 && base.last() != '/' && r == base + seq!['/'] + rel)
    ||| (base.len() > 0 && !is_sep_char(base.last()) && r == base + seq!['\\'] + rel)
}

pub open spec fn path_ends_with(s: Seq<char>, p: Seq<char>) -> bool {
    p.len() <= s.len() && s.skip(s.len() - p.len()) == p
}

/// `Path::new(base).join(rel).display().to_string()`. `PathBuf::push` appends a
/// relative `rel` to `base`, adding the platform's separator only when `base` is not
/// empty and does not already end in a separator (on Windows, nor is a bare drive
/// such as `C:`); a rooted or prefixed `rel` replaces all or most of `base`, and an
/// empty `base` gives `rel` itself. For a base that is not a verbatim path the text
/// therefore always ends with `rel`, and for a relative `rel` it is `base` joined
/// with `rel` as `path_joined` states. Which separator is used, and what a Windows
/// verbatim base gives, depend on the platform and are left unsaid.
#[verifier::external_body]
pub(crate) fn join_path(base: &str, rel: &str) -> (r: String)
    ensures
        base@.len() == 0 ==> r@ == rel@,
        plain_base(base@) ==> path_ends_with(r@, rel@),
        plain_base(base@) && relative_part(rel@) ==> path_joined(r@, base@, rel@),
{
    std::path::Path::new(base).join(rel).display().to_string()
}

/// Joining a relative component without a `?` onto a plain base gives a plain base
/// again, ready to be joined once more.
pub proof fn lemma_joined_stays_plain(r: Seq<char>, base: Seq<char>, rel: Seq<char>)
    requires
        plain_base(base),
        relative_part(rel),
        !rel.contains('?'),
        path_joined(r, base, rel),
    ensures
        plain_base(r),
        path_ends_with(r, rel),
{
    if r == base + rel {
        assert(r.skip(r.len() - rel.len()) =~= rel);
    } else if r == base + seq!['/'] + rel {
        assert(r.skip(r.len() - rel.len()) =~= rel);
    } else {
        assert(r.skip(r.len() - rel.len()) =~= rel);
    }
    if r.len() >= 3 && is_sep_char(r[0]) && is_sep_char(r[1]) && r[2] == '?' {
        if base.len() >= 3 {
            assert(r[0] == base[0] && r[1] == base[1] && r[2] == base[2]);
        } else if r == base + rel {
            assert(r[2] == rel[2 - base.len()]);
        } else if base.len() == 2 {
            assert(r[2] == '/' || r[2] == '\\');
        } else {
            assert(r[2] == rel[0]);
        }
    }
}

pub open spec fn build_arg_pairs(v: Seq<(String, String)>) -> Seq<Seq<char>>
    decreases v.len(),
{
    if v.len() == 0 {
        seq![]
    } else {
        build_arg_pairs(v.drop_last()) + seq!["--build-arg"@, v.last().0@ + "="@ + v.last().1@]
    }
}

/// Everything before the Dockerfile and the context: `build -t <tag>`, a
/// `--build-arg K=V` per build argument, then `--platform <p>` when given.
pub open spec fn build_args_head(tag: Seq<char>, platform: Option<Seq<char>>, bargs: Seq<(String, String)>) -> Seq<
    Seq<char>,
> {
    seq!["build"@, "-t"@, tag] + build_arg_pairs(bargs) + match platform {
        Some(p) => seq!["--platform"@, p],
        None => Seq::<Seq<char>>::empty(),
    }
}

pub open spec fn opt_str(o: Option<&str>) -> Option<Seq<char>> {
    match o {
        Some(s) => Some(s@),
        None => None,
    }
}

fn push_s(v: &mut Vec<String>, s: String)
    ensures
        views(final(v)@) == views(old(v)@).push(s@),
{
    v.push(s);
    assert(views(v@) =~= views(old(v)@).push(s@));
}

/// The arguments of `docker build`. A Dockerfile is given relative to the context,
/// as in a compose file's `build.dockerfile`, and is passed as `-f` with the context
/// and the Dockerfile joined as paths.
pub fn build_args(
    context: &str,
    tag: &str,
    dockerfile: Option<&str>,
    platform: Option<&str>,
    arg_list: &[(String, String)],
) -> (r: Vec<String>)
    ensures
        ({
            let head = build_args_head(tag@, opt_str(platform), arg_list@);
            match dockerfile {
                None => views(r@) == head.push(context@),
                Some(f) => {
                    &&& r@.len() == head.len() + 3
                    &&& views(r@).take(head.len() as int) == head
                    &&& r@[head.len() as int]@ == "-f"@
                    &&& plain_base(context@) ==> path_ends_with(r@[head.len() + 1int]@, f@)
                    &&& plain_base(context@) && relative_part(f@) ==> path_joined(
                        r@[head.len() + 1int]@,
                        context@,
                        f@,
                    )
                    &&& r@[head.len() + 2int]@ == context@
                },
            }
        }),
{
    let mut args: Vec<String> = Vec::new();
    push_s(&mut args, to_owned_str("build"));
    push_s(&mut args, to_owned_str("-t"));
    push_s(&mut args, to_owned_str(tag));
    assert(views(args@) =~= seq!["build"@, "-t"@, tag@] + build_arg_pairs(arg_list@.take(0)));
    let mut k: usize = 0;
    while k < arg_list.len()
        invariant
            k <= arg_list@.len(),
            views(args@) == seq!["build"@, "-t"@, tag@] + build_arg_pairs(arg_list@.take(k as int)),
        decreases arg_list@.len() - k,
    {
        assert(arg_list@.take(k + 1).drop_last() =~= arg_list@.take(k as int));
        push_s(&mut args, to_owned_str("--build-arg"));
        let mut kv = to_owned_str(arg_list[k].0.as_str());
        push_str(&mut kv, "=");
        push_str(&mut kv, arg_list[k].1.as_str());
        push_s(&mut args, kv);
        assert(views(args@) =~= seq!["build"@, "-t"@, tag@] + build_arg_pairs(arg_list@.take(k + 1)));
        k = k + 1;
    }
    assert(arg_list@.take(arg_list@.len() as int) =~= arg_list@);
    if let Some(p) = platform {
        push_s(&mut args, to_owned_str("--platform"));
        push_s(&mut args, to_owned_str(p));
    }
    let ghost head = build_args_head(tag@, opt_str(platform), arg_list@);
    assert(views(args@) =~= head);
    match dockerfile {
        Some(f) => {
            push_s(&mut args, to_owned_str("-f"));
            let joined = join_path(context, f);
            let ghost jv = joined@;
            push_s(&mut args, joined);
            push_s(&mut args, to_owned_str(context));
            assert(views(args@) =~= head + seq!["-f"@, jv, context@]);
            assert(views(args@).take(head.len() as int) =~= head);
            assert(views(args@)[head.len() as int] == args@[head.len() as int]@);
            assert(views(args@)[head.len() + 1int] == args@[head.len() + 1int]@);
            assert(views(args@)[head.len() + 2int] == args@[head.len() + 2int]@);
        },
        None => {
            push_s(&mut args, to_owned_str(context));
        },
    }
    args
}


fn strings_of(v: &[&str]) -> (r: Vec<String>)
    ensures
        views(r@) == v@.map_values(|s: &str| s@),
{
    let mut out: Vec<String> = Vec::new();
    let mut k: usize = 0;
    while k < v.len()
        invariant
            k <= v@.len(),
            views(out@) == v@.take(k as int).map_values(|s: &str| s@),
        decreases v@.len() - k,
    {
        push_s(&mut out, to_owned_str(v[k]));
        assert(v@.take(k + 1).map_values(|s: &str| s@) =~= v@.take(k as int).map_values(|s: &str| s@).push(
            v@[k as int]@,
        ));
        k = k + 1;
    }
    assert(v@.take(v@.len() as int) =~= v@);
    out
}

/// `-f <base> -f <override> -p <project>`, the files and project of every compose command.
pub open spec fn compose_file_args_spec(base: Seq<char>, overr: Seq<char>, project: Seq<char>) -> Seq<Seq<char>> {
    seq!["-f"@, base, "-f"@, overr, "-p"@, project]
}

fn compose_with(base: &str, overr: &str, project: &str, tail: &[&str]) -> (r: Vec<String>)
    ensures
        views(r@) == compose_file_args_spec(base@, overr@, project@) + tail@.map_values(|s: &str| s@),
{
    let mut v: Vec<String> = Vec::new();
    push_s(&mut v, to_owned_str("-f"));
    push_s(&mut v, to_owned_str(base));
    push_s(&mut v, to_owned_str("-f"));
    push_s(&mut v, to_owned_str(overr));
    push_s(&mut v, to_owned_str("-p"));
    push_s(&mut v, to_owned_str(project));
    let ghost head = views(v@);
    let mut t = strings_of(tail);
    let ghost tv = views(t@);
    v.append(&mut t);
    assert(views(v@) =~= head + tv);
    v
}

/// The arguments after `docker compose` to pull a project's images.
pub fn compose_pull_args(base: &str, overr: &str, project: &str) -> (r: Vec<String>)
    ensures
        views(r@) == compose_file_args_spec(base@, overr@, project@) + seq!["pull"@],
{
    let tail: [&str; 1] = ["pull"];
    let r = compose_with(base, overr, project, tail.as_slice());
    assert(tail@.map_values(|s: &str| s@) =~= seq!["pull"@]);
    r
}

/// The arguments after `docker compose` to start a project from pushed images,
/// removing containers of services that are gone.
pub fn compose_up_args(base: &str, overr: &str, project: &str) -> (r: Vec<String>)
    ensures
        views(r@) == compose_file_args_spec(base@, overr@, project@) + seq![
            "up"@,
            "-d"@,
            "--no-build"@,
            "--remove-orphans"@,
        ],
{
    let tail: [&str; 4] = ["up", "-d", "--no-build", "--remove-orphans"];
    let r = compose_with(base, overr, project, tail.as_slice());
    assert(tail@.map_values(|s: &str| s@) =~= seq!["up"@, "-d"@, "--no-build"@, "--remove-orphans"@]);
    r
}

/// The arguments after `docker compose` to stop and remove a project.
pub fn compose_down_args(base: &str, overr: &str, project: &str) -> (r: Vec<String>)
    ensures
        views(r@) == compose_file_args_spec(base@, overr@, project@) + seq!["down"@],
{
    let tail: [&str; 1] = ["down"];
    let r = compose_with(base, overr, project, tail.as_slice());
    assert(tail@.map_values(|s: &str| s@) =~= seq!["down"@]);
    r
}

/// The network docker compose creates for a project, removed when the project is.
pub fn default_network_name(project: &str) -> (r: String)
    ensures
        r@ == project@ + "_default"@,
{
    let mut s = to_owned_str(project);
    push_str(&mut s, "_default");
    s
}

/// `docker login <registry> -u <user> --password-stdin`; the password goes to standard
/// input, never to the command line where other processes could read it.
pub fn docker_login_args(registry_url: &str, username: &str) -> (r: Vec<String>)
    ensures
        views(r@) == seq!["login"@, registry_url@, "-u"@, username@, "--password-stdin"@],
{
    let mut v: Vec<String> = Vec::new();
    push_s(&mut v, to_owned_str("login"));
    push_s(&mut v, to_owned_str(registry_url));
    push_s(&mut v, to_owned_str("-u"));
    push_s(&mut v, to_owned_str(username));
    push_s(&mut v, to_owned_str("--password-stdin"));
    v
}

} // verus!
