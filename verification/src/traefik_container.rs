//! What the Traefik container is recreated with: its start command with the ACME
//! settings of the database, and its environment rebuilt from the image and the
//! shared environment file.

use vstd::prelude::*;
use crate::keyed::{entries_map, keyed_insert, names_unique};
use crate::text::{
    push_str, split_once, split_once_spec, starts_with, strip_lead_char, to_owned_str,
    trim_start_char, views,
};

verus! {

/// The ACME notification address flag of the Traefik command line.
pub const ACME_EMAIL_FLAG: &'static str = "--certificatesresolvers.letsencrypt.acme.email=";

/// The DNS challenge provider flag of the Traefik command line.
pub const ACME_DNS_PROVIDER_FLAG: &'static str =
    "--certificatesresolvers.letsencrypt.acme.dnschallenge.provider=";

/// Tries to see whether the recreated container runs, first try included.
pub const MAX_ATTEMPTS: u32 = 8;

pub open spec fn has_prefix(s: Seq<char>, p: Seq<char>) -> bool {
    p.len() <= s.len() && s.take(p.len() as int) == p
}

/// One argument of the command after the override: the two ACME flags get the current
/// values, any other argument stays as it is.
pub open spec fn override_arg(arg: Seq<char>, dns_provider: Seq<char>, acme_email: Seq<char>) -> Seq<char> {
    if has_prefix(arg, ACME_EMAIL_FLAG@) {
        ACME_EMAIL_FLAG@ + acme_email
    } else if has_prefix(arg, ACME_DNS_PROVIDER_FLAG@) {
        ACME_DNS_PROVIDER_FLAG@ + dns_provider
    } else {
        arg
    }
}

/// The copied start command with the ACME notification address and DNS provider set to
/// the current values. Only arguments that begin with those flags change; a missing flag
/// is not added, since the user may have chosen another challenge on purpose.
pub fn override_acme_cmd_flags(cmd: &[String], dns_provider: &str, acme_email: &str) -> (r: Vec<String>)
    ensures
        r@.len() == cmd@.len(),
        forall|i: int|
            0 <= i < cmd@.len() ==> #[trigger] r@[i]@ == override_arg(cmd@[i]@, dns_provider@, acme_email@),
{
    let mut out: Vec<String> = Vec::new();
    let mut k: usize = 0;
    while k < cmd.len()
        invariant
            k <= cmd@.len(),
            out@.len() == k,
            forall|i: int|
                0 <= i < k ==> #[trigger] out@[i]@ == override_arg(cmd@[i]@, dns_provider@, acme_email@),
        decreases cmd@.len() - k,
    {
        let arg = cmd[k].as_str();
        let next = if starts_with(arg, ACME_EMAIL_FLAG) {
            let mut s = to_owned_str(ACME_EMAIL_FLAG);
            push_str(&mut s, acme_email);
            s
        } else if starts_with(arg, ACME_DNS_PROVIDER_FLAG) {
            let mut s = to_owned_str(ACME_DNS_PROVIDER_FLAG);
            push_str(&mut s, dns_provider);
            s
        } else {
            cmd[k].clone()
        };
        out.push(next);
        k = k + 1;
    }
    out
}

/// The environment of the recreated container: the image's `KEY=value` entries (an
/// entry without `=` is skipped), then the entries of the environment file, a later
/// value of a key replacing an earlier one.
pub open spec fn image_env_map(default_env: Seq<String>) -> Map<Seq<char>, Seq<char>>
    decreases default_env.len(),
{
    if default_env.len() == 0 {
        Map::empty()
    } else {
        let m = image_env_map(default_env.drop_last());
        match split_once_spec(default_env.last()@, '=') {
            Some((k, v)) => m.insert(k, v),
            None => m,
        }
    }
}

pub open spec fn file_env_map(m: Map<Seq<char>, Seq<char>>, file: Seq<(String, String)>) -> Map<
    Seq<char>,
    Seq<char>,
>
    decreases file.len(),
{
    if file.len() == 0 {
        m
    } else {
        file_env_map(m, file.drop_last()).insert(file.last().0@, file.last().1@)
    }
}

/// Merges the image's environment with the environment file, one entry per key.
pub fn merge_env(default_env: &Vec<String>, file_entries: &Vec<(String, String)>) -> (r: Vec<(String, String)>)
    ensures
        entries_map(r@) == file_env_map(image_env_map(default_env@), file_entries@),
        names_unique(r@),
{
    let mut entries: Vec<(String, String)> = Vec::new();
    let mut k: usize = 0;
    assert(entries_map(entries@) =~= image_env_map(default_env@.take(0)));
    while k < default_env.len()
        invariant
            k <= default_env@.len(),
            entries_map(entries@) == image_env_map(default_env@.take(k as int)),
            names_unique(entries@),
        decreases default_env@.len() - k,
    {
        assert(default_env@.take(k + 1).drop_last() =~= default_env@.take(k as int));
        match split_once(default_env[k].as_str(), '=') {
            Some((key, value)) => {
                keyed_insert(&mut entries, key, value);
            },
            None => {},
        }
        k = k + 1;
    }
    assert(default_env@.take(default_env@.len() as int) =~= default_env@);
    let ghost base = image_env_map(default_env@);
    let mut j: usize = 0;
    while j < file_entries.len()
        invariant
            j <= file_entries@.len(),
            base == image_env_map(default_env@),
            entries_map(entries@) == file_env_map(base, file_entries@.take(j as int)),
            names_unique(entries@),
        decreases file_entries@.len() - j,
    {
        assert(file_entries@.take(j + 1).drop_last() =~= file_entries@.take(j as int));
        keyed_insert(&mut entries, file_entries[j].0.clone(), file_entries[j].1.clone());
        j = j + 1;
    }
    assert(file_entries@.take(file_entries@.len() as int) =~= file_entries@);
    entries
}

/// `KEY=value` for each entry, in order.
pub fn env_lines(entries: &Vec<(String, String)>) -> (r: Vec<String>)
    ensures
        r@.len() == entries@.len(),
        forall|i: int| 0 <= i < entries@.len() ==> #[trigger] r@[i]@ == entries@[i].0@ + "="@ + entries@[i].1@,
{
    let mut out: Vec<String> = Vec::new();
    let mut k: usize = 0;
    while k < entries.len()
        invariant
            k <= entries@.len(),
            out@.len() == k,
            forall|i: int| 0 <= i < k ==> #[trigger] out@[i]@ == entries@[i].0@ + "="@ + entries@[i].1@,
        decreases entries@.len() - k,
    {
        let mut s = to_owned_str(entries[k].0.as_str());
        push_str(&mut s, "=");
        push_str(&mut s, entries[k].1.as_str());
        out.push(s);
        k = k + 1;
    }
    out
}

/// The name to recreate the container under: its current name without the leading
/// `/` that Docker reports, or its id when it has no name.
pub fn recreated_name(name: Option<&str>, container_id: &str) -> (r: String)
    ensures
        r@ == strip_lead_char(
            match name {
                Some(n) => n@,
                None => container_id@,
            },
            '/',
        ),
{
    match name {
        Some(n) => trim_start_char(n, '/'),
        None => trim_start_char(container_id, '/'),
    }
}

/// What to do after looking at the recreated container.
#[derive(Debug, Clone, Copy, PartialEq, Eq, Structural)]
pub enum WaitStep {
    /// It runs.
    Done,
    /// Wait, start it once more and look again.
    Retry,
    /// It still does not run after the last try.
    GiveUp,
}

/// The decision after try `attempt` (counting from 1) saw the container running or not.
pub fn wait_step(attempt: u32, running: bool) -> (r: WaitStep)
    ensures
        r == if running {
            WaitStep::Done
        } else if attempt < MAX_ATTEMPTS {
            WaitStep::Retry
        } else {
            WaitStep::GiveUp
        },
{
    if running {
        WaitStep::Done
    } else if attempt < MAX_ATTEMPTS {
        WaitStep::Retry
    } else {
        WaitStep::GiveUp
    }
}

} // verus!
