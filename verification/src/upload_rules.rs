//! Limits and messages of extracting an uploaded archive.

use vstd::prelude::*;
use crate::text::{dec_nat, join, join_spec, push_str, push_u64, substring, to_owned_str, views};

verus! {

/// The most bytes an uploaded archive may extract to (1 GiB): the request body limit
/// bounds only the compressed size.
pub const MAX_EXTRACTED_BYTES: u64 = 1073741824;

/// How the message of an exceeded limit begins.
pub const SIZE_LIMIT_PREFIX: &'static str = "アーカイブの展開サイズが上限";

/// A size in whole GB, MB or KB, rounded down, in the largest unit it reaches.
pub open spec fn human_size_spec(b: nat) -> Seq<char> {
    if b >= 1073741824 {
        dec_nat(b / 1073741824) + "GB"@
    } else if b >= 1048576 {
        dec_nat(b / 1048576) + "MB"@
    } else {
        dec_nat(b / 1024) + "KB"@
    }
}

pub fn human_size(bytes: u64) -> (r: String)
    ensures
        r@ == human_size_spec(bytes as nat),
{
    let mut s = String::new();
    if bytes >= 1073741824 {
        push_u64(&mut s, bytes / 1073741824);
        push_str(&mut s, "GB");
    } else if bytes >= 1048576 {
        push_u64(&mut s, bytes / 1048576);
        push_str(&mut s, "MB");
    } else {
        push_u64(&mut s, bytes / 1024);
        push_str(&mut s, "KB");
    }
    assert(s@ =~= human_size_spec(bytes as nat));
    s
}

pub open spec fn size_limit_message_spec(limit: nat) -> Seq<char> {
    SIZE_LIMIT_PREFIX@ + "("@ + human_size_spec(limit) + ")を超えました。不要なファイルを.dockerignoreで除外してください"@
}

/// The message when the extracted bytes exceed `limit`.
pub fn size_limit_message(limit: u64) -> (r: String)
    ensures
        r@ == size_limit_message_spec(limit as nat),
{
    let mut s = to_owned_str(SIZE_LIMIT_PREFIX);
    push_str(&mut s, "(");
    let h = human_size(limit);
    push_str(&mut s, h.as_str());
    push_str(&mut s, ")を超えました。不要なファイルを.dockerignoreで除外してください");
    s
}

/// Counts bytes read so far: the new total, and whether it is now over the limit.
/// The count comes from what was actually read, not from what the archive declares.
pub fn count_read(total: u64, n: u64, limit: u64) -> (r: (u64, bool))
    ensures
        total as int + n as int <= u64::MAX ==> r == ((total + n) as u64, total + n > limit),
        total as int + n as int > u64::MAX ==> r == (u64::MAX, true),
{
    match total.checked_add(n) {
        Some(t) => (t, t > limit),
        None => (u64::MAX, true),
    }
}

/// `p` occurs in `s` at `k`.
pub open spec fn occurs_at(s: Seq<char>, p: Seq<char>, k: int) -> bool {
    0 <= k && k + p.len() <= s.len() && s.subrange(k, k + p.len()) == p
}

/// `p` occurs in `s` at `k`, and nowhere before.
pub open spec fn is_first_occurrence(s: Seq<char>, p: Seq<char>, k: int) -> bool {
    &&& occurs_at(s, p, k)
    &&& forall|j: int| 0 <= j < k ==> !#[trigger] occurs_at(s, p, j)
}

/// Where `p` first occurs in `s` (`str::find` with a string pattern).
pub fn find_str(s: &str, p: &str) -> (r: Option<usize>)
    ensures
        match r {
            Some(k) => is_first_occurrence(s@, p@, k as int),
            None => forall|j: int| !#[trigger] occurs_at(s@, p@, j),
        },
{
    let n = s.unicode_len();
    let m = p.unicode_len();
    if m > n {
        assert forall|j: int| !#[trigger] occurs_at(s@, p@, j) by {}
        return None;
    }
    let mut j: usize = 0;
    while j <= n - m
        invariant
            n == s@.len(),
            m == p@.len(),
            m <= n,
            j <= n - m + 1,
            forall|i: int| 0 <= i < j ==> !#[trigger] occurs_at(s@, p@, i),
        decreases n - m + 1 - j,
    {
        let mut k: usize = 0;
        let mut same = true;
        while k < m
            invariant
                n == s@.len(),
                m == p@.len(),
                j + m <= n,
                k <= m,
                same == forall|t: int| 0 <= t < k ==> s@[j + t] == p@[t],
            decreases m - k,
        {
            if s.get_char(j + k) != p.get_char(k) {
                same = false;
            }
            k = k + 1;
        }
        if same {
            assert(s@.subrange(j as int, j + m) =~= p@);
            return Some(j);
        }
        assert(!occurs_at(s@, p@, j as int)) by {
            let t = choose|t: int| 0 <= t < m && s@[j + t] != p@[t];
            assert(s@.subrange(j as int, j + m)[t] == s@[j + t]);
        }
        j = j + 1;
    }
    assert forall|i: int| !#[trigger] occurs_at(s@, p@, i) by {
        if 0 <= i && i < j {
        }
    }
    None
}

/// The text of a failed extraction: the messages of the error chain joined by `: `,
/// cut down to the size-limit message when there is one (the archive reader wraps it in
/// messages that hide the cause).
pub open spec fn extract_error_spec(messages: Seq<Seq<char>>) -> Seq<char> {
    let chain = join_spec(messages, ": "@);
    if exists|k: int| is_first_occurrence(chain, SIZE_LIMIT_PREFIX@, k) {
        let k = choose|k: int| is_first_occurrence(chain, SIZE_LIMIT_PREFIX@, k);
        chain.skip(k)
    } else {
        chain
    }
}

proof fn lemma_first_occurrence_unique(s: Seq<char>, p: Seq<char>, a: int, b: int)
    requires
        is_first_occurrence(s, p, a),
        is_first_occurrence(s, p, b),
    ensures
        a == b,
{
}

pub fn describe_extract_error(messages: &Vec<String>) -> (r: String)
    ensures
        r@ == extract_error_spec(views(messages@)),
{
    let chain = join(messages, ": ");
    match find_str(chain.as_str(), SIZE_LIMIT_PREFIX) {
        Some(k) => {
            let n = chain.as_str().unicode_len();
            let r = substring(chain.as_str(), k, n);
            proof {
                let kk = choose|kk: int| is_first_occurrence(chain@, SIZE_LIMIT_PREFIX@, kk);
                lemma_first_occurrence_unique(chain@, SIZE_LIMIT_PREFIX@, k as int, kk);
                assert(r@ =~= chain@.skip(k as int));
            }
            r
        },
        None => chain,
    }
}

} // verus!
