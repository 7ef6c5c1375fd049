//! The `KEY=value` environment file that sahai shares with Traefik: reading its
//! entries, and setting keys while every other line stays as it was.

use vstd::prelude::*;
use vstd::string::*;
use crate::text::{
    find_char, is_first_index, is_ws, join, join_spec, lemma_first_index_unique, line_scan, lines,
    lines_spec, push_str, split_once, split_once_spec, str_eq, strip_cr, substring, to_owned_str,
    trim, trim_end_spec, trim_spec, trim_start, trim_start_spec, views,
};

verus! {

pub open spec fn pairs_view(v: Seq<(String, String)>) -> Seq<(Seq<char>, Seq<char>)> {
    v.map_values(|p: (String, String)| (p.0@, p.1@))
}

/// The entry a line holds: none for a blank line or a `#` comment, else the trimmed
/// text before and after its first `=` (no entry without one).
pub open spec fn parse_line(line: Seq<char>) -> Option<(Seq<char>, Seq<char>)> {
    let t = trim_spec(line);
    if t.len() == 0 || t[0] == '#' {
        None
    } else {
        match split_once_spec(t, '=') {
            Some((k, v)) => Some((trim_spec(k), trim_spec(v))),
            None => None,
        }
    }
}

pub open spec fn parse_lines(ls: Seq<Seq<char>>) -> Seq<(Seq<char>, Seq<char>)>
    decreases ls.len(),
{
    if ls.len() == 0 {
        seq![]
    } else {
        parse_lines(ls.drop_last()) + match parse_line(ls.last()) {
            Some(p) => seq![p],
            None => Seq::<(Seq<char>, Seq<char>)>::empty(),
        }
    }
}

/// The entries of the file, in file order.
pub open spec fn parse_content_spec(content: Seq<char>) -> Seq<(Seq<char>, Seq<char>)> {
    parse_lines(lines_spec(content))
}

fn parse_line_exec(line: &str) -> (r: Option<(String, String)>)
    ensures
        match (r, parse_line(line@)) {
            (Some((k, v)), Some((a, b))) => k@ == a && v@ == b,
            (None, None) => true,
            _ => false,
        },
{
    let t = trim(line);
    if t.as_str().unicode_len() == 0 || t.as_str().get_char(0) == '#' {
        return None;
    }
    match split_once(t.as_str(), '=') {
        Some((k, v)) => Some((trim(k.as_str()), trim(v.as_str()))),
        None => None,
    }
}

/// Reads the entries of the file: `KEY=value` lines with the key and the value trimmed;
/// blank lines and `#` comments are skipped.
pub fn parse_content(content: &str) -> (r: Vec<(String, String)>)
    ensures
        pairs_view(r@) == parse_content_spec(content@),
{
    let ls = lines(content);
    let ghost lv = views(ls@);
    let mut out: Vec<(String, String)> = Vec::new();
    let mut i: usize = 0;
    while i < ls.len()
        invariant
            lv == views(ls@),
            lv == lines_spec(content@),
            i <= ls@.len(),
            pairs_view(out@) == parse_lines(lv.take(i as int)),
        decreases ls@.len() - i,
    {
        assert(lv.take(i + 1).drop_last() =~= lv.take(i as int));
        assert(lv.take(i + 1).last() == ls@[i as int]@);
        let ghost before = out@;
        match parse_line_exec(ls[i].as_str()) {
            Some(p) => {
                out.push(p);
                assert(pairs_view(out@) =~= pairs_view(before) + seq![
                    parse_line(ls@[i as int]@).unwrap(),
                ]);
            },
            None => {
                assert(pairs_view(out@) =~= pairs_view(before) + Seq::<(Seq<char>, Seq<char>)>::empty());
            },
        }
        i = i + 1;
    }
    assert(lv.take(ls@.len() as int) =~= lv);
    out
}

/// The key a line sets, for the purpose of replacing it: none for a blank line or a
/// `#` comment, else the trimmed text before its first `=` (none without one).
pub open spec fn line_key(line: Seq<char>) -> Option<Seq<char>> {
    let ts = trim_start_spec(line);
    if ts.len() == 0 || ts[0] == '#' {
        None
    } else if line.contains('=') {
        let k = choose|k: int| is_first_index(line, '=', k);
        Some(trim_spec(line.take(k)))
    } else {
        None
    }
}

pub open spec fn is_first_key(rem: Seq<(Seq<char>, Seq<char>)>, key: Seq<char>, p: int) -> bool {
    &&& 0 <= p < rem.len()
    &&& rem[p].0 == key
    &&& forall|j: int| 0 <= j < p ==> rem[j].0 != key
}

pub open spec fn entry_line(key: Seq<char>, value: Seq<char>) -> Seq<char> {
    key + "="@ + value
}

/// Output lines so far and the updates not yet applied, after one more input line.
pub open spec fn upsert_step(
    st: (Seq<Seq<char>>, Seq<(Seq<char>, Seq<char>)>),
    line: Seq<char>,
) -> (Seq<Seq<char>>, Seq<(Seq<char>, Seq<char>)>) {
    match line_key(line) {
        Some(key) => if exists|p: int| is_first_key(st.1, key, p) {
            let p = choose|p: int| is_first_key(st.1, key, p);
            (st.0.push(entry_line(key, st.1[p].1)), st.1.remove(p))
        } else {
            (st.0.push(line), st.1)
        },
        None => (st.0.push(line), st.1),
    }
}

pub open spec fn upsert_scan(ls: Seq<Seq<char>>, updates: Seq<(Seq<char>, Seq<char>)>) -> (
    Seq<Seq<char>>,
    Seq<(Seq<char>, Seq<char>)>,
)
    decreases ls.len(),
{
    if ls.len() == 0 {
        (seq![], updates)
    } else {
        upsert_step(upsert_scan(ls.drop_last(), updates), ls.last())
    }
}

pub open spec fn entry_lines(rem: Seq<(Seq<char>, Seq<char>)>) -> Seq<Seq<char>> {
    rem.map_values(|e: (Seq<char>, Seq<char>)| entry_line(e.0, e.1))
}

/// The lines of the new file: each line that sets a key of `updates` now sets it to the
/// new value (the first such line per key), every other line as it was, then the keys
/// that no line set, in the order given.
pub open spec fn upsert_lines(content: Seq<char>, updates: Seq<(Seq<char>, Seq<char>)>) -> Seq<Seq<char>> {
    let (out, rem) = upsert_scan(lines_spec(content), updates);
    out + entry_lines(rem)
}

pub open spec fn upsert_content_spec(content: Seq<char>, updates: Seq<(Seq<char>, Seq<char>)>) -> Seq<char> {
    join_spec(upsert_lines(content, updates), "\n"@) + "\n"@
}

pub open spec fn updates_view(u: Seq<(&str, &str)>) -> Seq<(Seq<char>, Seq<char>)> {
    u.map_values(|p: (&str, &str)| (p.0@, p.1@))
}

fn line_key_exec(line: &str) -> (r: Option<String>)
    ensures
        match (r, line_key(line@)) {
            (Some(k), Some(kk)) => k@ == kk,
            (None, None) => true,
            _ => false,
        },
{
    let ts = trim_start(line);
    if ts.as_str().unicode_len() == 0 || ts.as_str().get_char(0) == '#' {
        return None;
    }
    match find_char(line, '=') {
        Some(eq) => {
            let key = trim(substring(line, 0, eq).as_str());
            proof {
                let k = choose|k: int| is_first_index(line@, '=', k);
                lemma_first_index_unique(line@, '=', eq as int, k);
                assert(line@.subrange(0, eq as int) =~= line@.take(eq as int));
            }
            Some(key)
        },
        None => None,
    }
}

fn find_key(rem: &Vec<(&str, &str)>, key: &str) -> (r: Option<usize>)
    ensures
        match r {
            Some(p) => is_first_key(updates_view(rem@), key@, p as int),
            None => !exists|p: int| is_first_key(updates_view(rem@), key@, p),
        },
{
    let mut k: usize = 0;
    while k < rem.len()
        invariant
            k <= rem@.len(),
            forall|j: int| 0 <= j < k ==> rem@[j].0@ != key@,
        decreases rem@.len() - k,
    {
        if str_eq(rem[k].0, key) {
            return Some(k);
        }
        k = k + 1;
    }
    proof {
        if exists|p: int| is_first_key(updates_view(rem@), key@, p) {
            let p = choose|p: int| is_first_key(updates_view(rem@), key@, p);
            assert(rem@[p].0@ == key@);
        }
    }
    None
}

fn entry_line_exec(key: &str, value: &str) -> (r: String)
    ensures
        r@ == entry_line(key@, value@),
{
    let mut s = to_owned_str(key);
    push_str(&mut s, "=");
    push_str(&mut s, value);
    s
}

/// The new text of the file after setting `updates`: a line that sets one of the keys
/// gets the new value in place, all other lines stay as they are, keys not found are
/// appended in the order given, and the text ends with a newline.
pub fn upsert_content(content: &str, updates: &[(&str, &str)]) -> (r: String)
    ensures
        r@ == upsert_content_spec(content@, updates_view(updates@)),
{
    let ghost uv = updates_view(updates@);
    let mut remaining: Vec<(&str, &str)> = Vec::new();
    let mut u: usize = 0;
    while u < updates.len()
        invariant
            u <= updates@.len(),
            uv == updates_view(updates@),
            updates_view(remaining@) == uv.take(u as int),
        decreases updates@.len() - u,
    {
        let ghost before = remaining@;
        let e = updates[u];
        remaining.push(e);
        assert(e == updates@[u as int]);
        assert(updates_view(remaining@) =~= updates_view(before).push((e.0@, e.1@)));
        assert(uv.take(u + 1) =~= uv.take(u as int).push((e.0@, e.1@)));
        u = u + 1;
    }
    assert(uv.take(updates@.len() as int) =~= uv);

    let ls = lines(content);
    let ghost lv = views(ls@);
    let mut out: Vec<String> = Vec::new();
    let mut i: usize = 0;
    while i < ls.len()
        invariant
            lv == views(ls@),
            lv == lines_spec(content@),
            i <= ls@.len(),
            views(out@) == upsert_scan(lv.take(i as int), uv).0,
            updates_view(remaining@) == upsert_scan(lv.take(i as int), uv).1,
        decreases ls@.len() - i,
    {
        assert(lv.take(i + 1).drop_last() =~= lv.take(i as int));
        assert(lv.take(i + 1).last() == ls@[i as int]@);
        let line = ls[i].as_str();
        let ghost before = out@;
        let ghost rem_before = updates_view(remaining@);
        match line_key_exec(line) {
            Some(key) => {
                match find_key(&remaining, key.as_str()) {
                    Some(p) => {
                        let (_, value) = remaining.remove(p);
                        let l = entry_line_exec(key.as_str(), value);
                        out.push(l);
                        proof {
                            let pp = choose|pp: int| is_first_key(rem_before, key@, pp);
                            assert(is_first_key(rem_before, key@, p as int));
                            if pp < p {
                            } else if p < pp {
                            }
                            assert(pp == p);
                            assert(updates_view(remaining@) =~= rem_before.remove(p as int));
                            assert(views(out@) =~= views(before).push(entry_line(key@, rem_before[p as int].1)));
                        }
                    },
                    None => {
                        out.push(ls[i].clone());
                        assert(views(out@) =~= views(before).push(ls@[i as int]@));
                    },
                }
            },
            None => {
                out.push(ls[i].clone());
                assert(views(out@) =~= views(before).push(ls@[i as int]@));
            },
        }
        i = i + 1;
    }
    assert(lv.take(ls@.len() as int) =~= lv);
    let ghost scanned = views(out@);
    let ghost rem_all = updates_view(remaining@);
    let mut k: usize = 0;
    while k < remaining.len()
        invariant
            k <= remaining@.len(),
            rem_all == updates_view(remaining@),
            views(out@) == scanned + entry_lines(rem_all.take(k as int)),
        decreases remaining@.len() - k,
    {
        let (key, value) = remaining[k];
        let l = entry_line_exec(key, value);
        let ghost before = out@;
        out.push(l);
        assert(views(out@) =~= views(before).push(l@));
        assert(entry_lines(rem_all.take(k + 1)) =~= entry_lines(rem_all.take(k as int)).push(
            entry_line(rem_all[k as int].0, rem_all[k as int].1),
        ));
        assert(views(out@) =~= scanned + entry_lines(rem_all.take(k + 1)));
        k = k + 1;
    }
    assert(rem_all.take(remaining@.len() as int) =~= rem_all);
    assert(views(out@) =~= upsert_lines(content@, uv));
    let mut result = join(&out, "\n");
    push_str(&mut result, "\n");
    result
}


/// A key and value that read back as written: a key of at least one character, no
/// surrounding whitespace on either, no `=` or `#` lead in the key, no newline in either.
pub open spec fn plain_entry(e: (Seq<char>, Seq<char>)) -> bool {
    let (k, v) = e;
    &&& k.len() > 0
    &&& !is_ws(k[0])
    &&& !is_ws(k.last())
    &&& k[0] != '#'
    &&& !k.contains('=')
    &&& !k.contains('\n')
    &&& !v.contains('\n')
    &&& v.len() > 0 ==> !is_ws(v[0]) && !is_ws(v.last())
}

proof fn lemma_scan_text(p: Seq<char>, x: Seq<char>)
    requires
        line_scan(p).1 == Seq::<char>::empty(),
        !x.contains('\n'),
    ensures
        line_scan(p + x) == (line_scan(p).0, x),
    decreases x.len(),
{
    if x.len() == 0 {
        assert(p + x =~= p);
    } else {
        let x2 = x.drop_last();
        assert(!x2.contains('\n')) by {
            if x2.contains('\n') {
                let k = choose|k: int| 0 <= k < x2.len() && x2[k] == '\n';
                assert(x[k] == '\n');
            }
        }
        lemma_scan_text(p, x2);
        assert((p + x).drop_last() =~= p + x2);
        assert((p + x).last() == x.last());
        assert(x.last() != '\n') by {
            assert(x[x.len() - 1] == x.last());
        }
        assert(x2.push(x.last()) =~= x);
    }
}

proof fn lemma_scan_line(p: Seq<char>, x: Seq<char>)
    requires
        line_scan(p).1 == Seq::<char>::empty(),
        !x.contains('\n'),
    ensures
        line_scan(p + x + "\n"@) == (line_scan(p).0.push(strip_cr(x)), Seq::<char>::empty()),
{
    reveal_strlit("\n");
    lemma_scan_text(p, x);
    let t = p + x + "\n"@;
    assert(t.drop_last() =~= p + x);
    assert(t.last() == '\n');
}

pub open spec fn no_newlines(ls: Seq<Seq<char>>) -> bool {
    forall|i: int| 0 <= i < ls.len() ==> !(#[trigger] ls[i]).contains('\n')
}

proof fn lemma_join_lines(ls: Seq<Seq<char>>)
    requires
        ls.len() > 0,
        no_newlines(ls),
    ensures
        line_scan(join_spec(ls, "\n"@) + "\n"@) == (
            ls.map_values(|l: Seq<char>| strip_cr(l)),
            Seq::<char>::empty(),
        ),
    decreases ls.len(),
{
    reveal_strlit("\n");
    if ls.len() == 1 {
        assert(line_scan(Seq::<char>::empty()) == (Seq::<Seq<char>>::empty(), Seq::<char>::empty()));
        lemma_scan_line(Seq::<char>::empty(), ls[0]);
        assert(Seq::<char>::empty() + ls[0] =~= ls[0]);
        assert(join_spec(ls, "\n"@) == ls[0]);
        assert(ls.map_values(|l: Seq<char>| strip_cr(l)) =~= seq![strip_cr(ls[0])]);
        assert(Seq::<Seq<char>>::empty().push(strip_cr(ls[0])) =~= seq![strip_cr(ls[0])]);
    } else {
        let front = ls.drop_last();
        assert(no_newlines(front)) by {
            assert forall|i: int| 0 <= i < front.len() implies !(#[trigger] front[i]).contains('\n') by {
                assert(front[i] == ls[i]);
            }
        }
        lemma_join_lines(front);
        let p = join_spec(front, "\n"@) + "\n"@;
        assert(!ls.last().contains('\n')) by {
            assert(ls[ls.len() - 1] == ls.last());
        }
        lemma_scan_line(p, ls.last());
        assert(join_spec(ls, "\n"@) + "\n"@ =~= p + ls.last() + "\n"@);
        assert(ls.map_values(|l: Seq<char>| strip_cr(l)) =~= front.map_values(|l: Seq<char>| strip_cr(l)).push(
            strip_cr(ls.last()),
        ));
    }
}

proof fn lemma_scan_no_newlines(s: Seq<char>)
    ensures
        no_newlines(line_scan(s).0),
        !line_scan(s).1.contains('\n'),
    decreases s.len(),
{
    if s.len() > 0 {
        lemma_scan_no_newlines(s.drop_last());
        let (done, cur) = line_scan(s.drop_last());
        if s.last() == '\n' {
            let l = strip_cr(cur);
            assert(!l.contains('\n')) by {
                if l.contains('\n') {
                    let k = choose|k: int| 0 <= k < l.len() && l[k] == '\n';
                    assert(cur[k] == l[k]);
                }
            }
            assert(no_newlines(done.push(l))) by {
                assert forall|i: int| 0 <= i < done.push(l).len() implies !(#[trigger] done.push(l)[i]).contains(
                    '\n',
                ) by {
                    if i < done.len() {
                        assert(done.push(l)[i] == done[i]);
                    }
                }
            }
            assert(!Seq::<char>::empty().contains('\n'));
        } else {
            let c2 = cur.push(s.last());
            assert(!c2.contains('\n')) by {
                if c2.contains('\n') {
                    let k = choose|k: int| 0 <= k < c2.len() && c2[k] == '\n';
                    if k < cur.len() {
                        assert(cur[k] == c2[k]);
                    }
                }
            }
        }
    }
}

proof fn lemma_lines_no_newlines(s: Seq<char>)
    ensures
        no_newlines(lines_spec(s)),
{
    lemma_scan_no_newlines(s);
    let (done, cur) = line_scan(s);
    if cur.len() > 0 {
        assert forall|i: int| 0 <= i < done.push(cur).len() implies !(#[trigger] done.push(cur)[i]).contains('\n') by {
            if i < done.len() {
                assert(done.push(cur)[i] == done[i]);
            }
        }
    }
}

proof fn lemma_parse_lines_has(ls: Seq<Seq<char>>, i: int, e: (Seq<char>, Seq<char>))
    requires
        0 <= i < ls.len(),
        parse_line(ls[i]) == Some(e),
    ensures
        parse_lines(ls).contains(e),
    decreases ls.len(),
{
    if i == ls.len() - 1 {
        let pl = parse_lines(ls.drop_last()) + seq![e];
        assert(pl[pl.len() - 1] == e);
    } else {
        assert(ls.drop_last()[i] == ls[i]);
        lemma_parse_lines_has(ls.drop_last(), i, e);
        let pre = parse_lines(ls.drop_last());
        let k = choose|k: int| 0 <= k < pre.len() && pre[k] == e;
        assert(parse_lines(ls)[k] == e);
    }
}

proof fn lemma_trim_plain(s: Seq<char>)
    requires
        s.len() > 0,
        !is_ws(s[0]),
        !is_ws(s.last()),
    ensures
        trim_spec(s) == s,
{
    assert(trim_start_spec(s) == s);
    assert(trim_end_spec(s) == s);
}

proof fn lemma_entry_line_parses(k: Seq<char>, v: Seq<char>)
    requires
        plain_entry((k, v)),
    ensures
        parse_line(entry_line(k, v)) == Some((k, v)),
        !entry_line(k, v).contains('\n'),
        strip_cr(entry_line(k, v)) == entry_line(k, v),
{
    reveal_strlit("=");
    let l = entry_line(k, v);
    assert(l =~= k + seq!['='] + v);
    assert(l[0] == k[0]);
    if v.len() > 0 {
        assert(l.last() == v.last());
    } else {
        assert(l.last() == '=');
    }
    lemma_trim_plain(l);
    assert(is_first_index(l, '=', k.len() as int)) by {
        assert forall|j: int| 0 <= j < k.len() implies l[j] != '=' by {
            assert(l[j] == k[j]);
        }
    }
    let kk = choose|kk: int| is_first_index(l, '=', kk);
    lemma_first_index_unique(l, '=', k.len() as int, kk);
    assert(l.take(k.len() as int) =~= k);
    assert(l.skip(k.len() + 1int) =~= v);
    lemma_trim_plain(k);
    if v.len() > 0 {
        lemma_trim_plain(v);
    } else {
        assert(trim_start_spec(v) == v);
        assert(trim_end_spec(v) == v);
    }
    assert(!l.contains('\n')) by {
        if l.contains('\n') {
            let j = choose|j: int| 0 <= j < l.len() && l[j] == '\n';
            if j < k.len() {
                assert(k[j] == l[j]);
            } else if j > k.len() {
                assert(v[j - k.len() - 1] == l[j]);
            }
        }
    }
}

pub open spec fn from_lines_or_entries(
    out: Seq<Seq<char>>,
    ls: Seq<Seq<char>>,
    updates: Seq<(Seq<char>, Seq<char>)>,
) -> bool {
    forall|i: int|
        0 <= i < out.len() ==> ls.contains(#[trigger] out[i]) || exists|e: (Seq<char>, Seq<char>)|
            updates.contains(e) && out[i] == entry_line(e.0, e.1)
}

proof fn lemma_scan_keeps_updates(ls: Seq<Seq<char>>, updates: Seq<(Seq<char>, Seq<char>)>)
    ensures
        forall|e: (Seq<char>, Seq<char>)|
            #![trigger updates.contains(e)]
            updates.contains(e) ==> upsert_scan(ls, updates).0.contains(entry_line(e.0, e.1))
                || upsert_scan(ls, updates).1.contains(e),
        forall|e: (Seq<char>, Seq<char>)|
            #![trigger upsert_scan(ls, updates).1.contains(e)]
            upsert_scan(ls, updates).1.contains(e) ==> updates.contains(e),
        from_lines_or_entries(upsert_scan(ls, updates).0, ls, updates),
    decreases ls.len(),
{
    if ls.len() > 0 {
        let front = ls.drop_last();
        lemma_scan_keeps_updates(front, updates);
        let (out, rem) = upsert_scan(front, updates);
        let line = ls.last();
        let (out2, rem2) = upsert_step((out, rem), line);
        assert(upsert_scan(ls, updates) == (out2, rem2));
        assert forall|x: Seq<char>| out.contains(x) implies out2.contains(x) by {
            let j = choose|j: int| 0 <= j < out.len() && out[j] == x;
            assert(out2[j] == x);
        }
        assert(ls.contains(line)) by {
            assert(ls[ls.len() - 1] == line);
        }
        assert forall|x: Seq<char>| front.contains(x) implies ls.contains(x) by {
            let j = choose|j: int| 0 <= j < front.len() && front[j] == x;
            assert(ls[j] == x);
        }
        match line_key(line) {
            Some(key) => {
                if exists|p: int| is_first_key(rem, key, p) {
                    let p = choose|p: int| is_first_key(rem, key, p);
                    let taken = rem[p];
                    assert(rem.contains(taken));
                    assert(out2 == out.push(entry_line(key, taken.1)));
                    assert(rem2 == rem.remove(p));
                    assert(out2[out.len() as int] == entry_line(taken.0, taken.1));
                    assert forall|e: (Seq<char>, Seq<char>)| #![trigger updates.contains(e)] updates.contains(e) implies out2.contains(
                        entry_line(e.0, e.1),
                    ) || rem2.contains(e) by {
                        if !out.contains(entry_line(e.0, e.1)) {
                            assert(rem.contains(e));
                            let j = choose|j: int| 0 <= j < rem.len() && rem[j] == e;
                            if j < p {
                                assert(rem2[j] == e);
                            } else if j > p {
                                assert(rem2[j - 1] == e);
                            } else {
                                assert(out2.contains(entry_line(e.0, e.1)));
                            }
                        }
                    }
                    assert forall|e: (Seq<char>, Seq<char>)| #![trigger rem2.contains(e)] rem2.contains(e) implies updates.contains(e) by {
                        let j = choose|j: int| 0 <= j < rem2.len() && rem2[j] == e;
                        if j < p {
                            assert(rem[j] == e);
                        } else {
                            assert(rem[j + 1] == e);
                        }
                        assert(rem.contains(e));
                    }
                    assert(updates.contains(taken));
                } else {
                    assert(out2 == out.push(line));
                }
            },
            None => {
                assert(out2 == out.push(line));
            },
        }
        assert(from_lines_or_entries(out2, ls, updates)) by {
            assert forall|i: int| 0 <= i < out2.len() implies ls.contains(#[trigger] out2[i]) || exists|
                e: (Seq<char>, Seq<char>),
            | updates.contains(e) && out2[i] == entry_line(e.0, e.1) by {
                if i < out.len() {
                    assert(out2[i] == out[i]);
                    if front.contains(out[i]) {
                    }
                }
            }
        }
    }
}

pub open spec fn key_updated(updates: Seq<(Seq<char>, Seq<char>)>, key: Seq<char>) -> bool {
    exists|j: int| 0 <= j < updates.len() && updates[j].0 == key
}

/// A line that sets no key of `updates`: blank, a comment, or another key.
pub open spec fn untouched_line(line: Seq<char>, updates: Seq<(Seq<char>, Seq<char>)>) -> bool {
    match line_key(line) {
        Some(key) => !key_updated(updates, key),
        None => true,
    }
}

proof fn lemma_scan_shape(ls: Seq<Seq<char>>, updates: Seq<(Seq<char>, Seq<char>)>)
    ensures
        upsert_scan(ls, updates).0.len() == ls.len(),
        forall|e: (Seq<char>, Seq<char>)| #[trigger] upsert_scan(ls, updates).1.contains(e) ==> updates.contains(e),
        forall|i: int| 0 <= i < ls.len() && untouched_line(ls[i], updates) ==> #[trigger] upsert_scan(ls, updates).0[i] == ls[i],
    decreases ls.len(),
{
    if ls.len() > 0 {
        let front = ls.drop_last();
        lemma_scan_shape(front, updates);
        let st = upsert_scan(front, updates);
        let line = ls.last();
        let next = upsert_scan(ls, updates);
        assert(next == upsert_step(st, line));
        match line_key(line) {
            Some(key) => {
                if exists|p: int| is_first_key(st.1, key, p) {
                    let p = choose|p: int| is_first_key(st.1, key, p);
                    assert(st.1.contains(st.1[p]));
                    assert(updates.contains(st.1[p]));
                    let j = choose|j: int| 0 <= j < updates.len() && updates[j] == st.1[p];
                    assert(key_updated(updates, key));
                    assert forall|e: (Seq<char>, Seq<char>)| #[trigger] next.1.contains(e) implies updates.contains(e) by {
                        let q = choose|q: int| 0 <= q < next.1.len() && next.1[q] == e;
                        if q < p {
                            assert(st.1[q] == e);
                        } else {
                            assert(st.1[q + 1] == e);
                        }
                        assert(st.1.contains(e));
                    }
                }
            },
            None => {},
        }
        assert forall|i: int| 0 <= i < ls.len() && untouched_line(ls[i], updates) implies #[trigger] next.0[i] == ls[i] by {
            if i < front.len() {
                assert(front[i] == ls[i]);
                assert(next.0[i] == st.0[i]);
            } else {
                if let Some(key) = line_key(line) {
                    if exists|p: int| is_first_key(st.1, key, p) {
                        let p = choose|p: int| is_first_key(st.1, key, p);
                        assert(st.1.contains(st.1[p]));
                        let j = choose|j: int| 0 <= j < updates.len() && updates[j] == st.1[p];
                        assert(key_updated(updates, key));
                    }
                }
            }
        }
    }
}

/// Setting keys leaves every other line where it was: a blank line, a comment, or a
/// line that sets a key not being set comes out unchanged at its place.
pub proof fn lemma_upsert_keeps_other_lines(content: Seq<char>, updates: Seq<(Seq<char>, Seq<char>)>, i: int)
    requires
        0 <= i < lines_spec(content).len(),
        untouched_line(lines_spec(content)[i], updates),
    ensures
        upsert_lines(content, updates)[i] == lines_spec(content)[i],
{
    let ls = lines_spec(content);
    lemma_scan_shape(ls, updates);
    let (out, rem) = upsert_scan(ls, updates);
    assert((out + entry_lines(rem))[i] == out[i]);
}

/// Every key set by an upsert is read back with the value it was set to, as long as
/// keys and values are plain: the file is then parsed exactly as written.
pub proof fn lemma_upsert_reads_back(content: Seq<char>, updates: Seq<(Seq<char>, Seq<char>)>)
    requires
        forall|i: int| 0 <= i < updates.len() ==> plain_entry(#[trigger] updates[i]),
    ensures
        forall|i: int|
            0 <= i < updates.len() ==> parse_content_spec(upsert_content_spec(content, updates)).contains(
                #[trigger] updates[i],
            ),
{
    let ls = lines_spec(content);
    lemma_lines_no_newlines(content);
    lemma_scan_keeps_updates(ls, updates);
    let (out, rem) = upsert_scan(ls, updates);
    let all = out + entry_lines(rem);
    assert(upsert_lines(content, updates) == all);
    assert forall|i: int| 0 <= i < updates.len() implies parse_content_spec(
        upsert_content_spec(content, updates),
    ).contains(#[trigger] updates[i]) by {
        let e = updates[i];
        assert(updates.contains(e));
        lemma_entry_line_parses(e.0, e.1);
        // the line of e is among all the lines written
        let j: int = if out.contains(entry_line(e.0, e.1)) {
            choose|j: int| 0 <= j < out.len() && out[j] == entry_line(e.0, e.1)
        } else {
            let q = choose|q: int| 0 <= q < rem.len() && rem[q] == e;
            out.len() + q
        };
        assert(all[j] == entry_line(e.0, e.1));
        assert(no_newlines(all)) by {
            assert forall|t: int| 0 <= t < all.len() implies !(#[trigger] all[t]).contains('\n') by {
                if t < out.len() {
                    assert(all[t] == out[t]);
                    if ls.contains(out[t]) {
                        let u = choose|u: int| 0 <= u < ls.len() && ls[u] == out[t];
                        assert(!ls[u].contains('\n'));
                    } else {
                        let f = choose|f: (Seq<char>, Seq<char>)| updates.contains(f) && out[t] == entry_line(f.0, f.1);
                        let fi = choose|fi: int| 0 <= fi < updates.len() && updates[fi] == f;
                        assert(plain_entry(updates[fi]));
                        lemma_entry_line_parses(f.0, f.1);
                    }
                } else {
                    let q = t - out.len();
                    assert(rem.contains(rem[q]));
                    assert(updates.contains(rem[q]));
                    let fi = choose|fi: int| 0 <= fi < updates.len() && updates[fi] == rem[q];
                    assert(plain_entry(updates[fi]));
                    lemma_entry_line_parses(rem[q].0, rem[q].1);
                    assert(all[t] == entry_line(rem[q].0, rem[q].1));
                }
            }
        }
        lemma_join_lines(all);
        let text = join_spec(all, "\n"@) + "\n"@;
        assert(lines_spec(text) == all.map_values(|l: Seq<char>| strip_cr(l)));
        assert(lines_spec(text)[j] == entry_line(e.0, e.1));
        lemma_parse_lines_has(lines_spec(text), j, e);
    }
}

/// A line that ends in a carriage return. `lines` takes one `\r` off a line that ends
/// in `\r\n`, so only a line with a second `\r`, or a last line without a newline,
/// can still end in one.
pub open spec fn ends_in_cr(l: Seq<char>) -> bool {
    l.len() > 0 && l.last() == '\r'
}

proof fn lemma_entry_line_key(k: Seq<char>, v: Seq<char>)
    requires
        plain_entry((k, v)),
    ensures
        line_key(entry_line(k, v)) == Some(k),
{
    reveal_strlit("=");
    let l = entry_line(k, v);
    assert(l =~= k + seq!['='] + v);
    assert(l[0] == k[0]);
    assert(trim_start_spec(l) == l);
    assert(l[k.len() as int] == '=');
    assert(is_first_index(l, '=', k.len() as int)) by {
        assert forall|j: int| 0 <= j < k.len() implies l[j] != '=' by {
            assert(l[j] == k[j]);
        }
    }
    let kk = choose|kk: int| is_first_index(l, '=', kk);
    lemma_first_index_unique(l, '=', k.len() as int, kk);
    assert(l.take(k.len() as int) =~= k);
    lemma_trim_plain(k);
}

/// Scanning the lines a scan wrote, with the same updates, makes the same choices:
/// a line that took a new value still sets the same key.
proof fn lemma_rescan(ls: Seq<Seq<char>>, updates: Seq<(Seq<char>, Seq<char>)>)
    requires
        forall|i: int| 0 <= i < updates.len() ==> plain_entry(#[trigger] updates[i]),
    ensures
        upsert_scan(upsert_scan(ls, updates).0, updates) == upsert_scan(ls, updates),
    decreases ls.len(),
{
    if ls.len() > 0 {
        let front = ls.drop_last();
        lemma_rescan(front, updates);
        lemma_scan_shape(front, updates);
        let st = upsert_scan(front, updates);
        let line = ls.last();
        let next = upsert_step(st, line);
        assert(upsert_scan(ls, updates) == next);
        let out2 = next.0;
        assert(out2.drop_last() =~= st.0);
        assert(upsert_scan(out2, updates) == upsert_step(upsert_scan(out2.drop_last(), updates), out2.last()));
        match line_key(line) {
            Some(key) => {
                if exists|p: int| is_first_key(st.1, key, p) {
                    let p = choose|p: int| is_first_key(st.1, key, p);
                    assert(st.1.contains(st.1[p]));
                    assert(updates.contains(st.1[p]));
                    let j = choose|j: int| 0 <= j < updates.len() && updates[j] == st.1[p];
                    assert(plain_entry(updates[j]));
                    lemma_entry_line_key(key, st.1[p].1);
                    assert(out2.last() == entry_line(key, st.1[p].1));
                } else {
                    assert(out2.last() == line);
                }
            },
            None => {
                assert(out2.last() == line);
            },
        }
    }
}

/// Scanning appended entry lines after a scan that left `rem` unapplied: each entry
/// line is the first one for its key, so it takes its own value and leaves `rem`.
proof fn lemma_rescan_entries(
    done: Seq<Seq<char>>,
    rem: Seq<(Seq<char>, Seq<char>)>,
    updates: Seq<(Seq<char>, Seq<char>)>,
    k: int,
)
    requires
        forall|i: int| 0 <= i < rem.len() ==> plain_entry(#[trigger] rem[i]),
        0 <= k <= rem.len(),
        upsert_scan(done, updates) == (done, rem),
    ensures
        upsert_scan(done + entry_lines(rem).take(k), updates) == (done + entry_lines(rem.take(k)), rem.skip(k)),
    decreases k,
{
    if k == 0 {
        assert(done + entry_lines(rem).take(0) =~= done);
        assert(done + entry_lines(rem.take(0)) =~= done);
        assert(rem.skip(0) =~= rem);
    } else {
        lemma_rescan_entries(done, rem, updates, k - 1);
        let s = done + entry_lines(rem).take(k);
        assert(s.drop_last() =~= done + entry_lines(rem).take(k - 1));
        let e = rem[k - 1];
        assert(s.last() == entry_line(e.0, e.1));
        assert(plain_entry(rem[k - 1]));
        lemma_entry_line_key(e.0, e.1);
        let tail = rem.skip(k - 1);
        assert(tail[0] == e);
        assert(is_first_key(tail, e.0, 0));
        let p = choose|p: int| is_first_key(tail, e.0, p);
        assert(p == 0);
        assert(tail.remove(0) =~= rem.skip(k));
        let st = upsert_scan(s.drop_last(), updates);
        assert(st == (done + entry_lines(rem.take(k - 1)), tail));
        assert(s.len() > 0);
        assert(upsert_scan(s, updates) == upsert_step(st, s.last()));
        assert(line_key(s.last()) == Some(e.0));
        assert(st.1 == tail);
        match line_key(s.last()) {
            Some(key) => {
                assert(is_first_key(st.1, key, 0));
                let pp = choose|q: int| is_first_key(st.1, key, q);
                assert(pp == 0) by {
                    if pp > 0 {
                        assert(st.1[0].0 != key);
                    }
                }
            },
            None => {},
        }
        assert(upsert_step(st, s.last()) == (st.0.push(entry_line(e.0, tail[0].1)), tail.remove(0)));
        assert(done + entry_lines(rem.take(k - 1)) + seq![entry_line(e.0, e.1)] =~= done + entry_lines(rem.take(k)));
        assert((done + entry_lines(rem.take(k - 1))).push(entry_line(e.0, e.1)) =~= done + entry_lines(rem.take(k)));
    }
}

/// Setting the same plain keys a second time changes nothing: the file written by an
/// upsert is read back line for line, each updated key is found on its own line, and
/// so the second upsert writes the same text. This holds when no line of the original
/// text still ends in a carriage return once read, since writing drops the one that
/// reading keeps.
pub proof fn lemma_upsert_idempotent(content: Seq<char>, updates: Seq<(Seq<char>, Seq<char>)>)
    requires
        forall|i: int| 0 <= i < updates.len() ==> plain_entry(#[trigger] updates[i]),
        forall|i: int| 0 <= i < lines_spec(content).len() ==> !ends_in_cr(#[trigger] lines_spec(content)[i]),
    ensures
        upsert_content_spec(upsert_content_spec(content, updates), updates) == upsert_content_spec(
            content,
            updates,
        ),
{
    reveal_strlit("\n");
    let ls = lines_spec(content);
    lemma_lines_no_newlines(content);
    lemma_scan_keeps_updates(ls, updates);
    lemma_scan_shape(ls, updates);
    let (out, rem) = upsert_scan(ls, updates);
    let all = out + entry_lines(rem);
    let text = upsert_content_spec(content, updates);
    assert(upsert_lines(content, updates) == all);
    assert(text == join_spec(all, "\n"@) + "\n"@);
    assert forall|t: int| 0 <= t < all.len() implies !(#[trigger] all[t]).contains('\n') && strip_cr(all[t])
        == all[t] by {
        if t < out.len() {
            assert(all[t] == out[t]);
            if ls.contains(out[t]) {
                let u = choose|u: int| 0 <= u < ls.len() && ls[u] == out[t];
                assert(!ls[u].contains('\n'));
                assert(!ends_in_cr(ls[u]));
            } else {
                let f = choose|f: (Seq<char>, Seq<char>)| updates.contains(f) && out[t] == entry_line(f.0, f.1);
                let fi = choose|fi: int| 0 <= fi < updates.len() && updates[fi] == f;
                assert(plain_entry(updates[fi]));
                lemma_entry_line_parses(f.0, f.1);
            }
        } else {
            let q = t - out.len();
            assert(rem.contains(rem[q]));
            assert(updates.contains(rem[q]));
            let fi = choose|fi: int| 0 <= fi < updates.len() && updates[fi] == rem[q];
            assert(plain_entry(updates[fi]));
            lemma_entry_line_parses(rem[q].0, rem[q].1);
            assert(all[t] == entry_line(rem[q].0, rem[q].1));
        }
    }
    assert forall|i: int| 0 <= i < rem.len() implies plain_entry(#[trigger] rem[i]) by {
        assert(rem.contains(rem[i]));
        assert(updates.contains(rem[i]));
        let fi = choose|fi: int| 0 <= fi < updates.len() && updates[fi] == rem[i];
        assert(plain_entry(updates[fi]));
    }
    lemma_rescan(ls, updates);
    lemma_rescan_entries(out, rem, updates, rem.len() as int);
    assert(entry_lines(rem).take(rem.len() as int) =~= entry_lines(rem));
    assert(rem.take(rem.len() as int) =~= rem);
    assert(rem.skip(rem.len() as int) =~= Seq::<(Seq<char>, Seq<char>)>::empty());
    assert(upsert_scan(all, updates) == (all, Seq::<(Seq<char>, Seq<char>)>::empty()));
    if all.len() == 0 {
        assert(ls.len() == 0);
        assert(updates.len() == 0);
        assert(text =~= seq!['\n']);
        assert(text.drop_last() =~= Seq::<char>::empty());
        let one = seq![Seq::<char>::empty()];
        assert(text.last() == '\n');
        assert(line_scan(Seq::<char>::empty()) == (Seq::<Seq<char>>::empty(), Seq::<char>::empty()));
        assert(line_scan(text.drop_last()) == (Seq::<Seq<char>>::empty(), Seq::<char>::empty()));
        assert(strip_cr(Seq::<char>::empty()) == Seq::<char>::empty());
        assert(Seq::<Seq<char>>::empty().push(Seq::<char>::empty()) =~= one);
        assert(line_scan(text) == (one, Seq::<char>::empty()));
        assert(lines_spec(text) == one);
        assert(one.drop_last() =~= Seq::<Seq<char>>::empty());
        assert(trim_start_spec(Seq::<char>::empty()).len() == 0);
        assert(line_key(Seq::<char>::empty()) is None);
        assert(upsert_scan(one, updates) == (one, updates));
        assert(entry_lines(updates) =~= Seq::<Seq<char>>::empty());
        assert(upsert_lines(text, updates) =~= one);
        assert(join_spec(one, "\n"@) == Seq::<char>::empty());
    } else {
        assert(no_newlines(all));
        lemma_join_lines(all);
        assert(all.map_values(|l: Seq<char>| strip_cr(l)) =~= all);
        assert(lines_spec(text) == all);
        assert(entry_lines(Seq::<(Seq<char>, Seq<char>)>::empty()) =~= Seq::<Seq<char>>::empty());
        assert(upsert_lines(text, updates) =~= all);
    }
}

} // verus!
