//! The human-readable output of the `sahai service` commands.

use vstd::prelude::*;
use vstd::string::*;
use crate::text::{dec_nat, digit_char, join, join_spec, push_char, push_str, push_u64, str_eq, to_owned_str, views};

verus! {

pub open spec fn pow1024(k: nat) -> nat
    decreases k,
{
    if k == 0 {
        1
    } else {
        1024 * pow1024((k - 1) as nat)
    }
}

/// The unit a size of at least 1024 bytes is shown in: the largest of KB, MB, GB and
/// TB that it reaches (TB for anything larger).
pub open spec fn unit_index(b: nat) -> nat {
    if b >= pow1024(4) {
        4
    } else if b >= pow1024(3) {
        3
    } else if b >= pow1024(2) {
        2
    } else {
        1
    }
}

pub open spec fn unit_name(k: nat) -> Seq<char> {
    if k == 1 {
        "KB"@
    } else if k == 2 {
        "MB"@
    } else if k == 3 {
        "GB"@
    } else {
        "TB"@
    }
}

/// `n / d` rounded to the nearest integer, a tie to the even one.
pub open spec fn round_half_even(n: nat, d: nat) -> nat {
    let q = n / d;
    let r = n % d;
    if 2 * r > d || (2 * r == d && q % 2 == 1) {
        q + 1
    } else {
        q
    }
}

/// A size in bytes as the web UI shows it: plain bytes below 1024, else the value in
/// its unit with one decimal, rounded to the nearest tenth (a tie to the even tenth).
pub open spec fn format_bytes_spec(b: nat) -> Seq<char> {
    if b < 1024 {
        dec_nat(b) + " B"@
    } else {
        let k = unit_index(b);
        let t = round_half_even(10 * b, pow1024(k));
        dec_nat(t / 10) + "."@ + seq![digit_char((t % 10) as int)] + " "@ + unit_name(k)
    }
}

fn digit(d: u64) -> (c: char)
    requires
        d < 10,
    ensures
        c == digit_char(d as int),
{
    if d == 0 { '0' }
    else if d == 1 { '1' }
    else if d == 2 { '2' }
    else if d == 3 { '3' }
    else if d == 4 { '4' }
    else if d == 5 { '5' }
    else if d == 6 { '6' }
    else if d == 7 { '7' }
    else if d == 8 { '8' }
    else { '9' }
}

proof fn lemma_pow1024_values()
    ensures
        pow1024(1) == 1024,
        pow1024(2) == 1048576,
        pow1024(3) == 1073741824,
        pow1024(4) == 1099511627776,
{
    reveal_with_fuel(pow1024, 5);
}

/// A size in bytes for display, such as `1.5 KB` or `1023 B`.
pub fn format_bytes(bytes: u64) -> (r: String)
    ensures
        r@ == format_bytes_spec(bytes as nat),
{
    proof {
        lemma_pow1024_values();
    }
    if bytes < 1024 {
        let mut s = String::new();
        push_u64(&mut s, bytes);
        push_str(&mut s, " B");
        assert(s@ =~= format_bytes_spec(bytes as nat));
        return s;
    }
    let (d, unit): (u128, &str) = if bytes >= 1099511627776 {
        (1099511627776u128, "TB")
    } else if bytes >= 1073741824 {
        (1073741824u128, "GB")
    } else if bytes >= 1048576 {
        (1048576u128, "MB")
    } else {
        (1024u128, "KB")
    };
    let ghost k = unit_index(bytes as nat);
    assert(d == pow1024(k));
    assert(unit@ == unit_name(k));
    let n: u128 = 10 * (bytes as u128);
    let q: u128 = n / d;
    let r: u128 = n % d;
    assert(q <= n / 1024) by (nonlinear_arith)
        requires
            d >= 1024,
            q == n / d,
    {
    }
    let t: u128 = if 2 * r > d || (2 * r == d && q % 2 == 1) {
        q + 1
    } else {
        q
    };
    assert(t == round_half_even(10 * (bytes as nat), pow1024(k)));
    let whole: u64 = (t / 10) as u64;
    let frac: u64 = (t % 10) as u64;
    let mut s = String::new();
    push_u64(&mut s, whole);
    push_str(&mut s, ".");
    push_char(&mut s, digit(frac));
    push_str(&mut s, " ");
    push_str(&mut s, unit);
    assert(s@ =~= format_bytes_spec(bytes as nat));
    s
}

/// The part of a service detail the client shows.
#[derive(Debug, Clone)]
pub struct ServiceDetailDto {
    pub name: String,
    pub subdomain: String,
    pub source_type: String,
    pub status: String,
    pub health_status: String,
    pub last_health_check_at: Option<String>,
    pub route_warning: Option<String>,
    pub containers: Vec<ContainerDto>,
}

#[derive(Debug, Clone)]
pub struct ContainerDto {
    pub name: String,
    pub health_status: String,
    pub ports: Vec<PortDto>,
    pub volumes: Vec<VolumeDto>,
}

#[derive(Debug, Clone)]
pub struct PortDto {
    pub container_port: i64,
    pub host_port: i64,
    pub protocol: String,
    pub is_http: bool,
}

#[derive(Debug, Clone)]
pub struct VolumeDto {
    pub container_path: String,
}

/// Resource use of one container; `cpu` is the CPU share as shown, such as `1.2%`.
#[derive(Debug, Clone)]
pub struct ContainerStatsDto {
    pub name: String,
    pub cpu: String,
    pub memory_usage_bytes: u64,
    pub memory_limit_bytes: u64,
}

/// The line shown after a start, stop or restart, and a warning line when the route
/// could not be written.
pub open spec fn lifecycle_spec(action: Seq<char>, d: ServiceDetailDto) -> Seq<char> {
    "サービス '"@ + d.name@ + "' を"@ + action + "しました(status: "@ + d.status@ + ", health: "@
        + d.health_status@ + ")。\n"@ + warning_line_spec(d.route_warning)
}

pub open spec fn warning_line_spec(w: Option<String>) -> Seq<char> {
    match w {
        Some(m) => "警告: "@ + m@ + "\n"@,
        None => Seq::empty(),
    }
}

fn push_warning_line(out: &mut String, w: &Option<String>)
    ensures
        final(out)@ == old(out)@ + warning_line_spec(*w),
{
    match w {
        Some(m) => {
            push_str(out, "警告: ");
            push_str(out, m.as_str());
            push_str(out, "\n");
        },
        None => {
            assert(old(out)@ + warning_line_spec(*w) =~= old(out)@);
        },
    }
}

pub fn format_lifecycle_result(action_label: &str, detail: &ServiceDetailDto) -> (r: String)
    ensures
        r@ == lifecycle_spec(action_label@, *detail),
{
    let mut out = to_owned_str("サービス '");
    push_str(&mut out, detail.name.as_str());
    push_str(&mut out, "' を");
    push_str(&mut out, action_label);
    push_str(&mut out, "しました(status: ");
    push_str(&mut out, detail.status.as_str());
    push_str(&mut out, ", health: ");
    push_str(&mut out, detail.health_status.as_str());
    push_str(&mut out, ")。\n");
    push_warning_line(&mut out, &detail.route_warning);
    assert(out@ =~= lifecycle_spec(action_label@, *detail));
    out
}

/// `<host>-><container>/<protocol>`, with `(http)` after the HTTP port.
pub open spec fn port_text(p: PortDto) -> Seq<char> {
    dec_int_of(p.host_port) + "->"@ + dec_int_of(p.container_port) + "/"@ + p.protocol@ + if p.is_http {
        "(http)"@
    } else {
        Seq::<char>::empty()
    }
}

pub open spec fn dec_int_of(i: i64) -> Seq<char> {
    crate::text::dec_int(i as int)
}

pub open spec fn ports_spec(ports: Seq<PortDto>) -> Seq<char> {
    if ports.len() == 0 {
        "-"@
    } else {
        join_spec(ports.map_values(|p: PortDto| port_text(p)), ", "@)
    }
}

/// A container's ports for display, `-` when it has none.
pub fn format_ports(ports: &Vec<PortDto>) -> (r: String)
    ensures
        r@ == ports_spec(ports@),
{
    if ports.len() == 0 {
        return to_owned_str("-");
    }
    let mut parts: Vec<String> = Vec::new();
    let mut k: usize = 0;
    while k < ports.len()
        invariant
            k <= ports@.len(),
            views(parts@) == ports@.take(k as int).map_values(|p: PortDto| port_text(p)),
        decreases ports@.len() - k,
    {
        let p = &ports[k];
        let mut s = crate::text::i64_to_string(p.host_port);
        push_str(&mut s, "->");
        crate::text::push_i64(&mut s, p.container_port);
        push_str(&mut s, "/");
        push_str(&mut s, p.protocol.as_str());
        if p.is_http {
            push_str(&mut s, "(http)");
        }
        assert(s@ =~= port_text(ports@[k as int]));
        let ghost before = parts@;
        parts.push(s);
        assert(views(parts@) =~= views(before).push(s@));
        assert(ports@.take(k + 1).map_values(|p: PortDto| port_text(p)) =~= ports@.take(
            k as int,
        ).map_values(|p: PortDto| port_text(p)).push(port_text(ports@[k as int])));
        k = k + 1;
    }
    assert(ports@.take(ports@.len() as int) =~= ports@);
    join(&parts, ", ")
}

pub open spec fn volumes_spec(vols: Seq<VolumeDto>) -> Seq<char> {
    if vols.len() == 0 {
        "-"@
    } else {
        join_spec(vols.map_values(|v: VolumeDto| v.container_path@), ", "@)
    }
}

/// A container's volumes for display, `-` when it has none.
pub fn format_volumes(volumes: &Vec<VolumeDto>) -> (r: String)
    ensures
        r@ == volumes_spec(volumes@),
{
    if volumes.len() == 0 {
        return to_owned_str("-");
    }
    let mut parts: Vec<String> = Vec::new();
    let mut k: usize = 0;
    while k < volumes.len()
        invariant
            k <= volumes@.len(),
            views(parts@) == volumes@.take(k as int).map_values(|v: VolumeDto| v.container_path@),
        decreases volumes@.len() - k,
    {
        let ghost before = parts@;
        parts.push(volumes[k].container_path.clone());
        assert(views(parts@) =~= views(before).push(volumes@[k as int].container_path@));
        assert(volumes@.take(k + 1).map_values(|v: VolumeDto| v.container_path@) =~= volumes@.take(
            k as int,
        ).map_values(|v: VolumeDto| v.container_path@).push(volumes@[k as int].container_path@));
        k = k + 1;
    }
    assert(volumes@.take(volumes@.len() as int) =~= volumes@);
    join(&parts, ", ")
}

/// `c` followed by spaces up to `w` characters; never cut.
pub open spec fn pad_spec(c: Seq<char>, w: int) -> Seq<char> {
    if c.len() >= w {
        c
    } else {
        c + Seq::new((w - c.len()) as nat, |i: int| ' ')
    }
}

pub open spec fn width_at(widths: Seq<usize>, i: int) -> int {
    if 0 <= i < widths.len() {
        widths[i] as int
    } else {
        0
    }
}

/// One table line: each cell padded to its column's width, two spaces between cells.
pub open spec fn row_spec(cells: Seq<Seq<char>>, widths: Seq<usize>) -> Seq<char> {
    join_spec(Seq::new(cells.len(), |i: int| pad_spec(cells[i], width_at(widths, i))), "  "@) + "\n"@
}

fn pad(c: &str, w: usize) -> (r: String)
    ensures
        r@ == pad_spec(c@, w as int),
{
    let n = c.unicode_len();
    let mut s = to_owned_str(c);
    if n >= w {
        return s;
    }
    let mut k: usize = n;
    while k < w
        invariant
            n == c@.len(),
            n <= k <= w,
            s@ == c@ + Seq::new((k - n) as nat, |i: int| ' '),
        decreases w - k,
    {
        push_char(&mut s, ' ');
        assert(s@ =~= c@ + Seq::new((k + 1 - n) as nat, |i: int| ' '));
        k = k + 1;
    }
    s
}

/// A table line of `cells`, each padded to the width of its column.
pub fn render_table_row(cells: &Vec<String>, widths: &Vec<usize>) -> (r: String)
    ensures
        r@ == row_spec(views(cells@), widths@),
{
    let ghost want = Seq::new(cells@.len(), |i: int| pad_spec(views(cells@)[i], width_at(widths@, i)));
    let mut parts: Vec<String> = Vec::new();
    let mut k: usize = 0;
    while k < cells.len()
        invariant
            k <= cells@.len(),
            want == Seq::new(cells@.len(), |i: int| pad_spec(views(cells@)[i], width_at(widths@, i))),
            views(parts@) == want.take(k as int),
        decreases cells@.len() - k,
    {
        let w: usize = if k < widths.len() {
            widths[k]
        } else {
            0
        };
        let p = pad(cells[k].as_str(), w);
        let ghost before = parts@;
        assert(w as int == width_at(widths@, k as int));
        assert(views(cells@)[k as int] == cells@[k as int]@);
        assert(want[k as int] == p@);
        parts.push(p);
        assert(views(parts@) =~= views(before).push(p@));
        assert(want.take(k + 1) =~= want.take(k as int).push(want[k as int]));
        assert(views(parts@) =~= want.take(k + 1));
        k = k + 1;
    }
    assert(want.take(cells@.len() as int) =~= want);
    let mut line = join(&parts, "  ");
    push_str(&mut line, "\n");
    line
}

pub open spec fn rows_view(rows: Seq<Vec<String>>) -> Seq<Seq<Seq<char>>> {
    rows.map_values(|r: Vec<String>| views(r@))
}

pub open spec fn max_int(a: int, b: int) -> int {
    if a >= b {
        a
    } else {
        b
    }
}

/// The width of column `i`: its header and every cell of it, in characters.
pub open spec fn col_width(header: Seq<char>, rows: Seq<Seq<Seq<char>>>, i: int) -> int
    decreases rows.len(),
{
    if rows.len() == 0 {
        header.len() as int
    } else {
        let r = rows.last();
        max_int(
            col_width(header, rows.drop_last(), i),
            if 0 <= i < r.len() {
                r[i].len() as int
            } else {
                0
            },
        )
    }
}

/// Rows rendered one after another.
pub open spec fn rows_spec(rows: Seq<Seq<Seq<char>>>, widths: Seq<usize>) -> Seq<char>
    decreases rows.len(),
{
    if rows.len() == 0 {
        seq![]
    } else {
        rows_spec(rows.drop_last(), widths) + row_spec(rows.last(), widths)
    }
}

/// A table of any number of columns: a column is as wide as its header and widest cell;
/// cells beyond the headers are not padded.
pub open spec fn table_spec(headers: Seq<Seq<char>>, rows: Seq<Seq<Seq<char>>>, widths: Seq<usize>) -> bool {
    &&& widths.len() == headers.len()
    &&& forall|i: int| 0 <= i < headers.len() ==> #[trigger] widths[i] == col_width(headers[i], rows, i)
}

pub open spec fn strs_view(v: Seq<&str>) -> Seq<Seq<char>> {
    v.map_values(|s: &str| s@)
}

/// The rendered table, for the widths the columns take.
pub open spec fn render_table_spec(headers: Seq<Seq<char>>, rows: Seq<Seq<Seq<char>>>) -> Seq<char> {
    let widths = choose|w: Seq<usize>| table_spec(headers, rows, w);
    row_spec(headers, widths) + rows_spec(rows, widths)
}

proof fn lemma_widths_unique(headers: Seq<Seq<char>>, rows: Seq<Seq<Seq<char>>>, a: Seq<usize>, b: Seq<usize>)
    requires
        table_spec(headers, rows, a),
        table_spec(headers, rows, b),
    ensures
        a == b,
{
    assert(a =~= b) by {
        assert forall|i: int| 0 <= i < a.len() implies a[i] == b[i] by {
            assert(a[i] == col_width(headers[i], rows, i));
            assert(b[i] == col_width(headers[i], rows, i));
        }
    }
}

/// Renders a table with a header line and one line per row, columns aligned.
pub fn render_table(headers: &[&str], rows: &[Vec<String>]) -> (r: String)
    ensures
        r@ == render_table_spec(strs_view(headers@), rows_view(rows@)),
{
    let ghost hv = strs_view(headers@);
    let ghost rv = rows_view(rows@);
    let mut widths: Vec<usize> = Vec::new();
    let mut h: usize = 0;
    while h < headers.len()
        invariant
            hv == strs_view(headers@),
            h <= headers@.len(),
            widths@.len() == h,
            forall|i: int| 0 <= i < h ==> #[trigger] widths@[i] == col_width(hv[i], rv.take(0), i),
        decreases headers@.len() - h,
    {
        widths.push(headers[h].unicode_len());
        h = h + 1;
    }
    let mut k: usize = 0;
    while k < rows.len()
        invariant
            hv == strs_view(headers@),
            rv == rows_view(rows@),
            k <= rows@.len(),
            widths@.len() == headers@.len(),
            forall|i: int| 0 <= i < headers@.len() ==> #[trigger] widths@[i] == col_width(hv[i], rv.take(k as int), i),
        decreases rows@.len() - k,
    {
        let row = &rows[k];
        assert(rv.take(k + 1).drop_last() =~= rv.take(k as int));
        assert(rv.take(k + 1).last() == views(row@));
        let ghost prev = widths@;
        let mut i: usize = 0;
        while i < widths.len()
            invariant
                widths@.len() == prev.len(),
                i <= widths@.len(),
                forall|j: int| 0 <= j < i ==> #[trigger] widths@[j] == max_int(
                    prev[j] as int,
                    if 0 <= j < row@.len() { row@[j]@.len() as int } else { 0 },
                ),
                forall|j: int| i <= j < widths@.len() ==> #[trigger] widths@[j] == prev[j],
            decreases widths@.len() - i,
        {
            if i < row.len() {
                let n = row[i].as_str().unicode_len();
                if n > widths[i] {
                    widths.set(i, n);
                }
            }
            i = i + 1;
        }
        proof {
            assert forall|j: int| 0 <= j < headers@.len() implies #[trigger] widths@[j] == col_width(
                hv[j],
                rv.take(k + 1),
                j,
            ) by {
                assert(prev[j] == col_width(hv[j], rv.take(k as int), j));
                if 0 <= j < row@.len() {
                    assert(views(row@)[j] == row@[j]@);
                }
            }
        }
        k = k + 1;
    }
    assert(rv.take(rows@.len() as int) =~= rv);
    proof {
        let w = choose|w: Seq<usize>| table_spec(hv, rv, w);
        assert(table_spec(hv, rv, widths@));
        lemma_widths_unique(hv, rv, w, widths@);
    }
    let mut header_cells: Vec<String> = Vec::new();
    let mut h2: usize = 0;
    while h2 < headers.len()
        invariant
            hv == strs_view(headers@),
            h2 <= headers@.len(),
            views(header_cells@) == hv.take(h2 as int),
        decreases headers@.len() - h2,
    {
        let ghost before = header_cells@;
        let hs = to_owned_str(headers[h2]);
        assert(hv[h2 as int] == hs@);
        header_cells.push(hs);
        assert(views(header_cells@) =~= views(before).push(hs@));
        assert(hv.take(h2 + 1) =~= hv.take(h2 as int).push(hv[h2 as int]));
        assert(views(header_cells@) =~= hv.take(h2 + 1));
        h2 = h2 + 1;
    }
    assert(hv.take(headers@.len() as int) =~= hv);
    let mut out = render_table_row(&header_cells, &widths);
    let ghost head = out@;
    let mut k2: usize = 0;
    while k2 < rows.len()
        invariant
            rv == rows_view(rows@),
            k2 <= rows@.len(),
            out@ == head + rows_spec(rv.take(k2 as int), widths@),
        decreases rows@.len() - k2,
    {
        assert(rv.take(k2 + 1).drop_last() =~= rv.take(k2 as int));
        assert(rv.take(k2 + 1).last() == views(rows@[k2 as int]@));
        let line = render_table_row(&rows[k2], &widths);
        push_str(&mut out, line.as_str());
        assert(out@ =~= head + rows_spec(rv.take(k2 + 1), widths@));
        k2 = k2 + 1;
    }
    out
}

/// Where the text of column `c` starts in a line: the widths of the columns before
/// it, each followed by the two spaces between columns.
pub open spec fn col_offset(widths: Seq<usize>, c: int) -> int
    decreases c,
{
    if c <= 0 {
        0
    } else {
        col_offset(widths, c - 1) + widths[c - 1] + 2
    }
}

/// Where part `c` starts in the joined text.
pub open spec fn part_offset(parts: Seq<Seq<char>>, sep_len: int, c: int) -> int
    decreases c,
{
    if c <= 0 {
        0
    } else {
        part_offset(parts, sep_len, c - 1) + parts[c - 1].len() + sep_len
    }
}

proof fn lemma_part_offset_nonneg(parts: Seq<Seq<char>>, sep_len: int, c: int)
    requires
        sep_len >= 0,
    ensures
        part_offset(parts, sep_len, c) >= 0,
    decreases c,
{
    if c > 0 {
        lemma_part_offset_nonneg(parts, sep_len, c - 1);
    }
}

proof fn lemma_join_len(parts: Seq<Seq<char>>, sep: Seq<char>)
    requires
        parts.len() > 0,
    ensures
        join_spec(parts, sep).len() == part_offset(parts, sep.len() as int, parts.len() - 1) + parts.last().len(),
    decreases parts.len(),
{
    if parts.len() > 1 {
        let front = parts.drop_last();
        lemma_join_len(front, sep);
        lemma_part_offset_prefix(parts, front, sep.len() as int, parts.len() - 1);
        assert(front.last() == parts[parts.len() - 2]);
    }
}

proof fn lemma_part_offset_prefix(parts: Seq<Seq<char>>, front: Seq<Seq<char>>, sep_len: int, c: int)
    requires
        0 <= c <= front.len() <= parts.len(),
        forall|i: int| 0 <= i < front.len() ==> front[i] == parts[i],
    ensures
        part_offset(parts, sep_len, c) == part_offset(front, sep_len, c),
    decreases c,
{
    if c > 0 {
        lemma_part_offset_prefix(parts, front, sep_len, c - 1);
    }
}

proof fn lemma_join_part(parts: Seq<Seq<char>>, sep: Seq<char>, c: int)
    requires
        0 <= c < parts.len(),
    ensures
        part_offset(parts, sep.len() as int, c) + parts[c].len() <= join_spec(parts, sep).len(),
        join_spec(parts, sep).subrange(
            part_offset(parts, sep.len() as int, c),
            part_offset(parts, sep.len() as int, c) + parts[c].len(),
        ) == parts[c],
    decreases parts.len(),
{
    let sl = sep.len() as int;
    lemma_part_offset_nonneg(parts, sl, c);
    if parts.len() == 1 {
        assert(join_spec(parts, sep) == parts[0]);
        assert(parts[0].subrange(0, parts[0].len() as int) =~= parts[0]);
    } else {
        let front = parts.drop_last();
        let j = join_spec(parts, sep);
        assert(j == join_spec(front, sep) + sep + parts.last());
        lemma_join_len(front, sep);
        lemma_part_offset_prefix(parts, front, sl, front.len() - 1);
        if c == parts.len() - 1 {
            assert(part_offset(parts, sl, c) == part_offset(parts, sl, c - 1) + parts[c - 1].len() + sl);
            assert(front.last() == parts[c - 1]);
            assert(j.subrange(part_offset(parts, sl, c), part_offset(parts, sl, c) + parts[c].len()) =~= parts[c]);
        } else {
            lemma_join_part(front, sep, c);
            lemma_part_offset_prefix(parts, front, sl, c);
            assert(front[c] == parts[c]);
            let o = part_offset(parts, sl, c);
            assert(o == part_offset(front, sl, c));
            assert(o + parts[c].len() <= join_spec(front, sep).len());
            assert(join_spec(front, sep).subrange(o, o + parts[c].len()) == parts[c]);
            assert(j.subrange(o, o + parts[c].len()) =~= join_spec(front, sep).subrange(o, o + parts[c].len()));
        }
    }
}

proof fn lemma_col_width_bounds(h: Seq<char>, rows: Seq<Seq<Seq<char>>>, i: int)
    ensures
        col_width(h, rows, i) >= h.len(),
        forall|k: int|
            0 <= k < rows.len() && 0 <= i < rows[k].len() ==> col_width(h, rows, i) >= (#[trigger] rows[k])[i].len(),
    decreases rows.len(),
{
    if rows.len() > 0 {
        lemma_col_width_bounds(h, rows.drop_last(), i);
        assert forall|k: int| 0 <= k < rows.len() && 0 <= i < rows[k].len() implies col_width(h, rows, i)
            >= (#[trigger] rows[k])[i].len() by {
            if k < rows.len() - 1 {
                assert(rows.drop_last()[k] == rows[k]);
            }
        }
    }
}

proof fn lemma_padded_offsets(cells: Seq<Seq<char>>, widths: Seq<usize>, c: int)
    requires
        0 <= c <= cells.len(),
        c <= widths.len(),
        forall|i: int| 0 <= i < c ==> (#[trigger] cells[i]).len() <= widths[i],
    ensures
        part_offset(Seq::new(cells.len(), |i: int| pad_spec(cells[i], width_at(widths, i))), 2, c)
            == col_offset(widths, c),
    decreases c,
{
    if c > 0 {
        lemma_padded_offsets(cells, widths, c - 1);
        let padded = Seq::new(cells.len(), |i: int| pad_spec(cells[i], width_at(widths, i)));
        let x = cells[c - 1];
        let w = widths[c - 1] as int;
        assert(padded[c - 1] == pad_spec(x, w));
        assert(pad_spec(x, w).len() == w);
    }
}

/// In every line of a table, header or row, the text of column `c` starts at the same
/// position: each column before it is padded to its widest cell, and two spaces follow.
pub proof fn lemma_columns_aligned(
    headers: Seq<Seq<char>>,
    rows: Seq<Seq<Seq<char>>>,
    widths: Seq<usize>,
    line: Seq<Seq<char>>,
    c: int,
)
    requires
        table_spec(headers, rows, widths),
        line == headers || rows.contains(line),
        0 <= c < headers.len(),
        c < line.len(),
    ensures
        row_spec(line, widths).subrange(col_offset(widths, c), col_offset(widths, c) + line[c].len())
            == line[c],
{
    assert forall|i: int| 0 <= i < c implies (#[trigger] line[i]).len() <= widths[i] by {
        lemma_col_width_bounds(headers[i], rows, i);
        assert(widths[i] == col_width(headers[i], rows, i));
        if line != headers {
            let k = choose|k: int| 0 <= k < rows.len() && rows[k] == line;
            assert(rows[k][i] == line[i]);
        }
    }
    reveal_strlit("  ");
    assert("  "@.len() == 2);
    lemma_padded_offsets(line, widths, c);
    let padded = Seq::new(line.len(), |i: int| pad_spec(line[i], width_at(widths, i)));
    lemma_join_part(padded, "  "@, c);
    lemma_part_offset_nonneg(padded, 2, c);
    let o = col_offset(widths, c);
    let pc = padded[c];
    assert(pc == pad_spec(line[c], width_at(widths, c)));
    assert(pc.take(line[c].len() as int) =~= line[c]);
    let j = join_spec(padded, "  "@);
    assert(row_spec(line, widths) == j + "\n"@);
    assert(part_offset(padded, 2, c) == o);
    assert(o + pc.len() <= j.len());
    assert(j.subrange(o, o + pc.len()) == pc);
    assert(line[c].len() <= pc.len());
    assert forall|t: int| 0 <= t < line[c].len() implies (j + "\n"@)[o + t] == pc[t] by {
        assert(j.subrange(o, o + pc.len())[t] == j[o + t]);
    }
    assert((j + "\n"@).subrange(o, o + line[c].len()) =~= pc.take(line[c].len() as int));
}

/// One row of the service list.
#[derive(Debug, Clone)]
pub struct ServiceListRow {
    pub name: String,
    pub status: String,
    pub health_status: String,
    pub source_type: String,
    pub subdomain: String,
}

pub open spec fn list_row_cells(r: ServiceListRow) -> Seq<Seq<char>> {
    seq![r.name@, r.status@, r.health_status@, r.source_type@, r.subdomain@]
}

pub open spec fn list_headers() -> Seq<Seq<char>> {
    seq!["NAME"@, "STATUS"@, "HEALTH"@, "TYPE"@, "SUBDOMAIN"@]
}

/// The service list as a table, or a sentence saying there is no service.
pub open spec fn format_table_spec(rows: Seq<ServiceListRow>) -> Seq<char> {
    if rows.len() == 0 {
        "登録されているサービスはありません。\n"@
    } else {
        render_table_spec(list_headers(), rows.map_values(|r: ServiceListRow| list_row_cells(r)))
    }
}

pub fn format_table(services: &Vec<ServiceListRow>) -> (r: String)
    ensures
        r@ == format_table_spec(services@),
{
    if services.len() == 0 {
        return to_owned_str("登録されているサービスはありません。\n");
    }
    let headers: [&str; 5] = ["NAME", "STATUS", "HEALTH", "TYPE", "SUBDOMAIN"];
    let mut rows: Vec<Vec<String>> = Vec::new();
    let mut k: usize = 0;
    while k < services.len()
        invariant
            k <= services@.len(),
            rows_view(rows@) == services@.take(k as int).map_values(|r: ServiceListRow| list_row_cells(r)),
        decreases services@.len() - k,
    {
        let s = &services[k];
        let mut cells: Vec<String> = Vec::new();
        cells.push(s.name.clone());
        cells.push(s.status.clone());
        cells.push(s.health_status.clone());
        cells.push(s.source_type.clone());
        cells.push(s.subdomain.clone());
        assert(views(cells@) =~= list_row_cells(services@[k as int]));
        let ghost before = rows@;
        rows.push(cells);
        assert(rows_view(rows@) =~= rows_view(before).push(list_row_cells(services@[k as int])));
        assert(services@.take(k + 1).map_values(|r: ServiceListRow| list_row_cells(r)) =~= services@.take(
            k as int,
        ).map_values(|r: ServiceListRow| list_row_cells(r)).push(list_row_cells(services@[k as int])));
        k = k + 1;
    }
    assert(services@.take(services@.len() as int) =~= services@);
    assert(strs_view(headers@) =~= list_headers());
    render_table(headers.as_slice(), rows.as_slice())
}

/// The CPU and memory columns of a container: from the first stats entry of the same
/// name, `-` and `-` without one.
pub open spec fn usage_cells(stats: Seq<ContainerStatsDto>, name: Seq<char>) -> (Seq<char>, Seq<char>)
    decreases stats.len(),
{
    if stats.len() == 0 {
        ("-"@, "-"@)
    } else if stats[0].name@ == name {
        (
            stats[0].cpu@,
            format_bytes_spec(stats[0].memory_usage_bytes as nat) + "/"@ + format_bytes_spec(
                stats[0].memory_limit_bytes as nat,
            ),
        )
    } else {
        usage_cells(stats.drop_first(), name)
    }
}

fn usage_cells_exec(stats: &Vec<ContainerStatsDto>, name: &str) -> (r: (String, String))
    ensures
        (r.0@, r.1@) == usage_cells(stats@, name@),
{
    let mut k: usize = 0;
    assert(stats@.skip(0) =~= stats@);
    while k < stats.len()
        invariant
            k <= stats@.len(),
            usage_cells(stats@, name@) == usage_cells(stats@.skip(k as int), name@),
        decreases stats@.len() - k,
    {
        assert(stats@.skip(k as int).drop_first() =~= stats@.skip(k + 1));
        assert(stats@.skip(k as int)[0] == stats@[k as int]);
        if str_eq(stats[k].name.as_str(), name) {
            let mut mem = format_bytes(stats[k].memory_usage_bytes);
            push_str(&mut mem, "/");
            let lim = format_bytes(stats[k].memory_limit_bytes);
            push_str(&mut mem, lim.as_str());
            return (stats[k].cpu.clone(), mem);
        }
        k = k + 1;
    }
    (to_owned_str("-"), to_owned_str("-"))
}

pub open spec fn container_cells(c: ContainerDto, stats: Seq<ContainerStatsDto>) -> Seq<Seq<char>> {
    let (cpu, mem) = usage_cells(stats, c.name@);
    seq![c.name@, c.health_status@, cpu, mem, ports_spec(c.ports@), volumes_spec(c.volumes@)]
}

pub open spec fn container_headers() -> Seq<Seq<char>> {
    seq!["NAME"@, "HEALTH"@, "CPU"@, "MEM"@, "PORTS"@, "VOLUMES"@]
}

/// The detail view of `sahai service status`: the service's fields, a warning line when
/// the route could not be written, then a table of its containers.
pub open spec fn status_spec(d: ServiceDetailDto, stats: Seq<ContainerStatsDto>) -> Seq<char> {
    let suffix = match d.last_health_check_at {
        Some(ts) => " (最終チェック: "@ + ts@ + ")"@,
        None => Seq::<char>::empty(),
    };
    "名前:         "@ + d.name@ + "\nサブドメイン: "@ + d.subdomain@ + "\n種別:         "@ + d.source_type@
        + "\nステータス:   "@ + d.status@ + "\nヘルス:       "@ + d.health_status@ + suffix + "\n"@
        + warning_line_spec(d.route_warning) + "\n"@ + "コンテナ:\n"@ + render_table_spec(
        container_headers(),
        d.containers@.map_values(|c: ContainerDto| container_cells(c, stats)),
    )
}

pub fn format_status(detail: &ServiceDetailDto, stats: &Vec<ContainerStatsDto>) -> (r: String)
    ensures
        r@ == status_spec(*detail, stats@),
{
    let mut out = to_owned_str("名前:         ");
    push_str(&mut out, detail.name.as_str());
    push_str(&mut out, "\nサブドメイン: ");
    push_str(&mut out, detail.subdomain.as_str());
    push_str(&mut out, "\n種別:         ");
    push_str(&mut out, detail.source_type.as_str());
    push_str(&mut out, "\nステータス:   ");
    push_str(&mut out, detail.status.as_str());
    push_str(&mut out, "\nヘルス:       ");
    push_str(&mut out, detail.health_status.as_str());
    match &detail.last_health_check_at {
        Some(ts) => {
            push_str(&mut out, " (最終チェック: ");
            push_str(&mut out, ts.as_str());
            push_str(&mut out, ")");
        },
        None => {},
    }
    push_str(&mut out, "\n");
    push_warning_line(&mut out, &detail.route_warning);
    push_str(&mut out, "\n");
    push_str(&mut out, "コンテナ:\n");
    let ghost head = out@;
    let cs = &detail.containers;
    let mut rows: Vec<Vec<String>> = Vec::new();
    let mut k: usize = 0;
    while k < cs.len()
        invariant
            *cs == detail.containers,
            k <= cs@.len(),
            rows_view(rows@) == cs@.take(k as int).map_values(|c: ContainerDto| container_cells(c, stats@)),
        decreases cs@.len() - k,
    {
        let c = &cs[k];
        let (cpu, mem) = usage_cells_exec(stats, c.name.as_str());
        let mut cells: Vec<String> = Vec::new();
        cells.push(c.name.clone());
        cells.push(c.health_status.clone());
        cells.push(cpu);
        cells.push(mem);
        cells.push(format_ports(&c.ports));
        cells.push(format_volumes(&c.volumes));
        assert(views(cells@) =~= container_cells(cs@[k as int], stats@));
        let ghost before = rows@;
        rows.push(cells);
        assert(rows_view(rows@) =~= rows_view(before).push(container_cells(cs@[k as int], stats@)));
        assert(cs@.take(k + 1).map_values(|c: ContainerDto| container_cells(c, stats@)) =~= cs@.take(
            k as int,
        ).map_values(|c: ContainerDto| container_cells(c, stats@)).push(container_cells(cs@[k as int], stats@)));
        k = k + 1;
    }
    assert(cs@.take(cs@.len() as int) =~= cs@);
    let headers: [&str; 6] = ["NAME", "HEALTH", "CPU", "MEM", "PORTS", "VOLUMES"];
    assert(strs_view(headers@) =~= container_headers());
    let table = render_table(headers.as_slice(), rows.as_slice());
    push_str(&mut out, table.as_str());
    out
}

} // verus!
