//! Report text: elapsed times, byte counts in binary units, shortened
//! names, and the contents of the plain and JSON reports.

use vstd::prelude::*;

use crate::net::IpAddress;
use crate::stats::{unattributed_label, IpSnapshot, ProcessSnapshot, ProcessSnapshotView, TrafficSnapshot};
use crate::text::{
    chars_of, decimal, decimal_chars, decimal_string, string_from_chars, trim, trim_chars,
    utf8_string, zero_padded, zero_padded_string,
};
use vstd::utf8::{decode_utf8, valid_utf8};

verus! {

/// The whole seconds of a duration, as `std::time::Duration::as_secs`
/// returns them (fractions dropped).
pub uninterp spec fn duration_whole_secs(d: std::time::Duration) -> u64;

/// Whole seconds of a duration, by `std::time::Duration::as_secs`. The
/// contract names the result: it depends on the duration alone.
#[verifier::external_body]
fn duration_secs(d: std::time::Duration) -> (r: u64)
    ensures
        r == duration_whole_secs(d),
{
    d.as_secs()
}

/// `HH:MM:SS` for a number of seconds; hours grow past two digits when needed.
pub open spec fn spec_hms(secs: nat) -> Seq<char> {
    zero_padded(secs / 3600, 2) + seq![':'] + zero_padded((secs % 3600) / 60, 2) + seq![':']
        + zero_padded(secs % 60, 2)
}

/// Formats whole seconds as `HH:MM:SS`.
pub fn format_hms(secs: u64) -> (r: String)
    ensures
        r@ == spec_hms(secs as nat),
{
    let h = zero_padded_string(secs / 3600, 2);
    let m = zero_padded_string((secs % 3600) / 60, 2);
    let s = zero_padded_string(secs % 60, 2);
    let out = h.concat(":").concat(m.as_str()).concat(":").concat(s.as_str());
    proof {
        reveal_strlit(":");
        assert(out@ =~= spec_hms(secs as nat));
    }
    out
}

/// Formats an elapsed duration as `HH:MM:SS` of its whole seconds.
pub fn fmt_elapsed(d: std::time::Duration) -> (r: String)
    ensures
        r@ == spec_hms(duration_whole_secs(d) as nat),
{
    format_hms(duration_secs(d))
}

// ---------------------------------------------------------------------------
// Byte counts in binary units

/// `2^k`.
pub open spec fn two_to(k: nat) -> nat
    decreases k,
{
    if k == 0 {
        1
    } else {
        2 * two_to((k - 1) as nat)
    }
}

/// 2^53: every integer below it is exactly a 64-bit float.
pub const F64_EXACT_LIMIT: u64 = 9_007_199_254_740_992;

/// The halvings that bring `n` below 2^53: the place of the last bit a
/// 64-bit float keeps of `n`.
pub open spec fn f64_shift(n: nat) -> nat
    decreases n,
{
    if n < F64_EXACT_LIMIT {
        0
    } else {
        1 + f64_shift(n / 2)
    }
}

/// `a / d` rounded to the nearest integer, ties to the even one.
pub open spec fn round_half_even(a: nat, d: nat) -> nat {
    let q = a / d;
    let r = a % d;
    if r * 2 > d || (r * 2 == d && q % 2 == 1) {
        q + 1
    } else {
        q
    }
}

/// The value of `n as f64`: `n` rounded to 53 significant bits, to the
/// nearest, ties to even.
pub open spec fn f64_value(n: nat) -> nat {
    let d = two_to(f64_shift(n));
    round_half_even(n, d) * d
}

/// Hundredths of `v / unit`, rounded as `{:.2}` rounds the exact quotient:
/// to the nearest, ties to even.
pub open spec fn hundredths(v: nat, unit: nat) -> nat {
    round_half_even(v * 100, unit)
}

/// `h` hundredths with two decimal places.
pub open spec fn two_places(h: nat) -> Seq<char> {
    decimal(h / 100) + seq!['.'] + zero_padded(h % 100, 2)
}

pub const KIB: u64 = 1024;
pub const MIB: u64 = 1_048_576;
pub const GIB: u64 = 1_073_741_824;
pub const TIB: u64 = 1_099_511_627_776;

/// A byte count in the largest binary unit (KB = 1024 bytes, up to TB) that
/// its floating-point value reaches, with two decimals; below 1 KB, the
/// whole number of bytes.
pub open spec fn spec_human_bytes(n: nat) -> Seq<char> {
    let v = f64_value(n);
    if v >= TIB {
        two_places(hundredths(v, TIB as nat)) + " TB"@
    } else if v >= GIB {
        two_places(hundredths(v, GIB as nat)) + " GB"@
    } else if v >= MIB {
        two_places(hundredths(v, MIB as nat)) + " MB"@
    } else if v >= KIB {
        two_places(hundredths(v, KIB as nat)) + " KB"@
    } else {
        decimal(n) + " B"@
    }
}

fn round_half_even_exec(a: u128, d: u128) -> (r: u128)
    requires
        0 < d <= 0x1_0000_0000_0000_0000,
        a <= 0x1_0000_0000_0000_0000_0000,
    ensures
        r == round_half_even(a as nat, d as nat),
        r <= a / d + 1,
{
    let q = a / d;
    let r = a % d;
    if r * 2 > d || (r * 2 == d && q % 2 == 1) {
        q + 1
    } else {
        q
    }
}

proof fn lemma_halve(n: nat, d: nat)
    requires
        d > 0,
    ensures
        (n / d) / 2 == n / (d * 2),
{
    vstd::arithmetic::div_mod::lemma_div_denominator(n as int, d as int, 2);
}

fn f64_value_exec(n: u64) -> (v: u128)
    ensures
        v == f64_value(n as nat),
        v <= n + 4096,
{
    let mut d: u128 = 1;
    let mut m: u64 = n;
    let ghost mut s: nat = 0;
    while m >= F64_EXACT_LIMIT
        invariant
            d == two_to(s),
            1 <= d <= 4096,
            m == n as nat / d as nat,
            f64_shift(n as nat) == s + f64_shift(m as nat),
        decreases m,
    {
        proof {
            lemma_halve(n as nat, d as nat);
            vstd::arithmetic::div_mod::lemma_fundamental_div_mod(n as int, d as int);
            let k: int = n as int / d as int;
            assert(d * F64_EXACT_LIMIT <= d * k) by (nonlinear_arith)
                requires
                    k >= F64_EXACT_LIMIT,
                    d >= 1,
            {
            }
            assert(d * 2 <= 4096);
        }
        m = m / 2;
        d = d * 2;
        proof {
            s = s + 1;
        }
    }
    let q = round_half_even_exec(n as u128, d);
    proof {
        vstd::arithmetic::div_mod::lemma_fundamental_div_mod(n as int, d as int);
        assert(q * d <= n + d) by (nonlinear_arith)
            requires
                q <= n as int / d as int + 1,
                n as int >= d * (n as int / d as int),
                d >= 1,
        {
        }
    }
    q * d
}

fn two_places_string(v: u128, unit: u64, suffix: &str) -> (r: String)
    requires
        v <= u64::MAX as int + 4096,
        unit >= 1024,
    ensures
        r@ == two_places(hundredths(v as nat, unit as nat)) + suffix@,
{
    let h = round_half_even_exec(v * 100, unit as u128);
    assert(h < 0x1_0000_0000_0000_0000) by (nonlinear_arith)
        requires
            h <= (v * 100) / (unit as int) + 1,
            v <= u64::MAX as int + 4096,
            unit >= 1024,
    {
        assert((v * 100) / (unit as int) <= (v * 100) / 1024) by {
            vstd::arithmetic::div_mod::lemma_div_is_ordered_by_denominator((v * 100) as int, 1024, unit as int);
        }
    }
    let whole = decimal_chars((h / 100) as u64);
    let cents = zero_padded_string((h % 100) as u64, 2);
    let mut out = string_from_chars(whole.as_slice());
    out.append(".");
    out.append(cents.as_str());
    out.append(suffix);
    proof {
        reveal_strlit(".");
        assert(out@ =~= two_places(hundredths(v as nat, unit as nat)) + suffix@);
    }
    out
}

/// A byte count in binary units; see [`spec_human_bytes`].
pub fn human_bytes(n: u64) -> (r: String)
    ensures
        r@ == spec_human_bytes(n as nat),
{
    let v = f64_value_exec(n);
    if v >= TIB as u128 {
        two_places_string(v, TIB, " TB")
    } else if v >= GIB as u128 {
        two_places_string(v, GIB, " GB")
    } else if v >= MIB as u128 {
        two_places_string(v, MIB, " MB")
    } else if v >= KIB as u128 {
        two_places_string(v, KIB, " KB")
    } else {
        let digits = decimal_chars(n);
        let mut out = string_from_chars(digits.as_slice());
        out.append(" B");
        out
    }
}

proof fn lemma_f64_shift_floor(n: nat)
    ensures
        two_to(f64_shift(n)) >= 1,
        n >= F64_EXACT_LIMIT ==> n / two_to(f64_shift(n)) >= F64_EXACT_LIMIT / 2,
    decreases n,
{
    if n >= F64_EXACT_LIMIT {
        let m = n / 2;
        lemma_f64_shift_floor(m);
        let k = f64_shift(m);
        assert(f64_shift(n) == 1 + k);
        assert(two_to(1 + k) == 2 * two_to(k));
        lemma_halve(n, 1);
        vstd::arithmetic::div_mod::lemma_div_denominator(n as int, 2, two_to(k) as int);
        if m < F64_EXACT_LIMIT {
            assert(k == 0);
        }
    }
}

/// Below 2^53 a byte count is exactly its 64-bit float value.
proof fn lemma_f64_exact(n: nat)
    requires
        n < F64_EXACT_LIMIT,
    ensures
        f64_value(n) == n,
{
    assert(f64_shift(n) == 0);
    assert(two_to(0) == 1);
    assert(n / 1 == n && n % 1 == 0) by (nonlinear_arith);
}

/// Law: a byte count is written in the binary unit of its size: below
/// 1024 as a whole number of bytes; from 1024 bytes in KB, from 1024 KB in
/// MB, from 1024 MB in GB, and from 1024 GB on in TB. Below 2^53, where a
/// 64-bit float holds every count exactly, the figure is the count divided
/// by the unit, rounded to two decimals (to the nearest, ties to even);
/// above that it is the float value of the count so divided and rounded.
pub proof fn human_bytes_picks_the_unit_of_its_size(n: u64)
    ensures
        n < KIB ==> spec_human_bytes(n as nat) == decimal(n as nat) + " B"@,
        KIB <= n < MIB ==> spec_human_bytes(n as nat) == two_places(hundredths(n as nat, KIB as nat))
            + " KB"@,
        MIB <= n < GIB ==> spec_human_bytes(n as nat) == two_places(hundredths(n as nat, MIB as nat))
            + " MB"@,
        GIB <= n < TIB ==> spec_human_bytes(n as nat) == two_places(hundredths(n as nat, GIB as nat))
            + " GB"@,
        TIB <= n < F64_EXACT_LIMIT ==> spec_human_bytes(n as nat) == two_places(
            hundredths(n as nat, TIB as nat),
        ) + " TB"@,
        n >= F64_EXACT_LIMIT ==> spec_human_bytes(n as nat) == two_places(
            hundredths(f64_value(n as nat), TIB as nat),
        ) + " TB"@,
{
    if n < F64_EXACT_LIMIT {
        lemma_f64_exact(n as nat);
    } else {
        let d = two_to(f64_shift(n as nat));
        lemma_f64_shift_floor(n as nat);
        let q = n as nat / d;
        assert(round_half_even(n as nat, d) >= q);
        assert(round_half_even(n as nat, d) * d >= q) by (nonlinear_arith)
            requires
                round_half_even(n as nat, d) >= q,
                d >= 1,
        {
        }
        assert(f64_value(n as nat) >= TIB);
    }
}

/// The host name shown in reports, from the output of the `hostname`
/// command: the output without surrounding white space, or `unknown` when
/// the command could not run or wrote something that is not UTF-8.
pub open spec fn spec_host_name(output: Option<Seq<u8>>) -> Seq<char> {
    match output {
        Some(bytes) => if valid_utf8(bytes) {
            trim(decode_utf8(bytes))
        } else {
            "unknown"@
        },
        None => "unknown"@,
    }
}

/// The host name shown in reports; see [`spec_host_name`].
pub fn host_name(output: Option<Vec<u8>>) -> (r: String)
    ensures
        r@ == spec_host_name(
            match output {
                Some(v) => Some(v@),
                None => None,
            },
        ),
{
    match output {
        Some(bytes) => match utf8_string(bytes.as_slice()) {
            Some(text) => {
                let chars = chars_of(text.as_str());
                let trimmed = trim_chars(&chars);
                string_from_chars(trimmed.as_slice())
            },
            None => "unknown".to_string(),
        },
        None => "unknown".to_string(),
    }
}

pub open spec fn ellipsis() -> char {
    '\u{2026}'
}

/// `s` when it has at most `max_chars` characters, else its first
/// `max_chars` characters followed by an ellipsis.
pub open spec fn spec_truncate(s: Seq<char>, max_chars: nat) -> Seq<char> {
    if s.len() <= max_chars {
        s
    } else {
        s.subrange(0, max_chars as int).push(ellipsis())
    }
}

/// Shortens `s` to `max_chars` characters plus an ellipsis when it is longer.
pub fn truncate(s: &str, max_chars: usize) -> (r: String)
    ensures
        r@ == spec_truncate(s@, max_chars as nat),
{
    let chars = chars_of(s);
    if chars.len() <= max_chars {
        return string_from_chars(chars.as_slice());
    }
    let mut head: Vec<char> = Vec::new();
    let mut i: usize = 0;
    while i < max_chars
        invariant
            i <= max_chars,
            max_chars < chars@.len(),
            head@ == chars@.subrange(0, i as int),
        decreases max_chars - i,
    {
        head.push(chars[i]);
        i += 1;
        assert(head@ =~= chars@.subrange(0, i as int));
    }
    head.push('\u{2026}');
    string_from_chars(head.as_slice())
}

// ---------------------------------------------------------------------------
// Reports of the file and JSON modes

/// One process of a report.
#[derive(Debug)]
pub struct ProcessRow {
    /// The process id; none for unattributed traffic.
    pub pid: Option<u32>,
    /// The display name.
    pub name: String,
    /// The executable path, when known.
    pub path: Option<String>,
    pub recv: u64,
    pub sent: u64,
}

pub ghost struct ProcessRowView {
    pub pid: Option<u32>,
    pub name: Seq<char>,
    pub path: Option<Seq<char>>,
    pub recv: u64,
    pub sent: u64,
}

impl View for ProcessRow {
    type V = ProcessRowView;

    open spec fn view(&self) -> ProcessRowView {
        ProcessRowView {
            pid: self.pid,
            name: self.name@,
            path: match self.path {
                Some(p) => Some(p@),
                None => None,
            },
            recv: self.recv,
            sent: self.sent,
        }
    }
}

/// The display name of a process snapshot: its name, `?` for a process
/// without a name, the fixed label for unattributed traffic.
pub open spec fn display_name_of(p: ProcessSnapshotView) -> Seq<char> {
    match p.identity {
        Some((_, Some(n), _)) => n,
        Some((_, None, _)) => "?"@,
        None => unattributed_label(),
    }
}

/// The report row of a process snapshot.
pub open spec fn row_of(p: ProcessSnapshotView) -> ProcessRowView {
    ProcessRowView {
        pid: match p.identity {
            Some((pid, _, _)) => Some(pid),
            None => None,
        },
        name: display_name_of(p),
        path: match p.identity {
            Some((_, _, path)) => path,
            None => None,
        },
        recv: p.recv,
        sent: p.sent,
    }
}

/// Law: a report row keeps the traffic of its process as it is (received
/// bytes as received, sent as sent), and its pid and path; it is named by
/// the process's name, `?` when the process has none, and by the fixed
/// label (with neither pid nor path) for the unattributed bucket.
pub proof fn report_rows_keep_their_traffic(p: ProcessSnapshotView)
    ensures
        row_of(p).recv == p.recv,
        row_of(p).sent == p.sent,
        p.identity matches Some((pid, name, path)) ==> row_of(p).pid == Some(pid) && row_of(p).path
            == path && row_of(p).name == match name {
            Some(n) => n,
            None => "?"@,
        },
        p.identity is None ==> row_of(p).pid is None && row_of(p).path is None && row_of(p).name
            == unattributed_label(),
{
}

fn owned_opt(s: Option<&str>) -> (r: Option<String>)
    ensures
        match s {
            Some(x) => r matches Some(y) && y@ == x@,
            None => r is None,
        },
{
    match s {
        Some(x) => Some(x.to_string()),
        None => None,
    }
}

/// The report row of `process`.
pub fn process_row(process: &ProcessSnapshot) -> (r: ProcessRow)
    ensures
        r@ == row_of(process@),
{
    ProcessRow {
        pid: process.pid(),
        name: process.display_name().to_string(),
        path: owned_opt(process.path()),
        recv: process.received(),
        sent: process.sent_bytes(),
    }
}

/// What a report says of the traffic at one moment.
#[derive(Debug)]
pub struct ReportFrame {
    pub interface: String,
    pub host: String,
    /// When the capture started, as the program writes it.
    pub started_at: String,
    /// The time of the report, as the program writes it.
    pub now: String,
    pub uptime_secs: u64,
    pub in_bytes: u64,
    pub out_bytes: u64,
    pub top_processes: Vec<ProcessRow>,
    pub top_inbound_ips: Vec<IpSnapshot>,
    pub top_outbound_ips: Vec<IpSnapshot>,
}

/// The report of `snapshot`, with the given heading values.
pub fn report_frame(
    interface: &str,
    host: String,
    started_at: String,
    now: String,
    uptime_secs: u64,
    snapshot: &TrafficSnapshot,
) -> (r: ReportFrame)
    ensures
        r.interface@ == interface@,
        r.host == host,
        r.started_at == started_at,
        r.now == now,
        r.uptime_secs == uptime_secs,
        r.in_bytes == snapshot.in_bytes,
        r.out_bytes == snapshot.out_bytes,
        r.top_processes@.len() == snapshot.processes@.len(),
        forall|i: int|
            0 <= i < r.top_processes@.len() ==> #[trigger] r.top_processes@[i]@ == row_of(
                snapshot.processes@[i]@,
            ),
        r.top_inbound_ips@ == snapshot.inbound_ips@,
        r.top_outbound_ips@ == snapshot.outbound_ips@,
{
    let mut rows: Vec<ProcessRow> = Vec::new();
    let mut i: usize = 0;
    while i < snapshot.processes.len()
        invariant
            i <= snapshot.processes@.len(),
            rows@.len() == i,
            forall|k: int| 0 <= k < i ==> #[trigger] rows@[k]@ == row_of(snapshot.processes@[k]@),
        decreases snapshot.processes@.len() - i,
    {
        rows.push(process_row(&snapshot.processes[i]));
        i += 1;
    }
    ReportFrame {
        interface: interface.to_string(),
        host,
        started_at,
        now,
        uptime_secs,
        in_bytes: snapshot.in_bytes,
        out_bytes: snapshot.out_bytes,
        top_processes: rows,
        top_inbound_ips: snapshot.inbound_ips.clone(),
        top_outbound_ips: snapshot.outbound_ips.clone(),
    }
}

/// One cell of a line of the plain report.
#[derive(Debug)]
pub enum Cell {
    /// Text as it is.
    Text(String),
    /// A byte count, written in human units.
    Bytes(u64),
    /// An address, written in its usual text form.
    Ip(IpAddress),
}

pub ghost enum CellView {
    Text(Seq<char>),
    Bytes(u64),
    Ip(IpAddress),
}

impl View for Cell {
    type V = CellView;

    open spec fn view(&self) -> CellView {
        match self {
            Cell::Text(t) => CellView::Text(t@),
            Cell::Bytes(b) => CellView::Bytes(*b),
            Cell::Ip(ip) => CellView::Ip(*ip),
        }
    }
}

pub open spec fn cells_view(line: Seq<Cell>) -> Seq<CellView> {
    line.map_values(|c: Cell| c@)
}

pub open spec fn lines_view(lines: Seq<Vec<Cell>>) -> Seq<Seq<CellView>> {
    lines.map_values(|l: Vec<Cell>| cells_view(l@))
}

pub open spec fn text(s: Seq<char>) -> CellView {
    CellView::Text(s)
}

pub open spec fn process_line(r: ProcessRowView) -> Seq<CellView> {
    seq![
        text(r.name),
        text(
            match r.pid {
                Some(pid) => decimal(pid as nat),
                None => "-"@,
            },
        ),
        CellView::Bytes(r.recv),
        CellView::Bytes(r.sent),
        CellView::Bytes(
            if r.recv + r.sent > u64::MAX {
                u64::MAX
            } else {
                (r.recv + r.sent) as u64
            },
        ),
    ]
}

pub open spec fn ip_line(e: IpSnapshot) -> Seq<CellView> {
    seq![CellView::Ip(e.ip), CellView::Bytes(e.bytes)]
}

/// The lines of the plain report of `f`, its cells separated by tabs when
/// written: a heading line and a blank line, the interface totals, then the
/// processes, the inbound and the outbound addresses, each section under a
/// title that gives `top_n` and a line of column names.
pub open spec fn spec_plain_lines(f: ReportFrameView, top_n: nat) -> Seq<Seq<CellView>> {
    let n = decimal(top_n);
    seq![
        seq![
            text("delray"@),
            text(f.interface),
            text("host: "@ + f.host),
            text("started: "@ + f.started_at),
            text("uptime: "@ + spec_hms(f.uptime_secs as nat)),
            text(f.now),
        ],
        Seq::empty(),
        seq![text("Interface Traffic"@)],
        seq![text("Inbound"@), CellView::Bytes(f.in_bytes)],
        seq![text("Outbound"@), CellView::Bytes(f.out_bytes)],
        Seq::empty(),
        seq![text("Top Processes ("@ + n + ")"@)],
        seq![text("Process"@), text("PID"@), text("Recv"@), text("Sent"@), text("Total"@)],
    ] + f.processes.map_values(|r: ProcessRowView| process_line(r)) + seq![
        Seq::empty(),
        seq![text("Top Inbound IPs ("@ + n + ")"@)],
        seq![text("IP"@), text("Bytes"@)],
    ] + f.inbound.map_values(|e: IpSnapshot| ip_line(e)) + seq![
        Seq::empty(),
        seq![text("Top Outbound IPs ("@ + n + ")"@)],
        seq![text("IP"@), text("Bytes"@)],
    ] + f.outbound.map_values(|e: IpSnapshot| ip_line(e))
}

/// Law: every process line of the plain report gives the process's name and
/// pid, then its received bytes, its sent bytes and their total, the sum of
/// the two (held at the largest `u64` when it would pass it), so the total
/// is never below either of them.
pub proof fn process_lines_total_their_traffic(f: ReportFrameView, top_n: nat, j: int)
    requires
        0 <= j < f.processes.len(),
    ensures
        ({
            let line = spec_plain_lines(f, top_n)[8 + j];
            let r = f.processes[j];
            &&& line.len() == 5
            &&& line[0] == CellView::Text(r.name)
            &&& line[1] == CellView::Text(
                match r.pid {
                    Some(pid) => decimal(pid as nat),
                    None => "-"@,
                },
            )
            &&& line[2] == CellView::Bytes(r.recv)
            &&& line[3] == CellView::Bytes(r.sent)
            &&& line[4] matches CellView::Bytes(t) && t >= r.recv && t >= r.sent && (r.recv
                + r.sent <= u64::MAX ==> t == r.recv + r.sent) && (r.recv + r.sent > u64::MAX
                ==> t == u64::MAX)
        }),
{
    let lines = spec_plain_lines(f, top_n);
    let procs = f.processes.map_values(|r: ProcessRowView| process_line(r));
    let n = decimal(top_n);
    let head = seq![
        seq![
            text("delray"@),
            text(f.interface),
            text("host: "@ + f.host),
            text("started: "@ + f.started_at),
            text("uptime: "@ + spec_hms(f.uptime_secs as nat)),
            text(f.now),
        ],
        Seq::empty(),
        seq![text("Interface Traffic"@)],
        seq![text("Inbound"@), CellView::Bytes(f.in_bytes)],
        seq![text("Outbound"@), CellView::Bytes(f.out_bytes)],
        Seq::empty(),
        seq![text("Top Processes ("@ + n + ")"@)],
        seq![text("Process"@), text("PID"@), text("Recv"@), text("Sent"@), text("Total"@)],
    ];
    assert(head.len() == 8);
    assert((head + procs)[8 + j] == procs[j]);
    assert(lines[8 + j] == (head + procs)[8 + j]);
}

/// Law: the plain report gives the interface totals on its fourth and
/// fifth lines (inbound, then outbound), then one line per process, and
/// after the process section one line per inbound address and, after that
/// section, one line per outbound address, each with the address and its
/// bytes, in the order of the frame; nothing else follows.
pub proof fn plain_report_lists_every_row_in_place(f: ReportFrameView, top_n: nat)
    ensures
        ({
            let lines = spec_plain_lines(f, top_n);
            let p = f.processes.len() as int;
            let i = f.inbound.len() as int;
            &&& lines.len() == 14 + p + i + f.outbound.len()
            &&& lines[3] == seq![CellView::Text("Inbound"@), CellView::Bytes(f.in_bytes)]
            &&& lines[4] == seq![CellView::Text("Outbound"@), CellView::Bytes(f.out_bytes)]
            &&& forall|k: int|
                0 <= k < i ==> #[trigger] lines[11 + p + k] == seq![
                    CellView::Ip(f.inbound[k].ip),
                    CellView::Bytes(f.inbound[k].bytes),
                ]
            &&& forall|k: int|
                0 <= k < f.outbound.len() ==> #[trigger] lines[14 + p + i + k] == seq![
                    CellView::Ip(f.outbound[k].ip),
                    CellView::Bytes(f.outbound[k].bytes),
                ]
        }),
{
    let lines = spec_plain_lines(f, top_n);
    let p = f.processes.len() as int;
    let i = f.inbound.len() as int;
    let n = decimal(top_n);
    let head = seq![
        seq![
            text("delray"@),
            text(f.interface),
            text("host: "@ + f.host),
            text("started: "@ + f.started_at),
            text("uptime: "@ + spec_hms(f.uptime_secs as nat)),
            text(f.now),
        ],
        Seq::empty(),
        seq![text("Interface Traffic"@)],
        seq![text("Inbound"@), CellView::Bytes(f.in_bytes)],
        seq![text("Outbound"@), CellView::Bytes(f.out_bytes)],
        Seq::empty(),
        seq![text("Top Processes ("@ + n + ")"@)],
        seq![text("Process"@), text("PID"@), text("Recv"@), text("Sent"@), text("Total"@)],
    ];
    let procs = f.processes.map_values(|r: ProcessRowView| process_line(r));
    let mid1 = seq![
        Seq::empty(),
        seq![text("Top Inbound IPs ("@ + n + ")"@)],
        seq![text("IP"@), text("Bytes"@)],
    ];
    let inb = f.inbound.map_values(|e: IpSnapshot| ip_line(e));
    let mid2 = seq![
        Seq::empty(),
        seq![text("Top Outbound IPs ("@ + n + ")"@)],
        seq![text("IP"@), text("Bytes"@)],
    ];
    let outb = f.outbound.map_values(|e: IpSnapshot| ip_line(e));
    let a = head + procs;
    let b = a + mid1;
    let c = b + inb;
    let d = c + mid2;
    assert(lines == d + outb);
    assert(lines[3] == head[3]);
    assert(lines[4] == head[4]);
    assert forall|k: int| 0 <= k < i implies #[trigger] lines[11 + p + k] == seq![
        CellView::Ip(f.inbound[k].ip),
        CellView::Bytes(f.inbound[k].bytes),
    ] by {
        assert(lines[11 + p + k] == c[11 + p + k]);
        assert(c[11 + p + k] == inb[k]);
    }
    assert forall|k: int| 0 <= k < f.outbound.len() implies #[trigger] lines[14 + p + i + k]
        == seq![CellView::Ip(f.outbound[k].ip), CellView::Bytes(f.outbound[k].bytes)] by {
        assert(lines[14 + p + i + k] == outb[k]);
    }
}

pub ghost struct ReportFrameView {
    pub interface: Seq<char>,
    pub host: Seq<char>,
    pub started_at: Seq<char>,
    pub now: Seq<char>,
    pub uptime_secs: u64,
    pub in_bytes: u64,
    pub out_bytes: u64,
    pub processes: Seq<ProcessRowView>,
    pub inbound: Seq<IpSnapshot>,
    pub outbound: Seq<IpSnapshot>,
}

impl View for ReportFrame {
    type V = ReportFrameView;

    open spec fn view(&self) -> ReportFrameView {
        ReportFrameView {
            interface: self.interface@,
            host: self.host@,
            started_at: self.started_at@,
            now: self.now@,
            uptime_secs: self.uptime_secs,
            in_bytes: self.in_bytes,
            out_bytes: self.out_bytes,
            processes: self.top_processes@.map_values(|r: ProcessRow| r@),
            inbound: self.top_inbound_ips@,
            outbound: self.top_outbound_ips@,
        }
    }
}

fn text_cell(s: &str) -> (c: Cell)
    ensures
        c@ == text(s@),
{
    Cell::Text(s.to_string())
}

fn prefixed_cell(prefix: &str, s: &str) -> (c: Cell)
    ensures
        c@ == text(prefix@ + s@),
{
    Cell::Text(prefix.to_string().concat(s))
}

fn title_cell(title: &str, top_n: usize) -> (c: Cell)
    ensures
        c@ == text(title@ + decimal(top_n as nat) + ")"@),
{
    let n = decimal_string(top_n as u64);
    Cell::Text(title.to_string().concat(n.as_str()).concat(")"))
}

fn process_cells(r: &ProcessRow) -> (line: Vec<Cell>)
    ensures
        cells_view(line@) == process_line(r@),
{
    let pid = match r.pid {
        Some(pid) => decimal_string(pid as u64),
        None => "-".to_string(),
    };
    let line = vec![
        Cell::Text(r.name.clone()),
        Cell::Text(pid),
        Cell::Bytes(r.recv),
        Cell::Bytes(r.sent),
        Cell::Bytes(r.recv.saturating_add(r.sent)),
    ];
    assert(cells_view(line@) =~= process_line(r@));
    line
}

fn ip_cells(e: IpSnapshot) -> (line: Vec<Cell>)
    ensures
        cells_view(line@) == ip_line(e),
{
    let line = vec![Cell::Ip(e.ip), Cell::Bytes(e.bytes)];
    assert(cells_view(line@) =~= ip_line(e));
    line
}

fn line_of_one(a: Cell) -> (v: Vec<Cell>)
    ensures
        cells_view(v@) == seq![a@],
{
    let mut v: Vec<Cell> = Vec::new();
    v.push(a);
    assert(cells_view(v@) =~= seq![a@]);
    v
}

fn line_of_two(a: Cell, b: Cell) -> (v: Vec<Cell>)
    ensures
        cells_view(v@) == seq![a@, b@],
{
    let mut v: Vec<Cell> = Vec::new();
    v.push(a);
    v.push(b);
    assert(cells_view(v@) =~= seq![a@, b@]);
    v
}

fn line_of_five(a: Cell, b: Cell, c: Cell, d: Cell, e: Cell) -> (v: Vec<Cell>)
    ensures
        cells_view(v@) == seq![a@, b@, c@, d@, e@],
{
    let mut v: Vec<Cell> = Vec::new();
    v.push(a);
    v.push(b);
    v.push(c);
    v.push(d);
    v.push(e);
    assert(cells_view(v@) =~= seq![a@, b@, c@, d@, e@]);
    v
}

fn line_of_six(a: Cell, b: Cell, c: Cell, d: Cell, e: Cell, f: Cell) -> (v: Vec<Cell>)
    ensures
        cells_view(v@) == seq![a@, b@, c@, d@, e@, f@],
{
    let mut v: Vec<Cell> = Vec::new();
    v.push(a);
    v.push(b);
    v.push(c);
    v.push(d);
    v.push(e);
    v.push(f);
    assert(cells_view(v@) =~= seq![a@, b@, c@, d@, e@, f@]);
    v
}

fn blank_line() -> (v: Vec<Cell>)
    ensures
        cells_view(v@) == Seq::<CellView>::empty(),
{
    let v: Vec<Cell> = Vec::new();
    assert(cells_view(v@) =~= Seq::<CellView>::empty());
    v
}

fn push_line(lines: &mut Vec<Vec<Cell>>, line: Vec<Cell>)
    ensures
        lines_view(final(lines)@) == lines_view(old(lines)@).push(cells_view(line@)),
{
    let ghost before = lines@;
    lines.push(line);
    assert(lines_view(lines@) =~= lines_view(before).push(cells_view(line@)));
}

fn push_ip_lines(lines: &mut Vec<Vec<Cell>>, ips: &Vec<IpSnapshot>)
    ensures
        lines_view(final(lines)@) == lines_view(old(lines)@) + ips@.map_values(
            |e: IpSnapshot| ip_line(e),
        ),
{
    let ghost start = lines_view(lines@);
    let mut i: usize = 0;
    while i < ips.len()
        invariant
            i <= ips@.len(),
            lines_view(lines@) == start + ips@.subrange(0, i as int).map_values(
                |e: IpSnapshot| ip_line(e),
            ),
        decreases ips@.len() - i,
    {
        push_line(lines, ip_cells(ips[i]));
        assert(ips@.subrange(0, i + 1).map_values(|e: IpSnapshot| ip_line(e)) =~= ips@.subrange(
            0,
            i as int,
        ).map_values(|e: IpSnapshot| ip_line(e)).push(ip_line(ips@[i as int])));
        i += 1;
    }
    assert(ips@.subrange(0, ips@.len() as int) =~= ips@);
}

/// The lines of the plain report of `frame`; see [`spec_plain_lines`].
pub fn plain_lines(frame: &ReportFrame, top_n: usize) -> (lines: Vec<Vec<Cell>>)
    ensures
        lines_view(lines@) == spec_plain_lines(frame@, top_n as nat),
{
    let mut lines: Vec<Vec<Cell>> = Vec::new();
    let heading = line_of_six(
        text_cell("delray"),
        text_cell(frame.interface.as_str()),
        prefixed_cell("host: ", frame.host.as_str()),
        prefixed_cell("started: ", frame.started_at.as_str()),
        prefixed_cell("uptime: ", format_hms(frame.uptime_secs).as_str()),
        text_cell(frame.now.as_str()),
    );
    push_line(&mut lines, heading);
    push_line(&mut lines, blank_line());
    push_line(&mut lines, line_of_one(text_cell("Interface Traffic")));
    push_line(&mut lines, line_of_two(text_cell("Inbound"), Cell::Bytes(frame.in_bytes)));
    push_line(&mut lines, line_of_two(text_cell("Outbound"), Cell::Bytes(frame.out_bytes)));
    push_line(&mut lines, blank_line());
    push_line(&mut lines, line_of_one(title_cell("Top Processes (", top_n)));
    push_line(
        &mut lines,
        line_of_five(
            text_cell("Process"),
            text_cell("PID"),
            text_cell("Recv"),
            text_cell("Sent"),
            text_cell("Total"),
        ),
    );
    let ghost head = lines_view(lines@);
    let ghost n = decimal(top_n as nat);
    assert(head =~= seq![
        seq![
            text("delray"@),
            text(frame@.interface),
            text("host: "@ + frame@.host),
            text("started: "@ + frame@.started_at),
            text("uptime: "@ + spec_hms(frame@.uptime_secs as nat)),
            text(frame@.now),
        ],
        Seq::empty(),
        seq![text("Interface Traffic"@)],
        seq![text("Inbound"@), CellView::Bytes(frame@.in_bytes)],
        seq![text("Outbound"@), CellView::Bytes(frame@.out_bytes)],
        Seq::empty(),
        seq![text("Top Processes ("@ + n + ")"@)],
        seq![text("Process"@), text("PID"@), text("Recv"@), text("Sent"@), text("Total"@)],
    ]);
    let mut i: usize = 0;
    while i < frame.top_processes.len()
        invariant
            i <= frame.top_processes@.len(),
            lines_view(lines@) == head + frame.top_processes@.subrange(0, i as int).map_values(
                |r: ProcessRow| process_line(r@),
            ),
        decreases frame.top_processes@.len() - i,
    {
        push_line(&mut lines, process_cells(&frame.top_processes[i]));
        assert(frame.top_processes@.subrange(0, i + 1).map_values(|r: ProcessRow| process_line(r@))
            =~= frame.top_processes@.subrange(0, i as int).map_values(
            |r: ProcessRow| process_line(r@),
        ).push(process_line(frame.top_processes@[i as int]@)));
        i += 1;
    }
    assert(frame.top_processes@.subrange(0, frame.top_processes@.len() as int) =~= frame.top_processes@);
    assert(frame.top_processes@.map_values(|r: ProcessRow| process_line(r@)) =~= frame@.processes.map_values(
        |r: ProcessRowView| process_line(r),
    ));
    let ghost with_processes = lines_view(lines@);
    push_line(&mut lines, blank_line());
    push_line(&mut lines, line_of_one(title_cell("Top Inbound IPs (", top_n)));
    push_line(&mut lines, line_of_two(text_cell("IP"), text_cell("Bytes")));
    let ghost inbound_head = lines_view(lines@);
    assert(inbound_head =~= with_processes + seq![
        Seq::empty(),
        seq![text("Top Inbound IPs ("@ + n + ")"@)],
        seq![text("IP"@), text("Bytes"@)],
    ]);
    push_ip_lines(&mut lines, &frame.top_inbound_ips);
    let ghost with_inbound = lines_view(lines@);
    push_line(&mut lines, blank_line());
    push_line(&mut lines, line_of_one(title_cell("Top Outbound IPs (", top_n)));
    push_line(&mut lines, line_of_two(text_cell("IP"), text_cell("Bytes")));
    assert(lines_view(lines@) =~= with_inbound + seq![
        Seq::empty(),
        seq![text("Top Outbound IPs ("@ + n + ")"@)],
        seq![text("IP"@), text("Bytes"@)],
    ]);
    push_ip_lines(&mut lines, &frame.top_outbound_ips);
    proof {
        reveal_strlit("-");
        assert(lines_view(lines@) =~= spec_plain_lines(frame@, top_n as nat));
    }
    lines
}

} // verus!
