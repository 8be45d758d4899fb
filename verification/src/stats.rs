//! Cumulative traffic statistics: interface totals, per-peer totals and
//! per-process buckets, and ranked snapshots of them.

use vstd::prelude::*;

use crate::capture::Flow;
use crate::net::{Direction, IpAddress};
use crate::rank::{is_top_selection, top_positions};
use crate::seqs::{
    keys_unique, lemma_pos_of, lemma_pos_of_unique, lemma_sum_nonneg, lemma_sum_nonneg_ge, lemma_sum_push,
    lemma_sum_update, lemma_unique_push, lemma_unique_update, pos_of, sum_of,
};

verus! {

/// Received and sent bytes of one process bucket.
#[derive(Clone, Copy, Debug, Default, PartialEq, Eq, Structural)]
pub struct ProcTraffic {
    /// Received (inbound) bytes.
    pub recv: u64,
    /// Sent (outbound) bytes.
    pub sent: u64,
}

pub open spec fn opt_seq(o: Option<String>) -> Option<Seq<char>> {
    match o {
        Some(s) => Some(s@),
        None => None,
    }
}

/// A copy of an optional string.
pub fn clone_opt_string(o: &Option<String>) -> (r: Option<String>)
    ensures
        opt_seq(r) == opt_seq(*o),
{
    match o {
        Some(s) => Some(s.clone()),
        None => None,
    }
}

/// Whether two optional strings hold the same text.
pub fn same_opt_string(a: &Option<String>, b: &Option<String>) -> (r: bool)
    ensures
        r == (opt_seq(*a) == opt_seq(*b)),
{
    match (a, b) {
        (Some(x), Some(y)) => x.eq(y),
        (None, None) => true,
        _ => false,
    }
}

/// A process that a socket lookup found: its id, display name and
/// executable path when known.
#[derive(Debug)]
pub struct ObservedProcess {
    pub pid: u32,
    pub name: Option<String>,
    pub path: Option<String>,
}

pub ghost struct ProcessView {
    pub pid: u32,
    pub name: Option<Seq<char>>,
    pub path: Option<Seq<char>>,
}

impl View for ObservedProcess {
    type V = ProcessView;

    open spec fn view(&self) -> ProcessView {
        ProcessView { pid: self.pid, name: opt_seq(self.name), path: opt_seq(self.path) }
    }
}

impl ObservedProcess {
    /// A copy of this process record.
    pub fn duplicate(&self) -> (r: ObservedProcess)
        ensures
            r@ == self@,
    {
        ObservedProcess {
            pid: self.pid,
            name: clone_opt_string(&self.name),
            path: clone_opt_string(&self.path),
        }
    }
}

pub open spec fn opt_process(p: Option<ObservedProcess>) -> Option<ProcessView> {
    match p {
        Some(p) => Some(p@),
        None => None,
    }
}

/// One process bucket of the model: the statistical identity (pid and
/// executable path), the first name seen, the traffic and the time of the
/// last traffic recorded for it.
pub ghost struct ProcRecord {
    pub pid: u32,
    pub path: Option<Seq<char>>,
    pub name: Option<Seq<char>>,
    pub recv: u64,
    pub sent: u64,
    pub last_seen: i64,
}

/// The mathematical state of a [`Stats`].
pub ghost struct StatsModel {
    pub in_bytes: u64,
    pub out_bytes: u64,
    pub in_by_ip: Seq<(IpAddress, u64)>,
    pub out_by_ip: Seq<(IpAddress, u64)>,
    pub procs: Seq<ProcRecord>,
    pub unattributed: ProcTraffic,
    pub unattributed_last_seen: Option<i64>,
}

pub open spec fn ip_key() -> spec_fn((IpAddress, u64)) -> IpAddress {
    |e: (IpAddress, u64)| e.0
}

pub open spec fn ip_bytes() -> spec_fn((IpAddress, u64)) -> int {
    |e: (IpAddress, u64)| e.1 as int
}

pub open spec fn proc_key() -> spec_fn(ProcRecord) -> (u32, Option<Seq<char>>) {
    |r: ProcRecord| (r.pid, r.path)
}

pub open spec fn proc_recv() -> spec_fn(ProcRecord) -> int {
    |r: ProcRecord| r.recv as int
}

pub open spec fn proc_sent() -> spec_fn(ProcRecord) -> int {
    |r: ProcRecord| r.sent as int
}

impl StatsModel {
    pub open spec fn empty() -> StatsModel {
        StatsModel {
            in_bytes: 0,
            out_bytes: 0,
            in_by_ip: Seq::empty(),
            out_by_ip: Seq::empty(),
            procs: Seq::empty(),
            unattributed: ProcTraffic { recv: 0, sent: 0 },
            unattributed_last_seen: None,
        }
    }

    /// Bytes received by all process buckets, the unattributed one included.
    pub open spec fn recv_total(self) -> int {
        sum_of(self.procs, proc_recv()) + self.unattributed.recv
    }

    /// Bytes sent by all process buckets, the unattributed one included.
    pub open spec fn sent_total(self) -> int {
        sum_of(self.procs, proc_sent()) + self.unattributed.sent
    }

    pub open spec fn wf(self) -> bool {
        &&& keys_unique(self.in_by_ip, ip_key())
        &&& keys_unique(self.out_by_ip, ip_key())
        &&& keys_unique(self.procs, proc_key())
        &&& self.in_bytes == sum_of(self.in_by_ip, ip_bytes())
        &&& self.out_bytes == sum_of(self.out_by_ip, ip_bytes())
        &&& (self.unattributed.recv > 0 || self.unattributed.sent > 0)
            ==> self.unattributed_last_seen is Some
    }
}

/// Adds `bytes` to the entry of `ip`, creating it when absent.
pub open spec fn add_ip(s: Seq<(IpAddress, u64)>, ip: IpAddress, bytes: u64) -> Seq<
    (IpAddress, u64),
> {
    let p = pos_of(s, ip_key(), ip);
    if p < 0 {
        s.push((ip, bytes))
    } else {
        s.update(p, (ip, (s[p].1 + bytes) as u64))
    }
}

/// Interface accounting of one flow.
///
/// A flow between two local sockets is both sent by its source and received
/// by its destination; any other flow counts once, in its direction, under
/// its peer address.
pub open spec fn spec_record_interface(m: StatsModel, flow: Flow) -> StatsModel {
    if flow.peer_local_socket is Some {
        let in_ip = match flow.local_socket {
            Some(s) => s.ip,
            None => flow.peer,
        };
        StatsModel {
            out_bytes: (m.out_bytes + flow.bytes) as u64,
            out_by_ip: add_ip(m.out_by_ip, flow.peer, flow.bytes),
            in_bytes: (m.in_bytes + flow.bytes) as u64,
            in_by_ip: add_ip(m.in_by_ip, in_ip, flow.bytes),
            ..m
        }
    } else {
        match flow.direction {
            Direction::Inbound => StatsModel {
                in_bytes: (m.in_bytes + flow.bytes) as u64,
                in_by_ip: add_ip(m.in_by_ip, flow.peer, flow.bytes),
                ..m
            },
            Direction::Outbound => StatsModel {
                out_bytes: (m.out_bytes + flow.bytes) as u64,
                out_by_ip: add_ip(m.out_by_ip, flow.peer, flow.bytes),
                ..m
            },
        }
    }
}

/// Whether the interface accounting of `flow` fits the 64-bit counters.
pub open spec fn interface_room(m: StatsModel, flow: Flow) -> bool {
    if flow.peer_local_socket is Some {
        m.in_bytes + flow.bytes <= u64::MAX && m.out_bytes + flow.bytes <= u64::MAX
    } else {
        match flow.direction {
            Direction::Inbound => m.in_bytes + flow.bytes <= u64::MAX,
            Direction::Outbound => m.out_bytes + flow.bytes <= u64::MAX,
        }
    }
}

pub open spec fn add_traffic(t: ProcTraffic, direction: Direction, bytes: u64) -> ProcTraffic {
    match direction {
        Direction::Inbound => ProcTraffic { recv: (t.recv + bytes) as u64, ..t },
        Direction::Outbound => ProcTraffic { sent: (t.sent + bytes) as u64, ..t },
    }
}

pub open spec fn traffic_room(t: ProcTraffic, direction: Direction, bytes: u64) -> bool {
    match direction {
        Direction::Inbound => t.recv + bytes <= u64::MAX,
        Direction::Outbound => t.sent + bytes <= u64::MAX,
    }
}

pub open spec fn record_traffic(r: ProcRecord) -> ProcTraffic {
    ProcTraffic { recv: r.recv, sent: r.sent }
}

/// The bucket of `p` after `bytes` more traffic in `direction` at time `t`:
/// the traffic grows, the last-seen time becomes `t`, and a name is kept
/// once one is known.
pub open spec fn spec_add_proc(
    procs: Seq<ProcRecord>,
    p: ProcessView,
    direction: Direction,
    bytes: u64,
    t: i64,
) -> Seq<ProcRecord> {
    let i = pos_of(procs, proc_key(), (p.pid, p.path));
    if i < 0 {
        let traffic = add_traffic(ProcTraffic { recv: 0, sent: 0 }, direction, bytes);
        procs.push(
            ProcRecord {
                pid: p.pid,
                path: p.path,
                name: p.name,
                recv: traffic.recv,
                sent: traffic.sent,
                last_seen: t,
            },
        )
    } else {
        let old = procs[i];
        let traffic = add_traffic(record_traffic(old), direction, bytes);
        procs.update(
            i,
            ProcRecord {
                name: if old.name is Some {
                    old.name
                } else {
                    p.name
                },
                recv: traffic.recv,
                sent: traffic.sent,
                last_seen: t,
                ..old
            },
        )
    }
}

/// Process accounting of `bytes` in `direction` observed at `t`: into the
/// bucket of the process when one is known, else into the unattributed bucket.
pub open spec fn spec_record_process(
    m: StatsModel,
    process: Option<ProcessView>,
    direction: Direction,
    bytes: u64,
    t: i64,
) -> StatsModel {
    match process {
        Some(p) => StatsModel { procs: spec_add_proc(m.procs, p, direction, bytes, t), ..m },
        None => StatsModel {
            unattributed: add_traffic(m.unattributed, direction, bytes),
            unattributed_last_seen: Some(t),
            ..m
        },
    }
}

/// Whether the process accounting fits the 64-bit counter it adds to.
pub open spec fn process_room(
    m: StatsModel,
    process: Option<ProcessView>,
    direction: Direction,
    bytes: u64,
) -> bool {
    match process {
        Some(p) => {
            let i = pos_of(m.procs, proc_key(), (p.pid, p.path));
            i < 0 || traffic_room(record_traffic(m.procs[i]), direction, bytes)
        },
        None => traffic_room(m.unattributed, direction, bytes),
    }
}

/// Full accounting of one flow: the interface, then the process of its local
/// socket; a flow between two local sockets is sent by `process` and received
/// by `peer_process`.
pub open spec fn spec_record_flow(
    m: StatsModel,
    flow: Flow,
    process: Option<ProcessView>,
    peer_process: Option<ProcessView>,
    t: i64,
) -> StatsModel {
    let m1 = spec_record_interface(m, flow);
    if flow.peer_local_socket is Some {
        let m2 = spec_record_process(m1, process, Direction::Outbound, flow.bytes, t);
        spec_record_process(m2, peer_process, Direction::Inbound, flow.bytes, t)
    } else {
        spec_record_process(m1, process, flow.direction, flow.bytes, t)
    }
}

pub open spec fn flow_room(
    m: StatsModel,
    flow: Flow,
    process: Option<ProcessView>,
    peer_process: Option<ProcessView>,
) -> bool {
    let m1 = spec_record_interface(m, flow);
    &&& interface_room(m, flow)
    &&& if flow.peer_local_socket is Some {
        let m2 = spec_record_process(m1, process, Direction::Outbound, flow.bytes, 0);
        process_room(m1, process, Direction::Outbound, flow.bytes) && process_room(
            m2,
            peer_process,
            Direction::Inbound,
            flow.bytes,
        )
    } else {
        process_room(m1, process, flow.direction, flow.bytes)
    }
}

struct ProcEntry {
    pid: u32,
    path: Option<String>,
    name: Option<String>,
    traffic: ProcTraffic,
    last_seen: i64,
}

impl ProcEntry {
    spec fn record(&self) -> ProcRecord {
        ProcRecord {
            pid: self.pid,
            path: opt_seq(self.path),
            name: opt_seq(self.name),
            recv: self.traffic.recv,
            sent: self.traffic.sent,
            last_seen: self.last_seen,
        }
    }
}

/// The counters behind [`Stats`].
struct StatsData {
    in_bytes: u64,
    out_bytes: u64,
    in_by_ip: Vec<(IpAddress, u64)>,
    out_by_ip: Vec<(IpAddress, u64)>,
    procs: Vec<ProcEntry>,
    unattributed: ProcTraffic,
    unattributed_last_seen: Option<i64>,
}

impl View for StatsData {
    type V = StatsModel;

    closed spec fn view(&self) -> StatsModel {
        StatsModel {
            in_bytes: self.in_bytes,
            out_bytes: self.out_bytes,
            in_by_ip: self.in_by_ip@,
            out_by_ip: self.out_by_ip@,
            procs: self.procs@.map_values(|e: ProcEntry| e.record()),
            unattributed: self.unattributed,
            unattributed_last_seen: self.unattributed_last_seen,
        }
    }
}

fn find_ip(v: &Vec<(IpAddress, u64)>, ip: IpAddress) -> (r: Option<usize>)
    ensures
        match r {
            Some(i) => i < v@.len() && v@[i as int].0 == ip,
            None => forall|i: int| 0 <= i < v@.len() ==> v@[i].0 != ip,
        },
{
    let mut i: usize = 0;
    while i < v.len()
        invariant
            i <= v@.len(),
            forall|k: int| 0 <= k < i ==> v@[k].0 != ip,
        decreases v@.len() - i,
    {
        if v[i].0 == ip {
            return Some(i);
        }
        i += 1;
    }
    None
}

/// Adds `bytes` to the entry of `ip` in `v`.
fn add_ip_exec(v: &mut Vec<(IpAddress, u64)>, ip: IpAddress, bytes: u64)
    requires
        keys_unique(old(v)@, ip_key()),
        sum_of(old(v)@, ip_bytes()) + bytes <= u64::MAX,
    ensures
        final(v)@ == add_ip(old(v)@, ip, bytes),
        keys_unique(final(v)@, ip_key()),
        sum_of(final(v)@, ip_bytes()) == sum_of(old(v)@, ip_bytes()) + bytes,
{
    let ghost s = v@;
    proof {
        lemma_pos_of(s, ip_key(), ip);
    }
    match find_ip(v, ip) {
        Some(i) => {
            proof {
                lemma_pos_of_unique(s, ip_key(), ip, i as int);
                lemma_sum_nonneg_ge(s, i as int, ip_bytes());
            }
            let current = v[i].1;
            v.set(i, (ip, current + bytes));
            proof {
                lemma_sum_update(s, i as int, (ip, (current + bytes) as u64), ip_bytes());
                lemma_unique_update(s, ip_key(), i as int, (ip, (current + bytes) as u64));
            }
        },
        None => {
            v.push((ip, bytes));
            proof {
                lemma_sum_push(s, (ip, bytes), ip_bytes());
                lemma_unique_push(s, ip_key(), (ip, bytes));
            }
        },
    }
}

fn add_traffic_exec(t: ProcTraffic, direction: Direction, bytes: u64) -> (r: ProcTraffic)
    requires
        traffic_room(t, direction, bytes),
    ensures
        r == add_traffic(t, direction, bytes),
{
    match direction {
        Direction::Inbound => ProcTraffic { recv: t.recv + bytes, sent: t.sent },
        Direction::Outbound => ProcTraffic { recv: t.recv, sent: t.sent + bytes },
    }
}

impl StatsData {
    /// Empty statistics.
    fn new() -> (r: StatsData)
        ensures
            r@ == StatsModel::empty(),
            r@.wf(),
    {
        let r = StatsData {
            in_bytes: 0,
            out_bytes: 0,
            in_by_ip: Vec::new(),
            out_by_ip: Vec::new(),
            procs: Vec::new(),
            unattributed: ProcTraffic { recv: 0, sent: 0 },
            unattributed_last_seen: None,
        };
        assert(r@.procs =~= Seq::<ProcRecord>::empty());
        r
    }

    /// Total inbound bytes seen on the interface.
    fn in_bytes(&self) -> (r: u64)
        ensures
            r == self@.in_bytes,
    {
        self.in_bytes
    }

    /// Total outbound bytes seen on the interface.
    fn out_bytes(&self) -> (r: u64)
        ensures
            r == self@.out_bytes,
    {
        self.out_bytes
    }

    proof fn lemma_procs_view(&self)
        ensures
            self@.procs.len() == self.procs@.len(),
            forall|i: int| 0 <= i < self.procs@.len() ==> #[trigger] self@.procs[i] == self.procs@[i].record(),
    {
    }

    fn add_in(&mut self, ip: IpAddress, bytes: u64)
        requires
            old(self)@.wf(),
            old(self)@.in_bytes + bytes <= u64::MAX,
        ensures
            final(self)@ == (StatsModel {
                in_bytes: (old(self)@.in_bytes + bytes) as u64,
                in_by_ip: add_ip(old(self)@.in_by_ip, ip, bytes),
                ..old(self)@
            }),
            final(self)@.wf(),
    {
        self.in_bytes = self.in_bytes + bytes;
        add_ip_exec(&mut self.in_by_ip, ip, bytes);
    }

    fn add_out(&mut self, ip: IpAddress, bytes: u64)
        requires
            old(self)@.wf(),
            old(self)@.out_bytes + bytes <= u64::MAX,
        ensures
            final(self)@ == (StatsModel {
                out_bytes: (old(self)@.out_bytes + bytes) as u64,
                out_by_ip: add_ip(old(self)@.out_by_ip, ip, bytes),
                ..old(self)@
            }),
            final(self)@.wf(),
    {
        self.out_bytes = self.out_bytes + bytes;
        add_ip_exec(&mut self.out_by_ip, ip, bytes);
    }

    /// Records the interface side of a flow: under its peer address in its
    /// direction, or both ways for a flow between two local sockets.
    fn record_interface_flow(&mut self, flow: &Flow)
        requires
            old(self)@.wf(),
            interface_room(old(self)@, *flow),
        ensures
            final(self)@ == spec_record_interface(old(self)@, *flow),
            final(self)@.wf(),
    {
        if flow.peer_local_socket.is_some() {
            self.add_out(flow.peer, flow.bytes);
            let in_ip = match flow.local_socket {
                Some(s) => s.ip,
                None => flow.peer,
            };
            self.add_in(in_ip, flow.bytes);
            return;
        }
        match flow.direction {
            Direction::Inbound => self.add_in(flow.peer, flow.bytes),
            Direction::Outbound => self.add_out(flow.peer, flow.bytes),
        }
    }

    fn find_proc(&self, pid: u32, path: &Option<String>) -> (r: Option<usize>)
        ensures
            match r {
                Some(i) => i < self.procs@.len() && proc_key()(self@.procs[i as int]) == (
                    pid,
                    opt_seq(*path),
                ),
                None => forall|i: int|
                    0 <= i < self@.procs.len() ==> proc_key()(#[trigger] self@.procs[i]) != (
                        pid,
                        opt_seq(*path),
                    ),
            },
    {
        proof {
            self.lemma_procs_view();
        }
        let mut i: usize = 0;
        while i < self.procs.len()
            invariant
                i <= self.procs@.len(),
                self@.procs.len() == self.procs@.len(),
                forall|k: int| 0 <= k < self.procs@.len() ==> #[trigger] self@.procs[k] == self.procs@[k].record(),
                forall|k: int|
                    0 <= k < i ==> proc_key()(#[trigger] self@.procs[k]) != (pid, opt_seq(*path)),
            decreases self.procs@.len() - i,
        {
            if self.procs[i].pid == pid && same_opt_string(&self.procs[i].path, path) {
                return Some(i);
            }
            i += 1;
        }
        None
    }

    fn add_proc(&mut self, process: ObservedProcess, direction: Direction, bytes: u64, t: i64)
        requires
            old(self)@.wf(),
            process_room(old(self)@, Some(process@), direction, bytes),
        ensures
            final(self)@ == spec_record_process(old(self)@, Some(process@), direction, bytes, t),
            final(self)@.wf(),
    {
        let ghost m = self@;
        let ghost key = (process.pid, opt_seq(process.path));
        proof {
            self.lemma_procs_view();
            lemma_pos_of(m.procs, proc_key(), key);
        }
        match self.find_proc(process.pid, &process.path) {
            Some(i) => {
                proof {
                    lemma_pos_of_unique(m.procs, proc_key(), key, i as int);
                }
                let traffic = add_traffic_exec(self.procs[i].traffic, direction, bytes);
                let ghost old_entry = self.procs@[i as int];
                let keep_name = self.procs[i].name.is_some();
                self.procs[i].traffic = traffic;
                self.procs[i].last_seen = t;
                if !keep_name {
                    self.procs[i].name = process.name;
                }
                proof {
                    let new_rec = self.procs@[i as int].record();
                    assert(self.procs@ == old(self).procs@.update(i as int, self.procs@[i as int]));
                    assert(self@.procs =~= m.procs.update(i as int, new_rec));
                    lemma_unique_update(m.procs, proc_key(), i as int, new_rec);
                }
            },
            None => {
                let traffic = add_traffic_exec(
                    ProcTraffic { recv: 0, sent: 0 },
                    direction,
                    bytes,
                );
                let entry = ProcEntry {
                    pid: process.pid,
                    path: process.path,
                    name: process.name,
                    traffic,
                    last_seen: t,
                };
                let ghost rec = entry.record();
                self.procs.push(entry);
                proof {
                    assert(self@.procs =~= m.procs.push(rec));
                    lemma_unique_push(m.procs, proc_key(), rec);
                }
            },
        }
    }

    /// Records the process side of `bytes` of traffic in `direction`
    /// observed at `observed_at`: into the bucket of `process`, or into the
    /// unattributed bucket when no process is known.
    fn record_process(
        &mut self,
        process: Option<ObservedProcess>,
        direction: Direction,
        bytes: u64,
        observed_at: i64,
    )
        requires
            old(self)@.wf(),
            process_room(old(self)@, opt_process(process), direction, bytes),
        ensures
            final(self)@ == spec_record_process(
                old(self)@,
                opt_process(process),
                direction,
                bytes,
                observed_at,
            ),
            final(self)@.wf(),
    {
        match process {
            Some(p) => self.add_proc(p, direction, bytes, observed_at),
            None => {
                self.unattributed = add_traffic_exec(self.unattributed, direction, bytes);
                self.unattributed_last_seen = Some(observed_at);
                proof {
                    assert(self@.procs =~= old(self)@.procs);
                }
            },
        }
    }

    /// Records a flow observed at `observed_at`: the interface totals, then
    /// the process bucket of its local socket (`process`); a flow between
    /// two local sockets is sent by `process` and received by `peer_process`.
    fn record_flow_processes_at(
        &mut self,
        flow: Flow,
        process: Option<ObservedProcess>,
        peer_process: Option<ObservedProcess>,
        observed_at: i64,
    )
        requires
            old(self)@.wf(),
            flow_room(old(self)@, flow, opt_process(process), opt_process(peer_process)),
        ensures
            final(self)@ == spec_record_flow(
                old(self)@,
                flow,
                opt_process(process),
                opt_process(peer_process),
                observed_at,
            ),
            final(self)@.wf(),
    {
        self.record_interface_flow(&flow);
        if flow.peer_local_socket.is_some() {
            self.record_process(process, Direction::Outbound, flow.bytes, observed_at);
            proof {
                lemma_process_room_time_independent(
                    spec_record_interface(old(self)@, flow),
                    opt_process(process),
                    Direction::Outbound,
                    flow.bytes,
                    0,
                    observed_at,
                    opt_process(peer_process),
                    Direction::Inbound,
                );
            }
            self.record_process(peer_process, Direction::Inbound, flow.bytes, observed_at);
            return;
        }
        self.record_process(process, flow.direction, flow.bytes, observed_at);
    }

    /// Records a flow observed at `observed_at` for the process of its local socket.
    fn record_flow_at(&mut self, flow: Flow, process: Option<ObservedProcess>, observed_at: i64)
        requires
            old(self)@.wf(),
            flow_room(old(self)@, flow, opt_process(process), None),
        ensures
            final(self)@ == spec_record_flow(
                old(self)@,
                flow,
                opt_process(process),
                None,
                observed_at,
            ),
            final(self)@.wf(),
    {
        self.record_flow_processes_at(flow, process, None, observed_at)
    }
}

/// The current wall-clock time in microseconds since the Unix epoch, read
/// through `chrono::Utc::now` and `DateTime::timestamp_micros`. Nothing is
/// stated of the value: it is whatever the system clock says.
#[verifier::external_body]
fn clock_micros() -> (r: i64) {
    chrono::Utc::now().timestamp_micros()
}

/// Cumulative statistics since capture started: the interface totals and
/// the traffic of each peer address and of each process, with the traffic
/// no process could be found for in a bucket of its own.
///
/// Times are microseconds since the Unix epoch.
pub struct Stats {
    data: StatsData,
}

impl View for Stats {
    type V = StatsModel;

    closed spec fn view(&self) -> StatsModel {
        self.data@
    }
}

impl Stats {
    /// Every value of the type is well formed: each peer address and each
    /// process identity is counted once, the interface totals are the sums
    /// over the addresses, and an unattributed bucket with traffic has a time.
    #[verifier::type_invariant]
    spec fn well_formed(&self) -> bool {
        self.data@.wf()
    }

    /// Empty statistics.
    pub fn new() -> (r: Stats)
        ensures
            r@ == StatsModel::empty(),
            r@.wf(),
    {
        Stats { data: StatsData::new() }
    }

    /// Takes the counters out, leaving empty ones in their place.
    fn take_data(&mut self) -> (d: StatsData)
        ensures
            d@ == old(self)@,
            d@.wf(),
            final(self)@ == StatsModel::empty(),
    {
        proof {
            use_type_invariant(&*self);
        }
        let mut d = StatsData::new();
        std::mem::swap(&mut d, &mut self.data);
        d
    }

    /// Total inbound bytes seen on the interface.
    pub fn in_bytes(&self) -> (r: u64)
        ensures
            r == self@.in_bytes,
    {
        self.data.in_bytes()
    }

    /// Total outbound bytes seen on the interface.
    pub fn out_bytes(&self) -> (r: u64)
        ensures
            r == self@.out_bytes,
    {
        self.data.out_bytes()
    }

    /// Records the interface side of a flow: under its peer address in its
    /// direction, or both ways for a flow between two local sockets.
    pub fn record_interface_flow(&mut self, flow: &Flow)
        requires
            interface_room(old(self)@, *flow),
        ensures
            final(self)@ == spec_record_interface(old(self)@, *flow),
            final(self)@.wf(),
    {
        let mut d = self.take_data();
        d.record_interface_flow(flow);
        self.data = d;
    }

    /// Records the process side of `bytes` of traffic in `direction`
    /// observed at `observed_at`: into the bucket of `process`, or into the
    /// unattributed bucket when no process is known.
    pub fn record_process(
        &mut self,
        process: Option<ObservedProcess>,
        direction: Direction,
        bytes: u64,
        observed_at: i64,
    )
        requires
            process_room(old(self)@, opt_process(process), direction, bytes),
        ensures
            final(self)@ == spec_record_process(
                old(self)@,
                opt_process(process),
                direction,
                bytes,
                observed_at,
            ),
            final(self)@.wf(),
    {
        let mut d = self.take_data();
        d.record_process(process, direction, bytes, observed_at);
        self.data = d;
    }

    /// Records a flow observed at `observed_at`: the interface totals, then
    /// the process bucket of its local socket (`process`); a flow between
    /// two local sockets is sent by `process` and received by `peer_process`.
    pub fn record_flow_processes_at(
        &mut self,
        flow: Flow,
        process: Option<ObservedProcess>,
        peer_process: Option<ObservedProcess>,
        observed_at: i64,
    )
        requires
            flow_room(old(self)@, flow, opt_process(process), opt_process(peer_process)),
        ensures
            final(self)@ == spec_record_flow(
                old(self)@,
                flow,
                opt_process(process),
                opt_process(peer_process),
                observed_at,
            ),
            final(self)@.wf(),
    {
        let mut d = self.take_data();
        d.record_flow_processes_at(flow, process, peer_process, observed_at);
        self.data = d;
    }

    /// Records a flow observed at `observed_at` for the process of its local socket.
    pub fn record_flow_at(&mut self, flow: Flow, process: Option<ObservedProcess>, observed_at: i64)
        requires
            flow_room(old(self)@, flow, opt_process(process), None),
        ensures
            final(self)@ == spec_record_flow(
                old(self)@,
                flow,
                opt_process(process),
                None,
                observed_at,
            ),
            final(self)@.wf(),
    {
        self.record_flow_processes_at(flow, process, None, observed_at)
    }

    /// Whether the interface counters can take `flow` without passing the
    /// largest `u64`.
    pub fn has_room_for(&self, flow: &Flow) -> (r: bool)
        ensures
            r == interface_room(self@, *flow),
    {
        let in_bytes = self.data.in_bytes();
        let out_bytes = self.data.out_bytes();
        if flow.peer_local_socket.is_some() {
            in_bytes <= u64::MAX - flow.bytes && out_bytes <= u64::MAX - flow.bytes
        } else {
            match flow.direction {
                Direction::Inbound => in_bytes <= u64::MAX - flow.bytes,
                Direction::Outbound => out_bytes <= u64::MAX - flow.bytes,
            }
        }
    }

    /// Records a flow for the process of its local socket, stamped with the
    /// current time.
    pub fn record_flow(&mut self, flow: Flow, process: Option<ObservedProcess>)
        requires
            flow_room(old(self)@, flow, opt_process(process), None),
        ensures
            exists|t: i64| final(self)@ == spec_record_flow(old(self)@, flow, opt_process(process), None, t),
            final(self)@.wf(),
    {
        let now = clock_micros();
        self.record_flow_at(flow, process, now);
    }

    /// A snapshot of the totals and of the `top_n` heaviest process buckets,
    /// inbound peers and outbound peers, heaviest first. The unattributed
    /// bucket competes with the processes when it holds traffic.
    pub fn snapshot(&self, top_n: usize) -> (r: TrafficSnapshot)
        ensures
            r.in_bytes == self@.in_bytes,
            r.out_bytes == self@.out_bytes,
            !r.process_data_fresh,
            is_top_processes(r.processes_view(), self@, top_n as nat),
            is_top_ips(r.inbound_ips@, self@.in_by_ip, top_n as nat),
            is_top_ips(r.outbound_ips@, self@.out_by_ip, top_n as nat),
    {
        proof {
            use_type_invariant(self);
        }
        self.data.snapshot(top_n)
    }
}

impl Default for Stats {
    /// Empty statistics.
    fn default() -> (r: Stats)
        ensures
            r@ == StatsModel::empty(),
            r@.wf(),
    {
        Stats::new()
    }
}

/// Room for a second process record does not depend on the time of the first.
pub proof fn lemma_process_room_time_independent(
    m: StatsModel,
    p: Option<ProcessView>,
    d: Direction,
    bytes: u64,
    t1: i64,
    t2: i64,
    q: Option<ProcessView>,
    e: Direction,
)
    ensures
        process_room(spec_record_process(m, p, d, bytes, t1), q, e, bytes) == process_room(
            spec_record_process(m, p, d, bytes, t2),
            q,
            e,
            bytes,
        ),
{
    let a = spec_record_process(m, p, d, bytes, t1);
    let b = spec_record_process(m, p, d, bytes, t2);
    match p {
        Some(pp) => {
            lemma_pos_of(m.procs, proc_key(), (pp.pid, pp.path));
        },
        None => {},
    }
    assert(a.procs.len() == b.procs.len());
    assert forall|i: int| 0 <= i < a.procs.len() implies proc_key()(#[trigger] a.procs[i]) == proc_key()(
        b.procs[i],
    ) && record_traffic(a.procs[i]) == record_traffic(b.procs[i]) by {}
    assert(a.unattributed == b.unattributed);
    match q {
        Some(qq) => {
            lemma_pos_of_same_keys(a.procs, b.procs, (qq.pid, qq.path));
            lemma_pos_of(a.procs, proc_key(), (qq.pid, qq.path));
            let i = pos_of(a.procs, proc_key(), (qq.pid, qq.path));
            if i >= 0 {
                assert(record_traffic(a.procs[i]) == record_traffic(b.procs[i]));
            }
        },
        None => {},
    }
}

proof fn lemma_pos_of_same_keys(a: Seq<ProcRecord>, b: Seq<ProcRecord>, k: (u32, Option<Seq<char>>))
    requires
        a.len() == b.len(),
        forall|i: int| 0 <= i < a.len() ==> proc_key()(#[trigger] a[i]) == proc_key()(b[i]),
    ensures
        pos_of(a, proc_key(), k) == pos_of(b, proc_key(), k),
    decreases a.len(),
{
    if a.len() > 0 {
        assert(proc_key()(a[a.len() - 1]) == proc_key()(b[b.len() - 1]));
        assert forall|i: int| 0 <= i < a.drop_last().len() implies proc_key()(
            #[trigger] a.drop_last()[i],
        ) == proc_key()(b.drop_last()[i]) by {
            assert(proc_key()(a[i]) == proc_key()(b[i]));
        }
        lemma_pos_of_same_keys(a.drop_last(), b.drop_last(), k);
    }
}

// ---------------------------------------------------------------------------
// Snapshots

/// One peer address and the bytes exchanged with it in one direction.
#[derive(Clone, Copy, Debug, PartialEq, Eq, Structural)]
pub struct IpSnapshot {
    pub ip: IpAddress,
    pub bytes: u64,
}

/// Whose traffic a process snapshot describes.
#[derive(Debug)]
pub enum ProcessIdentity {
    Attributed { pid: u32, name: Option<String>, path: Option<String> },
    Unattributed,
}

/// The traffic of one process bucket, as shown to the user.
#[derive(Debug)]
pub struct ProcessSnapshot {
    identity: ProcessIdentity,
    pub recv: u64,
    pub sent: u64,
    last_seen: i64,
}

/// Spec-level value of a [`ProcessSnapshot`]: `identity` is `None` for the
/// unattributed bucket, else (pid, name, path).
pub ghost struct ProcessSnapshotView {
    pub identity: Option<(u32, Option<Seq<char>>, Option<Seq<char>>)>,
    pub recv: u64,
    pub sent: u64,
    pub last_seen: i64,
}

impl View for ProcessSnapshot {
    type V = ProcessSnapshotView;

    closed spec fn view(&self) -> ProcessSnapshotView {
        ProcessSnapshotView {
            identity: match self.identity {
                ProcessIdentity::Attributed { pid, name, path } => Some(
                    (pid, opt_seq(name), opt_seq(path)),
                ),
                ProcessIdentity::Unattributed => None,
            },
            recv: self.recv,
            sent: self.sent,
            last_seen: self.last_seen,
        }
    }
}

/// Received plus sent bytes, saturating at the largest `u64`.
pub open spec fn saturating_total(recv: u64, sent: u64) -> u64 {
    if recv + sent > u64::MAX {
        u64::MAX
    } else {
        (recv + sent) as u64
    }
}

pub open spec fn unattributed_label() -> Seq<char> {
    "<unattributed traffic>"@
}

impl ProcessSnapshot {
    /// The snapshot of an identified process.
    pub fn attributed(
        pid: u32,
        name: Option<String>,
        path: Option<String>,
        last_seen: i64,
        recv: u64,
        sent: u64,
    ) -> (r: ProcessSnapshot)
        ensures
            r@ == (ProcessSnapshotView {
                identity: Some((pid, opt_seq(name), opt_seq(path))),
                recv,
                sent,
                last_seen,
            }),
    {
        ProcessSnapshot {
            identity: ProcessIdentity::Attributed { pid, name, path },
            recv,
            sent,
            last_seen,
        }
    }

    /// The snapshot of the traffic that no single process could be found for.
    pub fn unattributed(recv: u64, sent: u64, last_seen: i64) -> (r: ProcessSnapshot)
        ensures
            r@ == (ProcessSnapshotView { identity: None, recv, sent, last_seen }),
    {
        ProcessSnapshot { identity: ProcessIdentity::Unattributed, recv, sent, last_seen }
    }

    /// The process id, `None` for unattributed traffic.
    pub fn pid(&self) -> (r: Option<u32>)
        ensures
            r == match self@.identity {
                Some((pid, _, _)) => Some(pid),
                None => None::<u32>,
            },
    {
        match &self.identity {
            ProcessIdentity::Attributed { pid, .. } => Some(*pid),
            ProcessIdentity::Unattributed => None,
        }
    }

    /// The process display name, when known.
    pub fn name(&self) -> (r: Option<&str>)
        ensures
            match self@.identity {
                Some((_, Some(n), _)) => r matches Some(x) && x@ == n,
                _ => r is None,
            },
    {
        match &self.identity {
            ProcessIdentity::Attributed { name: Some(n), .. } => Some(n.as_str()),
            _ => None,
        }
    }

    /// The executable path, when known.
    pub fn path(&self) -> (r: Option<&str>)
        ensures
            match self@.identity {
                Some((_, _, Some(p))) => r matches Some(x) && x@ == p,
                _ => r is None,
            },
    {
        match &self.identity {
            ProcessIdentity::Attributed { path: Some(p), .. } => Some(p.as_str()),
            _ => None,
        }
    }

    /// Bytes received by this bucket.
    pub fn received(&self) -> (r: u64)
        ensures
            r == self@.recv,
    {
        self.recv
    }

    /// Bytes sent by this bucket.
    pub fn sent_bytes(&self) -> (r: u64)
        ensures
            r == self@.sent,
    {
        self.sent
    }

    /// Time of the last traffic recorded for this bucket.
    pub fn last_seen(&self) -> (r: i64)
        ensures
            r == self@.last_seen,
    {
        self.last_seen
    }

    pub fn is_unattributed(&self) -> (r: bool)
        ensures
            r == (self@.identity is None),
    {
        match &self.identity {
            ProcessIdentity::Attributed { .. } => false,
            ProcessIdentity::Unattributed => true,
        }
    }

    /// The label shown for this bucket: the process name, "?" for a process
    /// without a name, a fixed label for unattributed traffic.
    pub fn display_name(&self) -> (r: &str)
        ensures
            r@ == match self@.identity {
                Some((_, Some(n), _)) => n,
                Some((_, None, _)) => "?"@,
                None => unattributed_label(),
            },
    {
        match &self.identity {
            ProcessIdentity::Attributed { name: Some(n), .. } => n.as_str(),
            ProcessIdentity::Attributed { name: None, .. } => "?",
            ProcessIdentity::Unattributed => "<unattributed traffic>",
        }
    }

    /// Received plus sent bytes, saturating.
    pub fn total(&self) -> (r: u64)
        ensures
            r == saturating_total(self@.recv, self@.sent),
    {
        self.recv.saturating_add(self.sent)
    }

    /// Whether both snapshots describe the same statistical identity: both
    /// unattributed, or the same pid and executable path.
    pub fn same_identity_as(&self, other: &ProcessSnapshot) -> (r: bool)
        ensures
            r == match (self@.identity, other@.identity) {
                (None, None) => true,
                (Some((p1, _, path1)), Some((p2, _, path2))) => p1 == p2 && path1 == path2,
                _ => false,
            },
    {
        match (&self.identity, &other.identity) {
            (ProcessIdentity::Unattributed, ProcessIdentity::Unattributed) => true,
            (
                ProcessIdentity::Attributed { pid: left_pid, path: left_path, .. },
                ProcessIdentity::Attributed { pid: right_pid, path: right_path, .. },
            ) => *left_pid == *right_pid && same_opt_string(left_path, right_path),
            _ => false,
        }
    }
}

/// An immutable copy of the statistics for display.
#[derive(Debug)]
pub struct TrafficSnapshot {
    pub in_bytes: u64,
    pub out_bytes: u64,
    pub process_data_fresh: bool,
    pub processes: Vec<ProcessSnapshot>,
    pub inbound_ips: Vec<IpSnapshot>,
    pub outbound_ips: Vec<IpSnapshot>,
}

impl TrafficSnapshot {
    pub open spec fn processes_view(&self) -> Seq<ProcessSnapshotView> {
        self.processes@.map_values(|p: ProcessSnapshot| p@)
    }

    /// The snapshot of no traffic at all.
    pub fn empty() -> (r: TrafficSnapshot)
        ensures
            r.in_bytes == 0,
            r.out_bytes == 0,
            !r.process_data_fresh,
            r.processes@.len() == 0,
            r.inbound_ips@.len() == 0,
            r.outbound_ips@.len() == 0,
    {
        TrafficSnapshot {
            in_bytes: 0,
            out_bytes: 0,
            process_data_fresh: false,
            processes: Vec::new(),
            inbound_ips: Vec::new(),
            outbound_ips: Vec::new(),
        }
    }
}

impl Default for TrafficSnapshot {
    /// The snapshot of no traffic at all.
    fn default() -> (r: TrafficSnapshot)
        ensures
            r.in_bytes == 0,
            r.out_bytes == 0,
            !r.process_data_fresh,
            r.processes@.len() == 0,
            r.inbound_ips@.len() == 0,
            r.outbound_ips@.len() == 0,
    {
        TrafficSnapshot::empty()
    }
}

pub open spec fn record_snapshot(r: ProcRecord) -> ProcessSnapshotView {
    ProcessSnapshotView {
        identity: Some((r.pid, r.name, r.path)),
        recv: r.recv,
        sent: r.sent,
        last_seen: r.last_seen,
    }
}

pub open spec fn has_unattributed(m: StatsModel) -> bool {
    m.unattributed.recv > 0 || m.unattributed.sent > 0
}

/// Every bucket that may appear in a snapshot: the processes, then the
/// unattributed bucket when it holds traffic.
pub open spec fn candidates(m: StatsModel) -> Seq<ProcessSnapshotView> {
    let procs = m.procs.map_values(|r: ProcRecord| record_snapshot(r));
    if has_unattributed(m) {
        procs.push(
            ProcessSnapshotView {
                identity: None,
                recv: m.unattributed.recv,
                sent: m.unattributed.sent,
                last_seen: m.unattributed_last_seen.unwrap(),
            },
        )
    } else {
        procs
    }
}

pub open spec fn candidate_weights(m: StatsModel) -> Seq<u64> {
    candidates(m).map_values(|c: ProcessSnapshotView| saturating_total(c.recv, c.sent))
}

pub open spec fn ip_weights(s: Seq<(IpAddress, u64)>) -> Seq<u64> {
    s.map_values(|e: (IpAddress, u64)| e.1)
}

/// `r` lists the entries of `s` at the positions `chosen`.
pub open spec fn ip_rows(s: Seq<(IpAddress, u64)>, chosen: Seq<usize>) -> Seq<IpSnapshot> {
    chosen.map_values(|i: usize| IpSnapshot { ip: s[i as int].0, bytes: s[i as int].1 })
}

/// `r` is a top-`n` ranking of the peers of `s` by bytes.
pub open spec fn is_top_ips(r: Seq<IpSnapshot>, s: Seq<(IpAddress, u64)>, n: nat) -> bool {
    exists|chosen: Seq<usize>| is_top_selection(ip_weights(s), n, chosen) && r == ip_rows(s, chosen)
}

/// `r` is a top-`n` ranking of the process buckets of `m` by total bytes.
pub open spec fn is_top_processes(r: Seq<ProcessSnapshotView>, m: StatsModel, n: nat) -> bool {
    exists|chosen: Seq<usize>|
        is_top_selection(candidate_weights(m), n, chosen) && r == chosen.map_values(
            |i: usize| candidates(m)[i as int],
        )
}

fn top_ips(v: &Vec<(IpAddress, u64)>, n: usize) -> (r: Vec<IpSnapshot>)
    ensures
        is_top_ips(r@, v@, n as nat),
{
    let mut weights: Vec<u64> = Vec::new();
    let mut i: usize = 0;
    while i < v.len()
        invariant
            i <= v@.len(),
            weights@ == ip_weights(v@).subrange(0, i as int),
        decreases v@.len() - i,
    {
        weights.push(v[i].1);
        i += 1;
        assert(weights@ =~= ip_weights(v@).subrange(0, i as int));
    }
    assert(weights@ =~= ip_weights(v@));
    let chosen = top_positions(&weights, n);
    let mut rows: Vec<IpSnapshot> = Vec::new();
    let mut k: usize = 0;
    while k < chosen.len()
        invariant
            k <= chosen@.len(),
            weights@ == ip_weights(v@),
            forall|q: int| 0 <= q < chosen@.len() ==> #[trigger] chosen@[q] < weights@.len(),
            rows@ == ip_rows(v@, chosen@.subrange(0, k as int)),
        decreases chosen@.len() - k,
    {
        let i = chosen[k];
        rows.push(IpSnapshot { ip: v[i].0, bytes: v[i].1 });
        k += 1;
        assert(rows@ =~= ip_rows(v@, chosen@.subrange(0, k as int)));
    }
    assert(chosen@.subrange(0, chosen@.len() as int) =~= chosen@);
    rows
}

impl StatsData {
    /// A snapshot of the totals and of the `top_n` heaviest process buckets,
    /// inbound peers and outbound peers, heaviest first. The unattributed
    /// bucket competes with the processes when it holds traffic.
    fn snapshot(&self, top_n: usize) -> (r: TrafficSnapshot)
        requires
            self@.wf(),
        ensures
            r.in_bytes == self@.in_bytes,
            r.out_bytes == self@.out_bytes,
            !r.process_data_fresh,
            is_top_processes(r.processes_view(), self@, top_n as nat),
            is_top_ips(r.inbound_ips@, self@.in_by_ip, top_n as nat),
            is_top_ips(r.outbound_ips@, self@.out_by_ip, top_n as nat),
    {
        let ghost m = self@;
        let ghost cands = candidates(m);
        proof {
            self.lemma_procs_view();
        }
        let mut weights: Vec<u64> = Vec::new();
        let mut i: usize = 0;
        while i < self.procs.len()
            invariant
                i <= self.procs@.len(),
                m == self@,
                cands == candidates(m),
                m.procs.len() == self.procs@.len(),
                forall|q: int| 0 <= q < self.procs@.len() ==> #[trigger] m.procs[q] == self.procs@[q].record(),
                weights@ == candidate_weights(m).subrange(0, i as int),
            decreases self.procs@.len() - i,
        {
            let t = self.procs[i].traffic;
            weights.push(t.recv.saturating_add(t.sent));
            i += 1;
            assert(weights@ =~= candidate_weights(m).subrange(0, i as int));
        }
        let with_unattributed = self.unattributed.recv > 0 || self.unattributed.sent > 0;
        if with_unattributed {
            weights.push(self.unattributed.recv.saturating_add(self.unattributed.sent));
        }
        assert(weights@ =~= candidate_weights(m));
        let chosen = top_positions(&weights, top_n);
        let mut processes: Vec<ProcessSnapshot> = Vec::new();
        let mut k: usize = 0;
        while k < chosen.len()
            invariant
                k <= chosen@.len(),
                m == self@,
                m.wf(),
                cands == candidates(m),
                with_unattributed == has_unattributed(m),
                m.procs.len() == self.procs@.len(),
                forall|q: int| 0 <= q < self.procs@.len() ==> #[trigger] m.procs[q] == self.procs@[q].record(),
                weights@ == candidate_weights(m),
                forall|q: int| 0 <= q < chosen@.len() ==> #[trigger] chosen@[q] < weights@.len(),
                processes@.map_values(|p: ProcessSnapshot| p@) == chosen@.subrange(
                    0,
                    k as int,
                ).map_values(|i: usize| cands[i as int]),
            decreases chosen@.len() - k,
        {
            let i = chosen[k];
            let row = if i < self.procs.len() {
                let e = &self.procs[i];
                ProcessSnapshot::attributed(
                    e.pid,
                    clone_opt_string(&e.name),
                    clone_opt_string(&e.path),
                    e.last_seen,
                    e.traffic.recv,
                    e.traffic.sent,
                )
            } else {
                let seen = match self.unattributed_last_seen {
                    Some(t) => t,
                    None => 0,
                };
                ProcessSnapshot::unattributed(self.unattributed.recv, self.unattributed.sent, seen)
            };
            let ghost before = processes@;
            processes.push(row);
            k += 1;
            proof {
                assert(row@ == cands[i as int]);
                assert(processes@ == before.push(row));
                assert(processes@.map_values(|p: ProcessSnapshot| p@) =~= before.map_values(
                    |p: ProcessSnapshot| p@,
                ).push(row@));
                assert(chosen@.subrange(0, k as int) =~= chosen@.subrange(0, k - 1).push(i));
                assert(chosen@.subrange(0, k as int).map_values(|i: usize| cands[i as int])
                    =~= chosen@.subrange(0, k - 1).map_values(|i: usize| cands[i as int]).push(
                    cands[i as int],
                ));
            }
        }
        assert(chosen@.subrange(0, chosen@.len() as int) =~= chosen@);
        let inbound_ips = top_ips(&self.in_by_ip, top_n);
        let outbound_ips = top_ips(&self.out_by_ip, top_n);
        let r = TrafficSnapshot {
            in_bytes: self.in_bytes,
            out_bytes: self.out_bytes,
            process_data_fresh: false,
            processes,
            inbound_ips,
            outbound_ips,
        };
        assert(is_top_selection(candidate_weights(m), top_n as nat, chosen@));
        r
    }
}

// ---------------------------------------------------------------------------
// Laws

/// The bucket of identity `k` (pid and executable path), if any.
pub open spec fn bucket(m: StatsModel, k: (u32, Option<Seq<char>>)) -> Option<ProcRecord> {
    let i = pos_of(m.procs, proc_key(), k);
    if i < 0 {
        None
    } else {
        Some(m.procs[i])
    }
}

proof fn lemma_add_proc_sums(
    procs: Seq<ProcRecord>,
    p: ProcessView,
    direction: Direction,
    bytes: u64,
    t: i64,
)
    requires
        forall|i: int|
            #![trigger procs[i]]
            0 <= i < procs.len() && proc_key()(procs[i]) == (p.pid, p.path) ==> traffic_room(
                record_traffic(procs[i]),
                direction,
                bytes,
            ),
    ensures
        sum_of(spec_add_proc(procs, p, direction, bytes, t), proc_recv()) == sum_of(
            procs,
            proc_recv(),
        ) + if direction == Direction::Inbound {
            bytes as int
        } else {
            0
        },
        sum_of(spec_add_proc(procs, p, direction, bytes, t), proc_sent()) == sum_of(
            procs,
            proc_sent(),
        ) + if direction == Direction::Outbound {
            bytes as int
        } else {
            0
        },
{
    let k = (p.pid, p.path);
    lemma_pos_of(procs, proc_key(), k);
    let i = pos_of(procs, proc_key(), k);
    let new_procs = spec_add_proc(procs, p, direction, bytes, t);
    if i < 0 {
        let rec = new_procs.last();
        assert(new_procs == procs.push(rec));
        lemma_sum_push(procs, rec, proc_recv());
        lemma_sum_push(procs, rec, proc_sent());
    } else {
        let rec = new_procs[i];
        assert(new_procs == procs.update(i, rec));
        lemma_sum_update(procs, i, rec, proc_recv());
        lemma_sum_update(procs, i, rec, proc_sent());
    }
}

/// `n` holds at least the traffic of `m` in every bucket: each process
/// bucket of `m` is still there with no less received and sent traffic, and
/// the unattributed bucket has not shrunk.
pub open spec fn grown_from(m: StatsModel, n: StatsModel) -> bool {
    &&& n.unattributed.recv >= m.unattributed.recv
    &&& n.unattributed.sent >= m.unattributed.sent
    &&& forall|k: (u32, Option<Seq<char>>)|
        #[trigger] bucket(m, k) is Some ==> (bucket(n, k) matches Some(c) && c.recv >= bucket(
            m,
            k,
        )->0.recv && c.sent >= bucket(m, k)->0.sent)
}

pub proof fn lemma_grown_refl(m: StatsModel)
    ensures
        grown_from(m, m),
{
}

pub proof fn lemma_grown_trans(m: StatsModel, n: StatsModel, o: StatsModel)
    requires
        grown_from(m, n),
        grown_from(n, o),
    ensures
        grown_from(m, o),
{
    assert forall|k: (u32, Option<Seq<char>>)| #[trigger] bucket(m, k) is Some implies (bucket(
        o,
        k,
    ) matches Some(c) && c.recv >= bucket(m, k)->0.recv && c.sent >= bucket(m, k)->0.sent) by {
        assert(bucket(n, k) is Some);
    }
}

/// Recording process traffic only adds to the buckets.
pub proof fn lemma_record_process_grows(
    m: StatsModel,
    process: Option<ProcessView>,
    direction: Direction,
    bytes: u64,
    t: i64,
)
    requires
        m.wf(),
        process_room(m, process, direction, bytes),
    ensures
        grown_from(m, spec_record_process(m, process, direction, bytes, t)),
{
    let n = spec_record_process(m, process, direction, bytes, t);
    match process {
        Some(p) => {
            assert forall|k: (u32, Option<Seq<char>>)| #[trigger] bucket(m, k) is Some implies (bucket(
                n,
                k,
            ) matches Some(c) && c.recv >= bucket(m, k)->0.recv && c.sent >= bucket(m, k)->0.sent) by {
                recording_touches_only_its_bucket(m, p, direction, bytes, t, k);
            }
        },
        None => {
            assert(n.procs == m.procs);
        },
    }
}

/// Counting a flow on the interface leaves the buckets alone.
pub proof fn lemma_record_interface_grows(m: StatsModel, flow: Flow)
    requires
        m.wf(),
        interface_room(m, flow),
    ensures
        grown_from(m, spec_record_interface(m, flow)),
{
    lemma_record_interface(m, flow);
}

/// Law: every recorded flow is accounted once on the interface and once in
/// the process buckets, so the buckets (processes and unattributed traffic)
/// keep partitioning the interface traffic: the difference between bucket
/// totals and interface totals never changes.
pub proof fn record_flow_keeps_partition(
    m: StatsModel,
    flow: Flow,
    process: Option<ProcessView>,
    peer_process: Option<ProcessView>,
    t: i64,
)
    requires
        m.wf(),
        flow_room(m, flow, process, peer_process),
    ensures
        ({
            let n = spec_record_flow(m, flow, process, peer_process, t);
            &&& n.recv_total() - n.in_bytes == m.recv_total() - m.in_bytes
            &&& n.sent_total() - n.out_bytes == m.sent_total() - m.out_bytes
        }),
{
    let m1 = spec_record_interface(m, flow);
    if flow.peer_local_socket is Some {
        lemma_process_room_time_independent(
            m1,
            process,
            Direction::Outbound,
            flow.bytes,
            0,
            t,
            peer_process,
            Direction::Inbound,
        );
        let m2 = spec_record_process(m1, process, Direction::Outbound, flow.bytes, t);
        lemma_record_process_totals(m1, process, Direction::Outbound, flow.bytes, t);
        lemma_record_process_totals(m2, peer_process, Direction::Inbound, flow.bytes, t);
    } else {
        lemma_record_process_totals(m1, process, flow.direction, flow.bytes, t);
    }
}

/// Recording process traffic keeps the statistics well formed, adds the bytes
/// to the bucket totals of its direction and leaves the interface totals alone.
pub proof fn lemma_record_process_totals(
    m: StatsModel,
    process: Option<ProcessView>,
    direction: Direction,
    bytes: u64,
    t: i64,
)
    requires
        process_room(m, process, direction, bytes),
        keys_unique(m.procs, proc_key()),
    ensures
        ({
            let n = spec_record_process(m, process, direction, bytes, t);
            &&& keys_unique(n.procs, proc_key())
            &&& m.wf() ==> n.wf()
            &&& n.recv_total() == m.recv_total() + if direction == Direction::Inbound {
                bytes as int
            } else {
                0
            }
            &&& n.sent_total() == m.sent_total() + if direction == Direction::Outbound {
                bytes as int
            } else {
                0
            }
            &&& n.in_bytes == m.in_bytes
            &&& n.out_bytes == m.out_bytes
        }),
{
    match process {
        Some(p) => {
            let k = (p.pid, p.path);
            lemma_pos_of(m.procs, proc_key(), k);
            assert forall|i: int|
                #![trigger m.procs[i]]
                0 <= i < m.procs.len() && proc_key()(m.procs[i]) == (p.pid, p.path)
                    implies traffic_room(record_traffic(m.procs[i]), direction, bytes) by {
                lemma_pos_of_unique(m.procs, proc_key(), k, i);
            }
            lemma_add_proc_sums(m.procs, p, direction, bytes, t);
            let n = spec_record_process(m, process, direction, bytes, t);
            let i = pos_of(m.procs, proc_key(), k);
            if i < 0 {
                assert(n.procs == m.procs.push(n.procs.last()));
                lemma_unique_push(m.procs, proc_key(), n.procs.last());
            } else {
                assert(n.procs == m.procs.update(i, n.procs[i]));
                lemma_unique_update(m.procs, proc_key(), i, n.procs[i]);
            }
        },
        None => {},
    }
}

/// Law: statistics start empty, so with the law above the process buckets
/// always add up to exactly the interface traffic.
/// Interface accounting keeps the statistics well formed, leaves the buckets
/// alone and adds the flow's bytes to the interface totals.
pub proof fn lemma_record_interface(m: StatsModel, flow: Flow)
    requires
        m.wf(),
        interface_room(m, flow),
    ensures
        ({
            let n = spec_record_interface(m, flow);
            &&& n.wf()
            &&& n.procs == m.procs
            &&& n.unattributed == m.unattributed
            &&& n.unattributed_last_seen == m.unattributed_last_seen
            &&& n.in_bytes == m.in_bytes + if flow.peer_local_socket is Some
                || flow.direction == Direction::Inbound {
                flow.bytes as int
            } else {
                0
            }
            &&& n.out_bytes == m.out_bytes + if flow.peer_local_socket is Some
                || flow.direction == Direction::Outbound {
                flow.bytes as int
            } else {
                0
            }
        }),
{
    let in_ip = match flow.local_socket {
        Some(s) => s.ip,
        None => flow.peer,
    };
    if flow.peer_local_socket is Some {
        lemma_add_ip(m.out_by_ip, flow.peer, flow.bytes);
        lemma_add_ip(m.in_by_ip, in_ip, flow.bytes);
    } else if flow.direction == Direction::Inbound {
        lemma_add_ip(m.in_by_ip, flow.peer, flow.bytes);
    } else {
        lemma_add_ip(m.out_by_ip, flow.peer, flow.bytes);
    }
}

proof fn lemma_add_ip(s: Seq<(IpAddress, u64)>, ip: IpAddress, bytes: u64)
    requires
        keys_unique(s, ip_key()),
        sum_of(s, ip_bytes()) + bytes <= u64::MAX,
    ensures
        keys_unique(add_ip(s, ip, bytes), ip_key()),
        sum_of(add_ip(s, ip, bytes), ip_bytes()) == sum_of(s, ip_bytes()) + bytes,
{
    lemma_pos_of(s, ip_key(), ip);
    let p = pos_of(s, ip_key(), ip);
    if p < 0 {
        lemma_sum_push(s, (ip, bytes), ip_bytes());
        lemma_unique_push(s, ip_key(), (ip, bytes));
    } else {
        lemma_sum_nonneg_ge(s, p, ip_bytes());
        lemma_sum_update(s, p, (ip, (s[p].1 + bytes) as u64), ip_bytes());
        lemma_unique_update(s, ip_key(), p, (ip, (s[p].1 + bytes) as u64));
    }
}

/// The bytes counted for `ip` in a per-peer list (zero when it has no entry).
pub open spec fn peer_bytes(s: Seq<(IpAddress, u64)>, ip: IpAddress) -> int {
    let p = pos_of(s, ip_key(), ip);
    if p < 0 {
        0
    } else {
        s[p].1 as int
    }
}

proof fn lemma_add_ip_peer(s: Seq<(IpAddress, u64)>, ip: IpAddress, bytes: u64, other: IpAddress)
    requires
        keys_unique(s, ip_key()),
        sum_of(s, ip_bytes()) + bytes <= u64::MAX,
    ensures
        peer_bytes(add_ip(s, ip, bytes), other) == peer_bytes(s, other) + if other == ip {
            bytes as int
        } else {
            0
        },
{
    lemma_add_ip(s, ip, bytes);
    let n = add_ip(s, ip, bytes);
    lemma_pos_of(s, ip_key(), ip);
    lemma_pos_of(s, ip_key(), other);
    lemma_pos_of(n, ip_key(), other);
    let p = pos_of(s, ip_key(), ip);
    let q = pos_of(s, ip_key(), other);
    if p < 0 {
        assert(n == s.push((ip, bytes)));
        if other == ip {
            lemma_pos_of_unique(n, ip_key(), other, s.len() as int);
        } else {
            assert(n.drop_last() =~= s);
        }
    } else {
        lemma_sum_nonneg_ge(s, p, ip_bytes());
        if other == ip {
            lemma_pos_of_unique(n, ip_key(), other, p);
        } else if q >= 0 {
            lemma_pos_of_unique(n, ip_key(), other, q);
        } else {
            assert forall|i: int| 0 <= i < n.len() implies ip_key()(#[trigger] n[i]) != other by {
                if i != p {
                    assert(n[i] == s[i]);
                }
            }
            lemma_pos_of_absent(n, ip_key(), other);
        }
    }
}

/// Law: counting a flow on the interface adds its bytes to the totals and to
/// the per-peer entries of its direction, and touches nothing else. A flow
/// between two local sockets is sent to its peer and received by its local
/// socket's address; any other flow counts once, in its direction, under its
/// peer. The process and unattributed buckets are left alone.
pub proof fn interface_accounting_adds_to_the_peer(m: StatsModel, flow: Flow, ip: IpAddress)
    requires
        m.wf(),
        interface_room(m, flow),
    ensures
        ({
            let n = spec_record_interface(m, flow);
            let both = flow.peer_local_socket is Some;
            let in_ip = match flow.local_socket {
                Some(s) => if both {
                    s.ip
                } else {
                    flow.peer
                },
                None => flow.peer,
            };
            let counts_in = both || flow.direction == Direction::Inbound;
            let counts_out = both || flow.direction == Direction::Outbound;
            &&& n.wf()
            &&& n.procs == m.procs
            &&& n.unattributed == m.unattributed
            &&& n.unattributed_last_seen == m.unattributed_last_seen
            &&& n.in_bytes == m.in_bytes + if counts_in {
                flow.bytes as int
            } else {
                0
            }
            &&& n.out_bytes == m.out_bytes + if counts_out {
                flow.bytes as int
            } else {
                0
            }
            &&& peer_bytes(n.in_by_ip, ip) == peer_bytes(m.in_by_ip, ip) + if counts_in && ip
                == in_ip {
                flow.bytes as int
            } else {
                0
            }
            &&& peer_bytes(n.out_by_ip, ip) == peer_bytes(m.out_by_ip, ip) + if counts_out && ip
                == flow.peer {
                flow.bytes as int
            } else {
                0
            }
        }),
{
    lemma_record_interface(m, flow);
    let in_ip = match flow.local_socket {
        Some(s) => s.ip,
        None => flow.peer,
    };
    if flow.peer_local_socket is Some {
        lemma_add_ip_peer(m.in_by_ip, in_ip, flow.bytes, ip);
        lemma_add_ip_peer(m.out_by_ip, flow.peer, flow.bytes, ip);
    } else {
        match flow.direction {
            Direction::Inbound => lemma_add_ip_peer(m.in_by_ip, flow.peer, flow.bytes, ip),
            Direction::Outbound => lemma_add_ip_peer(m.out_by_ip, flow.peer, flow.bytes, ip),
        }
    }
}

/// Bucket totals that leave room for `bytes` leave room in every bucket.
pub proof fn lemma_room_from_totals(
    m: StatsModel,
    process: Option<ProcessView>,
    direction: Direction,
    bytes: u64,
)
    requires
        direction == Direction::Inbound ==> m.recv_total() + bytes <= u64::MAX,
        direction == Direction::Outbound ==> m.sent_total() + bytes <= u64::MAX,
    ensures
        process_room(m, process, direction, bytes),
{
    lemma_sum_nonneg(m.procs, proc_recv());
    lemma_sum_nonneg(m.procs, proc_sent());
    match process {
        Some(p) => {
            let k = (p.pid, p.path);
            lemma_pos_of(m.procs, proc_key(), k);
            let i = pos_of(m.procs, proc_key(), k);
            if i >= 0 {
                lemma_sum_nonneg_ge(m.procs, i, proc_recv());
                lemma_sum_nonneg_ge(m.procs, i, proc_sent());
            }
        },
        None => {},
    }
}

pub proof fn empty_stats_are_partitioned()
    ensures
        StatsModel::empty().wf(),
        StatsModel::empty().recv_total() == StatsModel::empty().in_bytes,
        StatsModel::empty().sent_total() == StatsModel::empty().out_bytes,
{
}

/// Law: recording traffic for one process never touches the bucket of any
/// other statistical identity (another pid, or the same pid with another
/// executable path) nor the unattributed bucket; its own bucket only grows,
/// and its last-seen time becomes the observation time.
pub proof fn recording_touches_only_its_bucket(
    m: StatsModel,
    p: ProcessView,
    direction: Direction,
    bytes: u64,
    t: i64,
    k: (u32, Option<Seq<char>>),
)
    requires
        m.wf(),
        process_room(m, Some(p), direction, bytes),
    ensures
        ({
            let n = spec_record_process(m, Some(p), direction, bytes, t);
            &&& n.unattributed == m.unattributed
            &&& n.unattributed_last_seen == m.unattributed_last_seen
            &&& k != (p.pid, p.path) ==> bucket(n, k) == bucket(m, k)
            &&& bucket(n, (p.pid, p.path)) matches Some(b) && b.last_seen == t && b.recv >= (
                match bucket(m, (p.pid, p.path)) {
                    Some(o) => o.recv,
                    None => 0,
                }
            ) && b.sent >= (
                match bucket(m, (p.pid, p.path)) {
                    Some(o) => o.sent,
                    None => 0,
                }
            )
        }),
{
    let key = (p.pid, p.path);
    let n = spec_record_process(m, Some(p), direction, bytes, t);
    lemma_pos_of(m.procs, proc_key(), key);
    lemma_pos_of(m.procs, proc_key(), k);
    let i = pos_of(m.procs, proc_key(), key);
    if i < 0 {
        assert(n.procs == m.procs.push(n.procs.last()));
        if k != key {
            lemma_pos_of_push_other(m.procs, n.procs.last(), k);
        }
        lemma_unique_push(m.procs, proc_key(), n.procs.last());
        lemma_pos_of_unique(n.procs, proc_key(), key, m.procs.len() as int);
    } else {
        assert(n.procs == m.procs.update(i, n.procs[i]));
        lemma_unique_update(m.procs, proc_key(), i, n.procs[i]);
        lemma_pos_of_unique(n.procs, proc_key(), key, i);
        lemma_pos_of(n.procs, proc_key(), k);
        let j = pos_of(m.procs, proc_key(), k);
        if k != key {
            if j >= 0 {
                lemma_pos_of_unique(n.procs, proc_key(), k, j);
            } else {
                assert forall|q: int| 0 <= q < n.procs.len() implies proc_key()(
                    #[trigger] n.procs[q],
                ) != k by {
                    if q != i {
                        assert(n.procs[q] == m.procs[q]);
                    }
                }
                lemma_pos_of_absent(n.procs, proc_key(), k);
            }
        }
    }
}

proof fn lemma_pos_of_absent<T, K>(s: Seq<T>, key: spec_fn(T) -> K, k: K)
    requires
        forall|q: int| 0 <= q < s.len() ==> key(#[trigger] s[q]) != k,
    ensures
        pos_of(s, key, k) == -1,
    decreases s.len(),
{
    if s.len() > 0 {
        assert(key(s[s.len() - 1]) != k);
        assert forall|q: int| 0 <= q < s.drop_last().len() implies key(
            #[trigger] s.drop_last()[q],
        ) != k by {
            assert(s.drop_last()[q] == s[q]);
        }
        lemma_pos_of_absent(s.drop_last(), key, k);
    }
}

proof fn lemma_pos_of_push_other(s: Seq<ProcRecord>, v: ProcRecord, k: (u32, Option<Seq<char>>))
    requires
        proc_key()(v) != k,
    ensures
        pos_of(s.push(v), proc_key(), k) == pos_of(s, proc_key(), k),
{
    assert(s.push(v).drop_last() =~= s);
}

} // verus!
