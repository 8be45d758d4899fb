//! Delayed process attribution: traffic whose local socket has no known
//! owner waits a short while for a newer process table, and is committed to
//! the unattributed bucket when it times out, is ambiguous, or overflows.

use vstd::prelude::*;

use crate::capture::Flow;
use crate::net::{Direction, IpAddress, LocalSocket};
use crate::proc_table::{spec_lookup, LookupOutcome, LookupView, ProcTable, ProcTableView};
use crate::seqs::{
    keys_unique, lemma_pos_of, lemma_pos_of_unique, lemma_sum_drop_first, lemma_sum_nonneg,
    lemma_sum_nonneg_ge, lemma_sum_push, lemma_sum_update, lemma_unique_push,
    lemma_unique_update, pos_of, sum_of,
};
use crate::stats::{
    grown_from, interface_room, process_room, lemma_grown_refl, lemma_grown_trans,
    lemma_record_interface_grows, lemma_record_process_grows, lemma_record_process_totals,
    lemma_room_from_totals, opt_process, add_traffic,
    spec_record_interface, spec_record_process, ObservedProcess, ProcessView, Stats, StatsModel,
};

verus! {

/// How long unattributed traffic waits for a newer process table (1 s).
pub const PENDING_ATTRIBUTION_WINDOW_NANOS: u64 = 1_000_000_000;

/// How many connections may wait at once.
pub const PENDING_ATTRIBUTION_CAPACITY: usize = 1_024;

/// One direction of one connection of this host.
#[derive(Clone, Copy, Debug, PartialEq, Eq, Structural)]
pub struct ConnectionKey {
    pub local_socket: LocalSocket,
    pub peer_ip: IpAddress,
    pub peer_port: u16,
    pub direction: Direction,
}

/// Traffic of one connection that waits for its process.
#[derive(Clone, Copy, Debug, PartialEq, Eq, Structural)]
pub struct PendingAttribution {
    pub connection: ConnectionKey,
    pub bytes: u64,
    /// When the latest of its traffic was observed (microseconds since the epoch).
    pub observed_at: i64,
    /// Monotonic time (nanoseconds) at which it started waiting.
    pub pending_since: u64,
}

/// Count and volume of the waiting traffic.
#[derive(Clone, Copy, Debug, PartialEq, Eq, Structural)]
pub struct PendingAttributionSnapshot {
    pub records: usize,
    pub bytes: u64,
}

/// The queue of connections waiting for a newer process table, oldest first.
#[derive(Debug)]
pub struct PendingAttributor {
    pending: Vec<PendingAttribution>,
    window: u64,
    capacity: usize,
    last_generation: Option<u64>,
}

pub ghost struct AttributorView {
    pub pending: Seq<PendingAttribution>,
    pub window: u64,
    pub capacity: usize,
    /// Generation of the last process table the waiting traffic was checked against.
    pub last_generation: Option<u64>,
}

impl View for PendingAttributor {
    type V = AttributorView;

    closed spec fn view(&self) -> AttributorView {
        AttributorView {
            pending: self.pending@,
            window: self.window,
            capacity: self.capacity,
            last_generation: self.last_generation,
        }
    }
}

pub open spec fn conn_key() -> spec_fn(PendingAttribution) -> ConnectionKey {
    |p: PendingAttribution| p.connection
}

pub open spec fn bytes_in(direction: Direction) -> spec_fn(PendingAttribution) -> int {
    |p: PendingAttribution|
        if p.connection.direction == direction {
            p.bytes as int
        } else {
            0
        }
}

/// Bytes of the waiting traffic in one direction.
pub open spec fn pending_total(pending: Seq<PendingAttribution>, direction: Direction) -> int {
    sum_of(pending, bytes_in(direction))
}

pub open spec fn all_bytes() -> spec_fn(PendingAttribution) -> int {
    |p: PendingAttribution| p.bytes as int
}

/// The process a table attributes a socket to, if exactly one.
pub open spec fn found_process(table: Option<ProcTableView>, socket: LocalSocket) -> Option<
    ProcessView,
> {
    match table {
        None => None,
        Some(t) => match spec_lookup(t, socket) {
            LookupView::Hit(p, _) => Some(p),
            LookupView::Miss(_) => None,
        },
    }
}

/// Commits waiting traffic to `process`, or to the unattributed bucket.
pub open spec fn settle(
    s: StatsModel,
    p: PendingAttribution,
    process: Option<ProcessView>,
) -> StatsModel {
    spec_record_process(s, process, p.connection.direction, p.bytes, p.observed_at)
}

/// Time elapsed from `since` to `now`, zero when `now` is earlier.
pub open spec fn waited(now: u64, since: u64) -> int {
    if now >= since {
        now - since
    } else {
        0
    }
}

/// Commits, oldest first, every waiting record that has waited `window` or
/// longer at `now` to the unattributed bucket.
pub open spec fn spec_finalize_expired(
    pending: Seq<PendingAttribution>,
    window: u64,
    s: StatsModel,
    now: u64,
) -> (Seq<PendingAttribution>, StatsModel)
    decreases pending.len(),
{
    if pending.len() > 0 && waited(now, pending[0].pending_since) >= window {
        spec_finalize_expired(pending.drop_first(), window, settle(s, pending[0], None), now)
    } else {
        (pending, s)
    }
}

/// Commits every record of `pending`, oldest first, to the process that
/// `table` finds for its socket, or to the unattributed bucket.
pub open spec fn spec_settle_all(
    s: StatsModel,
    pending: Seq<PendingAttribution>,
    table: Option<ProcTableView>,
) -> StatsModel
    decreases pending.len(),
{
    if pending.len() == 0 {
        s
    } else {
        spec_settle_all(
            settle(s, pending[0], found_process(table, pending[0].connection.local_socket)),
            pending.drop_first(),
            table,
        )
    }
}

/// Expires old waiting traffic; then, when `table` is a generation the
/// waiting traffic was not yet checked against, commits all of it by that table.
pub open spec fn spec_advance(
    a: AttributorView,
    s: StatsModel,
    table: Option<ProcTableView>,
    now: u64,
) -> (AttributorView, StatsModel) {
    let (rest, s1) = spec_finalize_expired(a.pending, a.window, s, now);
    let a1 = AttributorView { pending: rest, ..a };
    let generation = match table {
        Some(t) => Some(t.generation),
        None => None::<u64>,
    };
    if generation is None || generation == a.last_generation {
        (a1, s1)
    } else {
        (
            AttributorView { pending: Seq::empty(), last_generation: generation, ..a1 },
            spec_settle_all(s1, rest, table),
        )
    }
}

/// Queues traffic that found no process: merged into the record of the
/// same connection when there is one, else appended after committing the
/// oldest record when the queue is full. With no capacity it is committed
/// as unattributed at once.
pub open spec fn spec_push_pending(a: AttributorView, s: StatsModel, p: PendingAttribution) -> (
    AttributorView,
    StatsModel,
) {
    if a.capacity == 0 {
        (a, settle(s, p, None))
    } else {
        let i = pos_of(a.pending, conn_key(), p.connection);
        if i >= 0 {
            let old = a.pending[i];
            (
                AttributorView {
                    pending: a.pending.update(
                        i,
                        PendingAttribution {
                            bytes: (old.bytes + p.bytes) as u64,
                            observed_at: p.observed_at,
                            ..old
                        },
                    ),
                    ..a
                },
                s,
            )
        } else if a.pending.len() >= a.capacity {
            (
                AttributorView { pending: a.pending.drop_first().push(p), ..a },
                settle(s, a.pending[0], None),
            )
        } else {
            (AttributorView { pending: a.pending.push(p), ..a }, s)
        }
    }
}

/// The process side of one endpoint of a flow. Traffic without a local
/// socket or a peer port is unattributed; traffic whose socket the table
/// attributes goes to that process; the rest waits. The flag tells whether
/// a lookup missed in a readable table, so that a refresh is wanted.
pub open spec fn spec_endpoint(
    a: AttributorView,
    s: StatsModel,
    socket: Option<LocalSocket>,
    direction: Direction,
    peer_ip: IpAddress,
    peer_port: Option<u16>,
    bytes: u64,
    observed_at: i64,
    table: Option<ProcTableView>,
    now: u64,
) -> (AttributorView, StatsModel, bool) {
    match (socket, peer_port) {
        (Some(sock), Some(port)) => match found_process(table, sock) {
            Some(p) => (a, spec_record_process(s, Some(p), direction, bytes, observed_at), false),
            None => {
                let (a1, s1) = spec_push_pending(
                    a,
                    s,
                    PendingAttribution {
                        connection: ConnectionKey {
                            local_socket: sock,
                            peer_ip,
                            peer_port: port,
                            direction,
                        },
                        bytes,
                        observed_at,
                        pending_since: now,
                    },
                );
                (a1, s1, table is Some)
            },
        },
        _ => (a, spec_record_process(s, None, direction, bytes, observed_at), false),
    }
}

/// Records one flow: advance the queue, count the interface traffic, then
/// attribute the flow's endpoint (and the receiving endpoint of a flow
/// between two local sockets).
pub open spec fn spec_attribute_flow(
    a: AttributorView,
    s: StatsModel,
    flow: Flow,
    table: Option<ProcTableView>,
    now: u64,
    observed_at: i64,
) -> (AttributorView, StatsModel, bool) {
    let (a1, s1) = spec_advance(a, s, table, now);
    let s2 = spec_record_interface(s1, flow);
    let (a3, s3, r1) = spec_endpoint(
        a1,
        s2,
        flow.local_socket,
        flow.direction,
        flow.peer,
        flow.peer_port,
        flow.bytes,
        observed_at,
        table,
        now,
    );
    match (flow.peer_local_socket, flow.local_socket) {
        (Some(peer_socket), Some(local)) => {
            let (a4, s4, r2) = spec_endpoint(
                a3,
                s3,
                Some(peer_socket),
                Direction::Inbound,
                local.ip,
                Some(local.port),
                flow.bytes,
                observed_at,
                table,
                now,
            );
            (a4, s4, r1 || r2)
        },
        _ => (a3, s3, r1),
    }
}

/// The queue and the statistics agree: the statistics are well formed, the
/// queue holds each connection once and no more than its capacity, and
/// the buckets plus the waiting traffic add up to the interface totals.
pub open spec fn consistent(a: AttributorView, s: StatsModel) -> bool {
    &&& s.wf()
    &&& keys_unique(a.pending, conn_key())
    &&& a.pending.len() <= a.capacity
    &&& s.recv_total() + pending_total(a.pending, Direction::Inbound) == s.in_bytes
    &&& s.sent_total() + pending_total(a.pending, Direction::Outbound) == s.out_bytes
}

pub open spec fn view_of(table: Option<&ProcTable>) -> Option<ProcTableView> {
    match table {
        Some(t) => Some(t@),
        None => None,
    }
}

/// Like [`consistent`], with `extra_in` / `extra_out` bytes already counted on
/// the interface and not yet in a bucket or in the queue.
pub open spec fn balanced(a: AttributorView, s: StatsModel, extra_in: int, extra_out: int) -> bool {
    &&& s.wf()
    &&& keys_unique(a.pending, conn_key())
    &&& a.pending.len() <= a.capacity
    &&& extra_in >= 0
    &&& extra_out >= 0
    &&& s.recv_total() + pending_total(a.pending, Direction::Inbound) + extra_in == s.in_bytes
    &&& s.sent_total() + pending_total(a.pending, Direction::Outbound) + extra_out == s.out_bytes
}

pub open spec fn in_part(direction: Direction, bytes: u64) -> int {
    if direction == Direction::Inbound {
        bytes as int
    } else {
        0
    }
}

pub open spec fn out_part(direction: Direction, bytes: u64) -> int {
    if direction == Direction::Outbound {
        bytes as int
    } else {
        0
    }
}

proof fn lemma_unique_drop_first(s: Seq<PendingAttribution>)
    requires
        s.len() > 0,
        keys_unique(s, conn_key()),
    ensures
        keys_unique(s.drop_first(), conn_key()),
{
    assert forall|i: int, j: int| 0 <= i < j < s.drop_first().len() implies conn_key()(
        #[trigger] s.drop_first()[i],
    ) != conn_key()(#[trigger] s.drop_first()[j]) by {
        assert(s.drop_first()[i] == s[i + 1]);
        assert(s.drop_first()[j] == s[j + 1]);
    }
}

proof fn lemma_pending_totals_nonneg(s: Seq<PendingAttribution>)
    ensures
        pending_total(s, Direction::Inbound) >= 0,
        pending_total(s, Direction::Outbound) >= 0,
{
    lemma_sum_nonneg(s, bytes_in(Direction::Inbound));
    lemma_sum_nonneg(s, bytes_in(Direction::Outbound));
}

/// Committing the oldest waiting record keeps the books balanced.
proof fn lemma_settle_first(a: AttributorView, s: StatsModel, process: Option<ProcessView>)
    requires
        consistent(a, s),
        a.pending.len() > 0,
    ensures
        consistent(
            AttributorView { pending: a.pending.drop_first(), ..a },
            settle(s, a.pending[0], process),
        ),
        settle(s, a.pending[0], process).in_bytes == s.in_bytes,
        settle(s, a.pending[0], process).out_bytes == s.out_bytes,
        process_room(s, process, a.pending[0].connection.direction, a.pending[0].bytes),
        grown_from(s, settle(s, a.pending[0], process)),
{
    let p = a.pending[0];
    let rest = a.pending.drop_first();
    lemma_sum_drop_first(a.pending, bytes_in(Direction::Inbound));
    lemma_sum_drop_first(a.pending, bytes_in(Direction::Outbound));
    lemma_pending_totals_nonneg(rest);
    lemma_room_from_totals(s, process, p.connection.direction, p.bytes);
    lemma_record_process_totals(s, process, p.connection.direction, p.bytes, p.observed_at);
    lemma_record_process_grows(s, process, p.connection.direction, p.bytes, p.observed_at);
    lemma_unique_drop_first(a.pending);
}

proof fn lemma_finalize_expired(a: AttributorView, s: StatsModel, now: u64)
    requires
        consistent(a, s),
    ensures
        ({
            let (rest, s1) = spec_finalize_expired(a.pending, a.window, s, now);
            &&& consistent(AttributorView { pending: rest, ..a }, s1)
            &&& s1.in_bytes == s.in_bytes
            &&& s1.out_bytes == s.out_bytes
            &&& rest.len() > 0 ==> waited(now, rest[0].pending_since) < a.window
            &&& grown_from(s, s1)
        }),
    decreases a.pending.len(),
{
    if a.pending.len() > 0 && waited(now, a.pending[0].pending_since) >= a.window {
        let s0 = settle(s, a.pending[0], None);
        lemma_settle_first(a, s, None);
        lemma_finalize_expired(AttributorView { pending: a.pending.drop_first(), ..a }, s0, now);
        let (_, s1) = spec_finalize_expired(a.pending, a.window, s, now);
        lemma_grown_trans(s, s0, s1);
    } else {
        lemma_grown_refl(s);
    }
}

proof fn lemma_settle_all(a: AttributorView, s: StatsModel, table: Option<ProcTableView>)
    requires
        consistent(a, s),
    ensures
        consistent(
            AttributorView { pending: Seq::empty(), ..a },
            spec_settle_all(s, a.pending, table),
        ),
        spec_settle_all(s, a.pending, table).in_bytes == s.in_bytes,
        spec_settle_all(s, a.pending, table).out_bytes == s.out_bytes,
        grown_from(s, spec_settle_all(s, a.pending, table)),
    decreases a.pending.len(),
{
    if a.pending.len() == 0 {
        assert(a.pending =~= Seq::<PendingAttribution>::empty());
        lemma_grown_refl(s);
    } else {
        let process = found_process(table, a.pending[0].connection.local_socket);
        let s0 = settle(s, a.pending[0], process);
        lemma_settle_first(a, s, process);
        lemma_settle_all(AttributorView { pending: a.pending.drop_first(), ..a }, s0, table);
        lemma_grown_trans(s, s0, spec_settle_all(s0, a.pending.drop_first(), table));
    }
}

proof fn lemma_advance(a: AttributorView, s: StatsModel, table: Option<ProcTableView>, now: u64)
    requires
        consistent(a, s),
    ensures
        ({
            let (a1, s1) = spec_advance(a, s, table, now);
            &&& consistent(a1, s1)
            &&& a1.window == a.window
            &&& a1.capacity == a.capacity
            &&& s1.in_bytes == s.in_bytes
            &&& s1.out_bytes == s.out_bytes
            &&& grown_from(s, s1)
        }),
{
    let (rest, s1) = spec_finalize_expired(a.pending, a.window, s, now);
    lemma_finalize_expired(a, s, now);
    lemma_settle_all(AttributorView { pending: rest, ..a }, s1, table);
    lemma_grown_trans(s, s1, spec_settle_all(s1, rest, table));
    let generation = match table {
        Some(t) => Some(t.generation),
        None => None::<u64>,
    };
    let a2 = AttributorView { pending: rest, last_generation: generation, ..a };
    assert(AttributorView { pending: Seq::empty(), ..a2 } == AttributorView {
        pending: Seq::empty(),
        last_generation: generation,
        ..AttributorView { pending: rest, ..a }
    });
}

proof fn lemma_push_pending(
    a: AttributorView,
    s: StatsModel,
    p: PendingAttribution,
    ein: int,
    eout: int,
)
    requires
        balanced(
            a,
            s,
            ein + in_part(p.connection.direction, p.bytes),
            eout + out_part(p.connection.direction, p.bytes),
        ),
        ein >= 0,
        eout >= 0,
    ensures
        ({
            let (a1, s1) = spec_push_pending(a, s, p);
            &&& balanced(a1, s1, ein, eout)
            &&& a1.window == a.window
            &&& a1.capacity == a.capacity
            &&& a1.last_generation == a.last_generation
            &&& grown_from(s, s1)
            &&& s1.in_bytes == s.in_bytes
            &&& s1.out_bytes == s.out_bytes
        }),
{
    let d = p.connection.direction;
    let fin = bytes_in(Direction::Inbound);
    let fout = bytes_in(Direction::Outbound);
    lemma_pending_totals_nonneg(a.pending);
    if a.capacity == 0 {
        lemma_room_from_totals(s, None, d, p.bytes);
        lemma_record_process_totals(s, None, d, p.bytes, p.observed_at);
        lemma_record_process_grows(s, None, d, p.bytes, p.observed_at);
    } else {
        lemma_pos_of(a.pending, conn_key(), p.connection);
        let i = pos_of(a.pending, conn_key(), p.connection);
        if i >= 0 {
            let old = a.pending[i];
            let merged = PendingAttribution {
                bytes: (old.bytes + p.bytes) as u64,
                observed_at: p.observed_at,
                ..old
            };
            lemma_sum_nonneg_ge(a.pending, i, all_bytes());
            lemma_sum_nonneg_ge(a.pending, i, fin);
            lemma_sum_nonneg_ge(a.pending, i, fout);
            lemma_sum_update(a.pending, i, merged, fin);
            lemma_sum_update(a.pending, i, merged, fout);
            lemma_unique_update(a.pending, conn_key(), i, merged);
            lemma_sum_nonneg(s.procs, crate::stats::proc_recv());
            lemma_sum_nonneg(s.procs, crate::stats::proc_sent());
            lemma_grown_refl(s);
        } else if a.pending.len() >= a.capacity {
            let a0 = AttributorView { pending: a.pending, ..a };
            let first = a.pending[0];
            let rest = a.pending.drop_first();
            lemma_sum_drop_first(a.pending, fin);
            lemma_sum_drop_first(a.pending, fout);
            lemma_pending_totals_nonneg(rest);
            lemma_sum_nonneg(s.procs, crate::stats::proc_recv());
            lemma_sum_nonneg(s.procs, crate::stats::proc_sent());
            lemma_room_from_totals(s, None, first.connection.direction, first.bytes);
            lemma_record_process_totals(
                s,
                None,
                first.connection.direction,
                first.bytes,
                first.observed_at,
            );
            lemma_record_process_grows(
                s,
                None,
                first.connection.direction,
                first.bytes,
                first.observed_at,
            );
            lemma_unique_drop_first(a.pending);
            lemma_sum_push(rest, p, fin);
            lemma_sum_push(rest, p, fout);
            assert forall|k: int| 0 <= k < rest.len() implies conn_key()(#[trigger] rest[k])
                != conn_key()(p) by {
                assert(rest[k] == a.pending[k + 1]);
            }
            lemma_unique_push(rest, conn_key(), p);
        } else {
            lemma_sum_push(a.pending, p, fin);
            lemma_sum_push(a.pending, p, fout);
            lemma_unique_push(a.pending, conn_key(), p);
            lemma_grown_refl(s);
        }
    }
}

proof fn lemma_endpoint(
    a: AttributorView,
    s: StatsModel,
    socket: Option<LocalSocket>,
    direction: Direction,
    peer_ip: IpAddress,
    peer_port: Option<u16>,
    bytes: u64,
    observed_at: i64,
    table: Option<ProcTableView>,
    now: u64,
    ein: int,
    eout: int,
)
    requires
        balanced(a, s, ein + in_part(direction, bytes), eout + out_part(direction, bytes)),
        ein >= 0,
        eout >= 0,
    ensures
        ({
            let (a1, s1, _) = spec_endpoint(
                a,
                s,
                socket,
                direction,
                peer_ip,
                peer_port,
                bytes,
                observed_at,
                table,
                now,
            );
            &&& balanced(a1, s1, ein, eout)
            &&& a1.window == a.window
            &&& a1.capacity == a.capacity
            &&& a1.last_generation == a.last_generation
            &&& grown_from(s, s1)
            &&& s1.in_bytes == s.in_bytes
            &&& s1.out_bytes == s.out_bytes
        }),
{
    lemma_pending_totals_nonneg(a.pending);
    let process = match (socket, peer_port) {
        (Some(sock), Some(_)) => found_process(table, sock),
        _ => None,
    };
    match (socket, peer_port) {
        (Some(sock), Some(port)) => {
            if process is None {
                lemma_push_pending(
                    a,
                    s,
                    PendingAttribution {
                        connection: ConnectionKey {
                            local_socket: sock,
                            peer_ip,
                            peer_port: port,
                            direction,
                        },
                        bytes,
                        observed_at,
                        pending_since: now,
                    },
                    ein,
                    eout,
                );
                return;
            }
        },
        _ => {},
    }
    lemma_room_from_totals(s, process, direction, bytes);
    lemma_record_process_totals(s, process, direction, bytes, observed_at);
    lemma_record_process_grows(s, process, direction, bytes, observed_at);
}

/// Everything one recorded flow does to the queue and the statistics that
/// the laws below speak of.
proof fn lemma_attribute_flow(
    a: AttributorView,
    s: StatsModel,
    flow: Flow,
    table: Option<ProcTableView>,
    now: u64,
    observed_at: i64,
)
    requires
        consistent(a, s),
        flow.wf(),
        interface_room(s, flow),
    ensures
        ({
            let (a1, s1, _) = spec_attribute_flow(a, s, flow, table, now, observed_at);
            &&& consistent(a1, s1)
            &&& a1.window == a.window
            &&& a1.capacity == a.capacity
            &&& grown_from(s, s1)
            &&& s1.in_bytes == s.in_bytes + flow_inbound(flow)
            &&& s1.out_bytes == s.out_bytes + flow_outbound(flow)
        }),
{
    let (a1, s1) = spec_advance(a, s, table, now);
    lemma_advance(a, s, table, now);
    let s2 = spec_record_interface(s1, flow);
    crate::stats::lemma_record_interface(s1, flow);
    lemma_record_interface_grows(s1, flow);
    lemma_grown_trans(s, s1, s2);
    let b = flow.bytes;
    let (a3, s3, _) = spec_endpoint(
        a1,
        s2,
        flow.local_socket,
        flow.direction,
        flow.peer,
        flow.peer_port,
        b,
        observed_at,
        table,
        now,
    );
    if flow.peer_local_socket is Some {
        let local = flow.local_socket.unwrap();
        lemma_endpoint(
            a1,
            s2,
            flow.local_socket,
            flow.direction,
            flow.peer,
            flow.peer_port,
            b,
            observed_at,
            table,
            now,
            b as int,
            0,
        );
        lemma_grown_trans(s, s2, s3);
        let (_, s4, _) = spec_endpoint(
            a3,
            s3,
            flow.peer_local_socket,
            Direction::Inbound,
            local.ip,
            Some(local.port),
            b,
            observed_at,
            table,
            now,
        );
        lemma_endpoint(
            a3,
            s3,
            flow.peer_local_socket,
            Direction::Inbound,
            local.ip,
            Some(local.port),
            b,
            observed_at,
            table,
            now,
            0,
            0,
        );
        lemma_grown_trans(s, s3, s4);
    } else {
        lemma_endpoint(
            a1,
            s2,
            flow.local_socket,
            flow.direction,
            flow.peer,
            flow.peer_port,
            b,
            observed_at,
            table,
            now,
            0,
            0,
        );
        lemma_grown_trans(s, s2, s3);
    }
}

/// Bytes a flow adds to the inbound interface total: all of them when it
/// arrives or when both ends are local, else none.
pub open spec fn flow_inbound(flow: Flow) -> int {
    if flow.peer_local_socket is Some || flow.direction == Direction::Inbound {
        flow.bytes as int
    } else {
        0
    }
}

/// Bytes a flow adds to the outbound interface total: all of them when it
/// leaves or when both ends are local, else none.
pub open spec fn flow_outbound(flow: Flow) -> int {
    if flow.peer_local_socket is Some || flow.direction == Direction::Outbound {
        flow.bytes as int
    } else {
        0
    }
}

/// Law: the waiting queue never loses or duplicates traffic. Whatever a flow
/// does to the queue (merging, overflowing, expiring, committing by a new
/// process table), the process buckets plus the waiting traffic keep adding
/// up to exactly the interface totals, and the queue stays within its
/// capacity with one record per connection.
pub proof fn attribution_conserves_traffic(
    a: AttributorView,
    s: StatsModel,
    flow: Flow,
    table: Option<ProcTableView>,
    now: u64,
    observed_at: i64,
)
    requires
        consistent(a, s),
        flow.wf(),
        interface_room(s, flow),
    ensures
        ({
            let (a1, s1, _) = spec_attribute_flow(a, s, flow, table, now, observed_at);
            consistent(a1, s1)
        }),
{
    lemma_attribute_flow(a, s, flow, table, now, observed_at);
}

/// Law: traffic committed to a process or to the unattributed bucket is
/// never taken back or moved elsewhere. Whatever a later flow, lookup or
/// table refresh does (advancing the queue, or recording a flow), every
/// process bucket of before is still there with at least its traffic, and
/// the unattributed bucket has not shrunk.
pub proof fn committed_traffic_is_never_reassigned(
    a: AttributorView,
    s: StatsModel,
    flow: Flow,
    table: Option<ProcTableView>,
    now: u64,
    observed_at: i64,
)
    requires
        consistent(a, s),
        flow.wf(),
        interface_room(s, flow),
    ensures
        grown_from(s, spec_advance(a, s, table, now).1),
        grown_from(s, spec_attribute_flow(a, s, flow, table, now, observed_at).1),
{
    lemma_advance(a, s, table, now);
    lemma_attribute_flow(a, s, flow, table, now, observed_at);
}

/// Law: the interface totals count every flow at once, whether or not its
/// process is known yet: recording a flow adds its bytes to the inbound
/// total when it arrives or when both ends are local, and to the outbound
/// total when it leaves or when both ends are local.
pub proof fn interface_totals_count_every_flow_at_once(
    a: AttributorView,
    s: StatsModel,
    flow: Flow,
    table: Option<ProcTableView>,
    now: u64,
    observed_at: i64,
)
    requires
        consistent(a, s),
        flow.wf(),
        interface_room(s, flow),
    ensures
        ({
            let n = spec_attribute_flow(a, s, flow, table, now, observed_at).1;
            &&& n.in_bytes == s.in_bytes + flow_inbound(flow)
            &&& n.out_bytes == s.out_bytes + flow_outbound(flow)
        }),
{
    lemma_attribute_flow(a, s, flow, table, now, observed_at);
}

fn lookup_process(table: Option<&ProcTable>, socket: LocalSocket) -> (r: Option<ObservedProcess>)
    ensures
        opt_process(r) == found_process(view_of(table), socket),
{
    match table {
        None => None,
        Some(t) => match t.lookup_outcome(socket.ip, socket.port, socket.protocol) {
            LookupOutcome::Hit { process, .. } => Some(process),
            LookupOutcome::Miss(_) => None,
        },
    }
}

fn find_connection(pending: &Vec<PendingAttribution>, key: ConnectionKey) -> (r: Option<usize>)
    ensures
        match r {
            Some(i) => i < pending@.len() && pending@[i as int].connection == key,
            None => forall|i: int| 0 <= i < pending@.len() ==> #[trigger] pending@[i].connection != key,
        },
{
    let mut i: usize = 0;
    while i < pending.len()
        invariant
            i <= pending@.len(),
            forall|k: int| 0 <= k < i ==> #[trigger] pending@[k].connection != key,
        decreases pending@.len() - i,
    {
        if pending[i].connection == key {
            return Some(i);
        }
        i += 1;
    }
    None
}

impl PendingAttributor {
    /// An empty queue whose records wait `window` nanoseconds, at most `capacity` at once.
    pub fn new(window: u64, capacity: usize) -> (r: PendingAttributor)
        ensures
            r@ == (AttributorView {
                pending: Seq::empty(),
                window,
                capacity,
                last_generation: None,
            }),
    {
        let r = PendingAttributor { pending: Vec::new(), window, capacity, last_generation: None };
        assert(r@.pending =~= Seq::<PendingAttribution>::empty());
        r
    }

    /// An empty queue with the default window (1 s) and capacity (1024).
    pub fn with_defaults() -> (r: PendingAttributor)
        ensures
            r@ == (AttributorView {
                pending: Seq::empty(),
                window: PENDING_ATTRIBUTION_WINDOW_NANOS,
                capacity: PENDING_ATTRIBUTION_CAPACITY,
                last_generation: None,
            }),
    {
        PendingAttributor::new(PENDING_ATTRIBUTION_WINDOW_NANOS, PENDING_ATTRIBUTION_CAPACITY)
    }

    /// Count and volume of the waiting traffic.
    pub fn snapshot(&self) -> (r: PendingAttributionSnapshot)
        requires
            sum_of(self@.pending, all_bytes()) <= u64::MAX,
        ensures
            r.records == self@.pending.len(),
            r.bytes == sum_of(self@.pending, all_bytes()),
    {
        let mut total: u64 = 0;
        let mut i: usize = 0;
        while i < self.pending.len()
            invariant
                i <= self.pending@.len(),
                sum_of(self@.pending, all_bytes()) <= u64::MAX,
                total == sum_of(self.pending@.subrange(0, i as int), all_bytes()),
            decreases self.pending@.len() - i,
        {
            proof {
                let prefix = self.pending@.subrange(0, i + 1);
                assert(prefix.drop_last() =~= self.pending@.subrange(0, i as int));
                lemma_sum_nonneg(self.pending@.subrange(0, i as int), all_bytes());
                lemma_prefix_sum_le(self.pending@, i + 1);
            }
            total = total + self.pending[i].bytes;
            i += 1;
        }
        assert(self.pending@.subrange(0, self.pending@.len() as int) =~= self.pending@);
        PendingAttributionSnapshot { records: self.pending.len(), bytes: total }
    }

    /// Volume of the waiting traffic.
    pub fn pending_bytes(&self) -> (r: u64)
        requires
            sum_of(self@.pending, all_bytes()) <= u64::MAX,
        ensures
            r == sum_of(self@.pending, all_bytes()),
    {
        self.snapshot().bytes
    }

    fn finalize_oldest(&mut self, stats: &mut Stats)
        requires
            consistent(old(self)@, old(stats)@),
            old(self)@.pending.len() > 0,
        ensures
            final(self)@ == (AttributorView { pending: old(self)@.pending.drop_first(), ..old(self)@ }),
            final(stats)@ == settle(old(stats)@, old(self)@.pending[0], None),
            consistent(final(self)@, final(stats)@),
    {
        proof {
            lemma_settle_first(self@, stats@, None);
        }
        let p = self.pending.remove(0);
        assert(self@.pending =~= old(self)@.pending.drop_first());
        stats.record_process(None, p.connection.direction, p.bytes, p.observed_at);
    }

    fn finalize_expired(&mut self, stats: &mut Stats, now: u64)
        requires
            consistent(old(self)@, old(stats)@),
        ensures
            (final(self)@.pending, final(stats)@) == spec_finalize_expired(
                old(self)@.pending,
                old(self)@.window,
                old(stats)@,
                now,
            ),
            final(self)@ == (AttributorView { pending: final(self)@.pending, ..old(self)@ }),
            consistent(final(self)@, final(stats)@),
    {
        let ghost target = spec_finalize_expired(self@.pending, self@.window, stats@, now);
        while self.pending.len() > 0 && now.saturating_sub(self.pending[0].pending_since)
            >= self.window
            invariant
                consistent(self@, stats@),
                spec_finalize_expired(self@.pending, self@.window, stats@, now) == target,
                self@ == (AttributorView { pending: self@.pending, ..old(self)@ }),
            decreases self@.pending.len(),
        {
            self.finalize_oldest(stats);
        }
    }

    /// Commits old waiting traffic as unattributed; then, when `table` is a
    /// process table newer than the one the waiting traffic was checked
    /// against, commits all waiting traffic by it (to its process, or as
    /// unattributed). `table` is `None` when the table cannot be read.
    pub fn advance(&mut self, stats: &mut Stats, table: Option<&ProcTable>, now: u64)
        requires
            consistent(old(self)@, old(stats)@),
        ensures
            (final(self)@, final(stats)@) == spec_advance(
                old(self)@,
                old(stats)@,
                view_of(table),
                now,
            ),
            consistent(final(self)@, final(stats)@),
            final(stats)@.in_bytes == old(stats)@.in_bytes,
            final(stats)@.out_bytes == old(stats)@.out_bytes,
    {
        proof {
            lemma_advance(self@, stats@, view_of(table), now);
        }
        self.finalize_expired(stats, now);
        let generation = match table {
            Some(t) => Some(t.generation()),
            None => None,
        };
        if generation.is_none() || generation == self.last_generation {
            return;
        }
        self.last_generation = generation;
        let ghost tv = view_of(table);
        let ghost target = spec_settle_all(stats@, self@.pending, tv);
        proof {
            lemma_settle_all(self@, stats@, tv);
        }
        while self.pending.len() > 0
            invariant
                consistent(self@, stats@),
                spec_settle_all(stats@, self@.pending, tv) == target,
                tv == view_of(table),
                self@.window == old(self)@.window,
                self@.capacity == old(self)@.capacity,
                self@.last_generation == generation,
            decreases self@.pending.len(),
        {
            let ghost first = self@.pending[0];
            let process = lookup_process(table, self.pending[0].connection.local_socket);
            proof {
                lemma_settle_first(self@, stats@, opt_process(process));
            }
            let p = self.pending.remove(0);
            proof {
                assert(p == first);
            }
            stats.record_process(process, p.connection.direction, p.bytes, p.observed_at);
        }
        assert(self@.pending =~= Seq::<PendingAttribution>::empty());
    }
}

proof fn lemma_prefix_sum_le(s: Seq<PendingAttribution>, n: int)
    requires
        0 <= n <= s.len(),
    ensures
        sum_of(s.subrange(0, n), all_bytes()) <= sum_of(s, all_bytes()),
    decreases s.len() - n,
{
    if n < s.len() {
        lemma_prefix_sum_le(s, n + 1);
        assert(s.subrange(0, n + 1).drop_last() =~= s.subrange(0, n));
    } else {
        assert(s.subrange(0, n) =~= s);
    }
}

impl PendingAttributor {
    fn push_pending(
        &mut self,
        stats: &mut Stats,
        p: PendingAttribution,
        Ghost(ein): Ghost<int>,
        Ghost(eout): Ghost<int>,
    )
        requires
            balanced(
                old(self)@,
                old(stats)@,
                ein + in_part(p.connection.direction, p.bytes),
                eout + out_part(p.connection.direction, p.bytes),
            ),
            ein >= 0,
            eout >= 0,
        ensures
            (final(self)@, final(stats)@) == spec_push_pending(old(self)@, old(stats)@, p),
            balanced(final(self)@, final(stats)@, ein, eout),
    {
        proof {
            lemma_push_pending(self@, stats@, p, ein, eout);
            lemma_pending_totals_nonneg(self@.pending);
            lemma_sum_nonneg(stats@.procs, crate::stats::proc_recv());
            lemma_sum_nonneg(stats@.procs, crate::stats::proc_sent());
        }
        if self.capacity == 0 {
            proof {
                lemma_room_from_totals(stats@, None, p.connection.direction, p.bytes);
            }
            stats.record_process(None, p.connection.direction, p.bytes, p.observed_at);
            return;
        }
        let ghost a = self@;
        proof {
            lemma_pos_of(a.pending, conn_key(), p.connection);
        }
        match find_connection(&self.pending, p.connection) {
            Some(i) => {
                proof {
                    lemma_pos_of_unique(a.pending, conn_key(), p.connection, i as int);
                    lemma_sum_nonneg_ge(a.pending, i as int, bytes_in(Direction::Inbound));
                    lemma_sum_nonneg_ge(a.pending, i as int, bytes_in(Direction::Outbound));
                }
                let merged = self.pending[i].bytes + p.bytes;
                self.pending[i].bytes = merged;
                self.pending[i].observed_at = p.observed_at;
                proof {
                    assert(self@.pending =~= a.pending.update(
                        i as int,
                        PendingAttribution {
                            bytes: merged,
                            observed_at: p.observed_at,
                            ..a.pending[i as int]
                        },
                    ));
                }
            },
            None => {
                if self.pending.len() >= self.capacity {
                    proof {
                        assert(self@.pending.len() > 0);
                        lemma_sum_drop_first(a.pending, bytes_in(Direction::Inbound));
                        lemma_sum_drop_first(a.pending, bytes_in(Direction::Outbound));
                        lemma_pending_totals_nonneg(a.pending.drop_first());
                        lemma_room_from_totals(
                            stats@,
                            None,
                            a.pending[0].connection.direction,
                            a.pending[0].bytes,
                        );
                    }
                    let first = self.pending.remove(0);
                    stats.record_process(
                        None,
                        first.connection.direction,
                        first.bytes,
                        first.observed_at,
                    );
                }
                self.pending.push(p);
            },
        }
    }

    fn record_endpoint(
        &mut self,
        stats: &mut Stats,
        socket: Option<LocalSocket>,
        direction: Direction,
        peer_ip: IpAddress,
        peer_port: Option<u16>,
        bytes: u64,
        observed_at: i64,
        table: Option<&ProcTable>,
        now: u64,
        Ghost(ein): Ghost<int>,
        Ghost(eout): Ghost<int>,
    ) -> (refresh: bool)
        requires
            balanced(
                old(self)@,
                old(stats)@,
                ein + in_part(direction, bytes),
                eout + out_part(direction, bytes),
            ),
            ein >= 0,
            eout >= 0,
        ensures
            (final(self)@, final(stats)@, refresh) == spec_endpoint(
                old(self)@,
                old(stats)@,
                socket,
                direction,
                peer_ip,
                peer_port,
                bytes,
                observed_at,
                view_of(table),
                now,
            ),
            balanced(final(self)@, final(stats)@, ein, eout),
    {
        proof {
            lemma_endpoint(
                self@,
                stats@,
                socket,
                direction,
                peer_ip,
                peer_port,
                bytes,
                observed_at,
                view_of(table),
                now,
                ein,
                eout,
            );
            lemma_pending_totals_nonneg(self@.pending);
            lemma_sum_nonneg(stats@.procs, crate::stats::proc_recv());
            lemma_sum_nonneg(stats@.procs, crate::stats::proc_sent());
        }
        let (sock, port) = match (socket, peer_port) {
            (Some(sock), Some(port)) => (sock, port),
            _ => {
                proof {
                    lemma_room_from_totals(stats@, None, direction, bytes);
                }
                stats.record_process(None, direction, bytes, observed_at);
                return false;
            },
        };
        match lookup_process(table, sock) {
            Some(process) => {
                proof {
                    lemma_room_from_totals(stats@, Some(process@), direction, bytes);
                }
                stats.record_process(Some(process), direction, bytes, observed_at);
                false
            },
            None => {
                let pending = PendingAttribution {
                    connection: ConnectionKey {
                        local_socket: sock,
                        peer_ip,
                        peer_port: port,
                        direction,
                    },
                    bytes,
                    observed_at,
                    pending_since: now,
                };
                self.push_pending(stats, pending, Ghost(ein), Ghost(eout));
                table.is_some()
            },
        }
    }

    /// Records one flow observed at `observed_at` (wall clock) and `now`
    /// (monotonic clock): first advances the queue, then counts the flow on
    /// the interface and attributes its endpoint(s) by `table` (`None` when
    /// the table cannot be read). Returns whether a lookup missed in a
    /// readable table, so that a table refresh is wanted.
    pub fn record_flow(
        &mut self,
        stats: &mut Stats,
        flow: Flow,
        table: Option<&ProcTable>,
        now: u64,
        observed_at: i64,
    ) -> (refresh: bool)
        requires
            consistent(old(self)@, old(stats)@),
            flow.wf(),
            interface_room(old(stats)@, flow),
        ensures
            (final(self)@, final(stats)@, refresh) == spec_attribute_flow(
                old(self)@,
                old(stats)@,
                flow,
                view_of(table),
                now,
                observed_at,
            ),
            consistent(final(self)@, final(stats)@),
    {
        proof {
            attribution_conserves_traffic(self@, stats@, flow, view_of(table), now, observed_at);
        }
        self.advance(stats, table, now);
        proof {
            crate::stats::lemma_record_interface(stats@, flow);
        }
        stats.record_interface_flow(&flow);
        match (flow.peer_local_socket, flow.local_socket) {
            (Some(peer_socket), Some(local)) => {
                let r1 = self.record_endpoint(
                    stats,
                    flow.local_socket,
                    flow.direction,
                    flow.peer,
                    flow.peer_port,
                    flow.bytes,
                    observed_at,
                    table,
                    now,
                    Ghost(flow.bytes as int),
                    Ghost(0),
                );
                let r2 = self.record_endpoint(
                    stats,
                    Some(peer_socket),
                    Direction::Inbound,
                    local.ip,
                    Some(local.port),
                    flow.bytes,
                    observed_at,
                    table,
                    now,
                    Ghost(0),
                    Ghost(0),
                );
                r1 || r2
            },
            _ => self.record_endpoint(
                stats,
                flow.local_socket,
                flow.direction,
                flow.peer,
                flow.peer_port,
                flow.bytes,
                observed_at,
                table,
                now,
                Ghost(0),
                Ghost(0),
            ),
        }
    }
}

/// A new queue and new statistics agree, so that flows can be recorded
/// from the start.
pub proof fn fresh_queue_and_stats_agree(window: u64, capacity: usize)
    ensures
        consistent(
            AttributorView { pending: Seq::empty(), window, capacity, last_generation: None },
            StatsModel::empty(),
        ),
{
    crate::stats::empty_stats_are_partitioned();
    let p = Seq::<PendingAttribution>::empty();
    assert(pending_total(p, Direction::Inbound) == 0);
    assert(pending_total(p, Direction::Outbound) == 0);
}

/// Law: after advancing at `now`, the oldest waiting record has waited less
/// than the window: a record that waits the full window is committed as
/// unattributed traffic by the next advance.
pub proof fn advance_leaves_no_expired_traffic(
    a: AttributorView,
    s: StatsModel,
    table: Option<ProcTableView>,
    now: u64,
)
    requires
        consistent(a, s),
    ensures
        ({
            let (a1, _) = spec_advance(a, s, table, now);
            a1.pending.len() > 0 ==> waited(now, a1.pending[0].pending_since) < a.window
        }),
{
    lemma_finalize_expired(a, s, now);
}

proof fn lemma_finalize_keeps_procs(
    pending: Seq<PendingAttribution>,
    window: u64,
    s: StatsModel,
    now: u64,
)
    ensures
        spec_finalize_expired(pending, window, s, now).1.procs == s.procs,
    decreases pending.len(),
{
    if pending.len() > 0 && waited(now, pending[0].pending_since) >= window {
        lemma_finalize_keeps_procs(pending.drop_first(), window, settle(s, pending[0], None), now);
    }
}

proof fn lemma_settle_all_stale(s: StatsModel, pending: Seq<PendingAttribution>, t: ProcTableView)
    requires
        !t.fresh,
    ensures
        spec_settle_all(s, pending, Some(t)).procs == s.procs,
    decreases pending.len(),
{
    if pending.len() > 0 {
        lemma_settle_all_stale(settle(s, pending[0], None), pending.drop_first(), t);
    }
}

/// Law: waiting traffic is only ever attributed to a process by a process
/// table that is both current and newer than the one it was checked
/// against; an unreadable, stale or already-seen table leaves every process
/// bucket unchanged (waiting traffic can only time out to unattributed).
pub proof fn only_a_new_current_table_attributes_waiting_traffic(
    a: AttributorView,
    s: StatsModel,
    table: Option<ProcTableView>,
    now: u64,
)
    requires
        match table {
            None => true,
            Some(t) => !t.fresh || Some(t.generation) == a.last_generation,
        },
    ensures
        spec_advance(a, s, table, now).1.procs == s.procs,
{
    lemma_finalize_keeps_procs(a.pending, a.window, s, now);
    let (rest, s1) = spec_finalize_expired(a.pending, a.window, s, now);
    match table {
        Some(t) => {
            if !t.fresh {
                lemma_settle_all_stale(s1, rest, t);
            }
        },
        None => {},
    }
}

/// Law: how traffic that found no process joins the queue. With no capacity
/// it is committed as unattributed at once and the queue stays as it is.
/// Traffic of a connection that already waits is merged into that
/// connection's record: the bytes add up, the latest observation time is
/// kept, and nothing else changes. Any other traffic joins the end of the
/// queue, after the oldest record has been committed as unattributed when
/// the queue was full. Either way the queue keeps one record per
/// connection and never holds more than its capacity.
pub proof fn waiting_traffic_joins_the_queue(a: AttributorView, s: StatsModel, p: PendingAttribution)
    requires
        balanced(a, s, in_part(p.connection.direction, p.bytes), out_part(p.connection.direction, p.bytes)),
    ensures
        ({
            let (a1, s1) = spec_push_pending(a, s, p);
            &&& a1.window == a.window
            &&& a1.capacity == a.capacity
            &&& a1.last_generation == a.last_generation
            &&& a1.pending.len() <= a.capacity
            &&& keys_unique(a1.pending, conn_key())
            &&& a.capacity == 0 ==> a1 == a && s1 == settle(s, p, None)
            &&& forall|i: int|
                a.capacity > 0 && 0 <= i < a.pending.len() && #[trigger] a.pending[i].connection
                    == p.connection ==> {
                    &&& s1 == s
                    &&& a1.pending.len() == a.pending.len()
                    &&& a1.pending[i].bytes == a.pending[i].bytes + p.bytes
                    &&& a1.pending[i].observed_at == p.observed_at
                    &&& a1.pending[i].connection == a.pending[i].connection
                    &&& a1.pending[i].pending_since == a.pending[i].pending_since
                    &&& forall|j: int|
                        0 <= j < a.pending.len() && j != i ==> #[trigger] a1.pending[j]
                            == a.pending[j]
                }
            &&& (a.capacity > 0 && (forall|i: int|
                0 <= i < a.pending.len() ==> #[trigger] a.pending[i].connection != p.connection))
                ==> if a.pending.len() < a.capacity {
                a1.pending == a.pending.push(p) && s1 == s
            } else {
                a1.pending == a.pending.drop_first().push(p) && s1 == settle(
                    s,
                    a.pending[0],
                    None,
                )
            }
        }),
{
    lemma_push_pending(a, s, p, 0, 0);
    lemma_pos_of(a.pending, conn_key(), p.connection);
    assert forall|i: int|
        a.capacity > 0 && 0 <= i < a.pending.len() && #[trigger] a.pending[i].connection
            == p.connection implies pos_of(a.pending, conn_key(), p.connection) == i
        && a.pending[i].bytes + p.bytes <= u64::MAX by {
        let d = p.connection.direction;
        lemma_pos_of_unique(a.pending, conn_key(), p.connection, i);
        lemma_sum_nonneg_ge(a.pending, i, bytes_in(d));
        lemma_pending_totals_nonneg(a.pending);
        lemma_sum_nonneg(s.procs, crate::stats::proc_recv());
        lemma_sum_nonneg(s.procs, crate::stats::proc_sent());
    }
}

/// Law: traffic of an endpoint without a local socket or without a peer
/// port is never queued: its bytes go at once to the unattributed bucket in
/// its direction, which takes its observation time, while the queue and
/// every process bucket stay as they were and no refresh is asked for.
pub proof fn traffic_without_socket_or_port_is_unattributed_at_once(
    a: AttributorView,
    s: StatsModel,
    socket: Option<LocalSocket>,
    direction: Direction,
    peer_ip: IpAddress,
    peer_port: Option<u16>,
    bytes: u64,
    observed_at: i64,
    table: Option<ProcTableView>,
    now: u64,
)
    requires
        socket is None || peer_port is None,
    ensures
        ({
            let (a1, s1, refresh) = spec_endpoint(
                a,
                s,
                socket,
                direction,
                peer_ip,
                peer_port,
                bytes,
                observed_at,
                table,
                now,
            );
            &&& a1 == a
            &&& !refresh
            &&& s1.unattributed == add_traffic(s.unattributed, direction, bytes)
            &&& s1.unattributed_last_seen == Some(observed_at)
            &&& s1.procs == s.procs
            &&& s1.in_bytes == s.in_bytes && s1.out_bytes == s.out_bytes
            &&& s1.in_by_ip == s.in_by_ip && s1.out_by_ip == s.out_by_ip
        }),
{
}

/// One thing that happens to a queue and its statistics: a flow is recorded
/// (with the process table of the moment, the monotonic time and the wall
/// clock time), or the queue is advanced on its own.
pub ghost enum AttributionEvent {
    Flow { flow: Flow, table: Option<ProcTableView>, now: u64, observed_at: i64 },
    Advance { table: Option<ProcTableView>, now: u64 },
}

/// The queue and statistics after one event.
pub open spec fn spec_event(a: AttributorView, s: StatsModel, e: AttributionEvent) -> (
    AttributorView,
    StatsModel,
) {
    match e {
        AttributionEvent::Flow { flow, table, now, observed_at } => {
            let (a1, s1, _) = spec_attribute_flow(a, s, flow, table, now, observed_at);
            (a1, s1)
        },
        AttributionEvent::Advance { table, now } => spec_advance(a, s, table, now),
    }
}

/// The queue and statistics after a run of events, first to last.
pub open spec fn spec_run(a: AttributorView, s: StatsModel, events: Seq<AttributionEvent>) -> (
    AttributorView,
    StatsModel,
)
    decreases events.len(),
{
    if events.len() == 0 {
        (a, s)
    } else {
        let (a1, s1) = spec_event(a, s, events[0]);
        spec_run(a1, s1, events.drop_first())
    }
}

pub open spec fn event_flow_ok(e: AttributionEvent) -> bool {
    match e {
        AttributionEvent::Flow { flow, .. } => flow.wf(),
        AttributionEvent::Advance { .. } => true,
    }
}

/// Bytes an event adds to the inbound interface total.
pub open spec fn event_inbound() -> spec_fn(AttributionEvent) -> int {
    |e: AttributionEvent|
        match e {
            AttributionEvent::Flow { flow, .. } => flow_inbound(flow),
            AttributionEvent::Advance { .. } => 0,
        }
}

/// Bytes an event adds to the outbound interface total.
pub open spec fn event_outbound() -> spec_fn(AttributionEvent) -> int {
    |e: AttributionEvent|
        match e {
            AttributionEvent::Flow { flow, .. } => flow_outbound(flow),
            AttributionEvent::Advance { .. } => 0,
        }
}

proof fn lemma_event(a: AttributorView, s: StatsModel, e: AttributionEvent)
    requires
        consistent(a, s),
        event_flow_ok(e),
        s.in_bytes + event_inbound()(e) <= u64::MAX,
        s.out_bytes + event_outbound()(e) <= u64::MAX,
    ensures
        ({
            let (a1, s1) = spec_event(a, s, e);
            &&& consistent(a1, s1)
            &&& a1.window == a.window
            &&& a1.capacity == a.capacity
            &&& grown_from(s, s1)
            &&& s1.in_bytes == s.in_bytes + event_inbound()(e)
            &&& s1.out_bytes == s.out_bytes + event_outbound()(e)
        }),
{
    match e {
        AttributionEvent::Flow { flow, table, now, observed_at } => {
            lemma_attribute_flow(a, s, flow, table, now, observed_at);
        },
        AttributionEvent::Advance { table, now } => {
            lemma_advance(a, s, table, now);
        },
    }
}

/// Law: over any run of recorded flows and queue advances on one queue and
/// one set of statistics, the interface totals grow by exactly the bytes of
/// the flows; the bytes committed to processes, to the unattributed bucket
/// and still waiting in the queue add up to those totals at every point;
/// nothing committed is ever moved or reduced; and the queue keeps its
/// window and capacity and never holds more records than that capacity.
/// It holds while the 64-bit interface totals have room for the run.
pub proof fn every_run_keeps_the_books(a: AttributorView, s: StatsModel, events: Seq<AttributionEvent>)
    requires
        consistent(a, s),
        forall|k: int| 0 <= k < events.len() ==> event_flow_ok(#[trigger] events[k]),
        s.in_bytes + sum_of(events, event_inbound()) <= u64::MAX,
        s.out_bytes + sum_of(events, event_outbound()) <= u64::MAX,
    ensures
        ({
            let (a1, s1) = spec_run(a, s, events);
            &&& consistent(a1, s1)
            &&& a1.window == a.window
            &&& a1.capacity == a.capacity
            &&& a1.pending.len() <= a.capacity
            &&& s1.in_bytes == s.in_bytes + sum_of(events, event_inbound())
            &&& s1.out_bytes == s.out_bytes + sum_of(events, event_outbound())
            &&& s1.recv_total() + pending_total(a1.pending, Direction::Inbound) == s.in_bytes
                + sum_of(events, event_inbound())
            &&& s1.sent_total() + pending_total(a1.pending, Direction::Outbound) == s.out_bytes
                + sum_of(events, event_outbound())
            &&& grown_from(s, s1)
        }),
    decreases events.len(),
{
    if events.len() == 0 {
        lemma_grown_refl(s);
    } else {
        let e = events[0];
        let rest = events.drop_first();
        lemma_sum_drop_first(events, event_inbound());
        lemma_sum_drop_first(events, event_outbound());
        lemma_sum_nonneg(rest, event_inbound());
        lemma_sum_nonneg(rest, event_outbound());
        lemma_event(a, s, e);
        let (a1, s1) = spec_event(a, s, e);
        assert forall|k: int| 0 <= k < rest.len() implies event_flow_ok(#[trigger] rest[k]) by {
            assert(rest[k] == events[k + 1]);
        }
        every_run_keeps_the_books(a1, s1, rest);
        lemma_grown_trans(s, s1, spec_run(a1, s1, rest).1);
    }
}

} // verus!
