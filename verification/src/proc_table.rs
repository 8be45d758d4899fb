//! The table of local sockets and the processes that own them.

use vstd::prelude::*;

use crate::net::{IpAddress, LocalSocket, TransportProtocol};
use crate::stats::{clone_opt_string, opt_seq, ObservedProcess, ProcessView};
use crate::text::contains_seq;

verus! {

/// A socket the operating system reports, with the process that owns it.
#[derive(Debug)]
pub struct ListenerRecord {
    pub ip: IpAddress,
    pub port: u16,
    pub protocol: TransportProtocol,
    pub pid: u32,
    /// Executable path; empty when the system did not give one.
    pub path: String,
}

/// The process found for a socket: id and display name.
#[derive(Debug)]
pub struct ProcInfo {
    pub pid: u32,
    pub name: Option<String>,
    pub path: Option<String>,
}

impl View for ProcInfo {
    type V = ProcessView;

    open spec fn view(&self) -> ProcessView {
        ProcessView { pid: self.pid, name: opt_seq(self.name), path: opt_seq(self.path) }
    }
}

/// Why a socket lookup found no single process.
#[derive(Clone, Copy, Debug, PartialEq, Eq, Structural)]
pub enum MissReason {
    /// No process owns the socket.
    NotFound,
    /// Several processes own the socket.
    Ambiguous,
    /// The table is out of date: its refresh failed or it expired.
    Stale,
}

/// Result of a socket lookup.
#[derive(Debug)]
pub enum LookupOutcome {
    /// Exactly one process owns the socket; `v4_mapped` when it was found
    /// under the IPv4-mapped IPv6 form of the address.
    Hit { process: ObservedProcess, v4_mapped: bool },
    Miss(MissReason),
}

pub ghost enum LookupView {
    Hit(ProcessView, bool),
    Miss(MissReason),
}

impl View for LookupOutcome {
    type V = LookupView;

    open spec fn view(&self) -> LookupView {
        match self {
            LookupOutcome::Hit { process, v4_mapped } => LookupView::Hit(process@, *v4_mapped),
            LookupOutcome::Miss(r) => LookupView::Miss(*r),
        }
    }
}

/// Process association table, rebuilt periodically from the system's socket list.
#[derive(Debug)]
pub struct ProcTable {
    entries: Vec<(LocalSocket, ProcInfo)>,
    generation: u64,
    fresh: bool,
}

pub ghost struct ProcTableView {
    pub entries: Seq<(LocalSocket, ProcessView)>,
    /// Counts the tables published so far.
    pub generation: u64,
    /// Whether the table is current (false after a failed refresh or expiry).
    pub fresh: bool,
}

impl View for ProcTable {
    type V = ProcTableView;

    closed spec fn view(&self) -> ProcTableView {
        ProcTableView {
            entries: self.entries@.map_values(|e: (LocalSocket, ProcInfo)| (e.0, e.1@)),
            generation: self.generation,
            fresh: self.fresh,
        }
    }
}

/// The processes that own `socket` in `entries`, in table order.
pub open spec fn owners(entries: Seq<(LocalSocket, ProcessView)>, socket: LocalSocket) -> Seq<
    ProcessView,
>
    decreases entries.len(),
{
    if entries.len() == 0 {
        Seq::empty()
    } else if entries.last().0 == socket {
        owners(entries.drop_last(), socket).push(entries.last().1)
    } else {
        owners(entries.drop_last(), socket)
    }
}

/// The IPv4-mapped IPv6 form (::ffff:a.b.c.d) of an IPv4 address.
pub open spec fn v4_mapped(ip: IpAddress) -> Option<IpAddress> {
    match ip {
        IpAddress::V4(v) => Some(IpAddress::V6((0xffff_0000_0000u128 + v as u128) as u128)),
        IpAddress::V6(_) => None,
    }
}

/// The single process among `owners`, or why there is none.
pub open spec fn single_owner(owners: Seq<ProcessView>, mapped: bool) -> LookupView {
    if owners.len() == 0 {
        LookupView::Miss(MissReason::NotFound)
    } else if forall|i: int| 0 <= i < owners.len() ==> #[trigger] owners[i].pid == owners[0].pid {
        LookupView::Hit(owners[0], mapped)
    } else {
        LookupView::Miss(MissReason::Ambiguous)
    }
}

/// Lookup of a socket: a stale table finds nothing; otherwise the owners of
/// the exact socket decide, and when there are none, the owners of the
/// IPv4-mapped form of an IPv4 address.
pub open spec fn spec_lookup(t: ProcTableView, socket: LocalSocket) -> LookupView {
    if !t.fresh {
        LookupView::Miss(MissReason::Stale)
    } else {
        let exact = owners(t.entries, socket);
        if exact.len() > 0 {
            single_owner(exact, false)
        } else {
            match v4_mapped(socket.ip) {
                Some(m) => single_owner(owners(t.entries, LocalSocket { ip: m, ..socket }), true),
                None => LookupView::Miss(MissReason::NotFound),
            }
        }
    }
}

/// Whether `s` holds no `/`.
pub open spec fn has_no_slash(s: Seq<char>) -> bool {
    forall|i: int| 0 <= i < s.len() ==> s[i] != '/'
}

/// Whether `s` holds no backslash. Without one, `/` separates the components of a
/// path on every platform.
pub open spec fn has_no_backslash(s: Seq<char>) -> bool {
    forall|i: int| 0 <= i < s.len() ==> s[i] != '\\'
}

/// The characters after the last `/` of `s` (all of `s` when it has none).
pub open spec fn last_segment(s: Seq<char>) -> Seq<char>
    decreases s.len(),
{
    if s.len() == 0 || s.last() == '/' {
        Seq::empty()
    } else {
        last_segment(s.drop_last()).push(s.last())
    }
}

/// A path whose final component every platform reads the same way: it holds
/// no `\` and no `:` (so no Windows prefix or second separator), and what
/// follows its last `/` is a normal name, not empty, `.` or `..`.
pub open spec fn plain_path(s: Seq<char>) -> bool {
    &&& forall|i: int| 0 <= i < s.len() ==> s[i] != '\\' && s[i] != ':'
    &&& last_segment(s).len() > 0
    &&& last_segment(s) != seq!['.']
    &&& last_segment(s) != seq!['.', '.']
}

/// The final component of a path, by `std::path::Path::file_name`
/// (`None` when the path ends in `..` or has no component). What is stated:
/// a component is a part of the path; in a path without a backslash it holds no
/// `/`; of a plain path (see [`plain_path`]) it is what follows the last
/// `/`. Which part it is for other paths follows the platform's path syntax
/// and is not stated.
#[verifier::external_body]
fn path_file_name(path: &str) -> (r: Option<String>)
    ensures
        r matches Some(n) ==> contains_seq(path@, n@) && (has_no_backslash(path@) ==> has_no_slash(
            n@,
        )),
        plain_path(path@) ==> r is Some && r->0@ == last_segment(path@),
{
    std::path::Path::new(path).file_name().and_then(|n| n.to_str()).map(|n| n.to_string())
}

/// The display name of an executable: the file name of its path, never empty.
pub fn executable_name(path: &str) -> (r: Option<String>)
    ensures
        r matches Some(n) ==> n@.len() > 0 && contains_seq(path@, n@) && (has_no_backslash(path@)
            ==> has_no_slash(n@)),
        path@.len() == 0 ==> r is None,
        plain_path(path@) ==> (r matches Some(n) && n@ == last_segment(path@)),
{
    if path.unicode_len() == 0 {
        return None;
    }
    match path_file_name(path) {
        Some(name) => {
            if name.as_str().unicode_len() == 0 {
                None
            } else {
                Some(name)
            }
        },
        None => None,
    }
}

fn v4_mapped_exec(ip: IpAddress) -> (r: Option<IpAddress>)
    ensures
        r == v4_mapped(ip),
{
    match ip {
        IpAddress::V4(v) => Some(IpAddress::V6(0xffff_0000_0000u128 + v as u128)),
        IpAddress::V6(_) => None,
    }
}

impl ProcTable {
    /// An empty, current table of generation 0.
    pub fn new() -> (r: ProcTable)
        ensures
            r@.entries.len() == 0,
            r@.generation == 0,
            r@.fresh,
    {
        let r = ProcTable { entries: Vec::new(), generation: 0, fresh: true };
        assert(r@.entries =~= Seq::<(LocalSocket, ProcessView)>::empty());
        r
    }

    /// A current table of generation 0 holding the given sockets, in order,
    /// each with its pid, its executable path when known, and the
    /// executable's file name as display name.
    pub fn from_records(records: Vec<ListenerRecord>) -> (r: ProcTable)
        ensures
            r@.generation == 0,
            r@.fresh,
            r@.entries.len() == records@.len(),
            forall|i: int|
                #![trigger r@.entries[i]]
                0 <= i < records@.len() ==> {
                    let rec = records@[i];
                    let e = r@.entries[i];
                    &&& e.0 == LocalSocket { ip: rec.ip, port: rec.port, protocol: rec.protocol }
                    &&& e.1.pid == rec.pid
                    &&& e.1.path == if rec.path@.len() == 0 {
                        None::<Seq<char>>
                    } else {
                        Some(rec.path@)
                    }
                    &&& (e.1.name matches Some(n) ==> n.len() > 0 && contains_seq(rec.path@, n)
                        && (has_no_backslash(rec.path@) ==> has_no_slash(n)))
                    &&& (rec.path@.len() == 0 ==> e.1.name is None)
                    &&& (plain_path(rec.path@) ==> e.1.name == Some(last_segment(rec.path@)))
                },
    {
        let mut table = ProcTable::new();
        let mut records = records;
        let ghost all = records@;
        let mut out: Vec<(LocalSocket, ProcInfo)> = Vec::new();
        let mut i: usize = 0;
        while i < records.len()
            invariant
                records@ == all,
                i <= all.len(),
                out@.len() == i,
                forall|k: int|
                    #![trigger out@[k]]
                    0 <= k < i ==> {
                        let rec = all[k];
                        let e = out@[k];
                        &&& e.0 == LocalSocket { ip: rec.ip, port: rec.port, protocol: rec.protocol }
                        &&& e.1@.pid == rec.pid
                        &&& e.1@.path == if rec.path@.len() == 0 {
                            None::<Seq<char>>
                        } else {
                            Some(rec.path@)
                        }
                        &&& (e.1@.name matches Some(n) ==> n.len() > 0 && contains_seq(
                            rec.path@,
                            n,
                        ) && (has_no_backslash(rec.path@) ==> has_no_slash(n)))
                        &&& (rec.path@.len() == 0 ==> e.1@.name is None)
                        &&& (plain_path(rec.path@) ==> e.1@.name == Some(last_segment(rec.path@)))
                    },
            decreases all.len() - i,
        {
            let rec = &records[i];
            let name = executable_name(rec.path.as_str());
            let path = if rec.path.as_str().unicode_len() == 0 {
                None
            } else {
                Some(rec.path.clone())
            };
            out.push(
                (
                    LocalSocket { ip: rec.ip, port: rec.port, protocol: rec.protocol },
                    ProcInfo { pid: rec.pid, name, path },
                ),
            );
            i += 1;
        }
        table.entries = out;
        table
    }

    /// The generation of this table.
    pub fn generation(&self) -> (r: u64)
        ensures
            r == self@.generation,
    {
        self.generation
    }

    /// Whether the table is current.
    pub fn is_fresh(&self) -> (r: bool)
        ensures
            r == self@.fresh,
    {
        self.fresh
    }

    /// Replaces this table by `next`, publishing it as the next generation.
    pub fn publish(&mut self, next: ProcTable)
        ensures
            final(self)@ == (ProcTableView {
                generation: if old(self)@.generation == u64::MAX {
                    0
                } else {
                    (old(self)@.generation + 1) as u64
                },
                ..next@
            }),
    {
        let generation = self.generation.wrapping_add(1);
        *self = ProcTable { entries: next.entries, generation, fresh: next.fresh };
    }

    /// Adds one socket owner and publishes the result as the next generation.
    pub fn insert(
        &mut self,
        ip: IpAddress,
        port: u16,
        protocol: TransportProtocol,
        pid: u32,
        name: String,
        path: Option<String>,
    )
        ensures
            final(self)@.entries == old(self)@.entries.push(
                (
                    LocalSocket { ip, port, protocol },
                    ProcessView { pid, name: Some(name@), path: opt_seq(path) },
                ),
            ),
            final(self)@.fresh == old(self)@.fresh,
            final(self)@.generation == if old(self)@.generation == u64::MAX {
                0
            } else {
                (old(self)@.generation + 1) as u64
            },
    {
        let ghost before = self@.entries;
        self.entries.push(
            (LocalSocket { ip, port, protocol }, ProcInfo { pid, name: Some(name), path }),
        );
        self.generation = self.generation.wrapping_add(1);
        assert(self@.entries =~= before.push(
            (
                LocalSocket { ip, port, protocol },
                ProcessView { pid, name: Some(name@), path: opt_seq(path) },
            ),
        ));
    }

    /// Marks the table as out of date (a refresh failed, or its data expired).
    pub fn mark_stale(&mut self)
        ensures
            final(self)@ == (ProcTableView { fresh: false, ..old(self)@ }),
    {
        self.fresh = false;
    }

    fn owners_exec(&self, socket: LocalSocket) -> (r: (Option<usize>, bool))
        ensures
            ({
                let o = owners(self@.entries, socket);
                &&& (r.0 is None <==> o.len() == 0)
                &&& (r.0 matches Some(i) ==> i < self.entries@.len() && self.entries@[i as int].1@
                    == o[0])
                &&& r.1 == (o.len() > 0 && forall|k: int|
                    0 <= k < o.len() ==> #[trigger] o[k].pid == o[0].pid)
            }),
    {
        let ghost es = self@.entries;
        let mut first: Option<usize> = None;
        let mut same = true;
        let mut i: usize = 0;
        while i < self.entries.len()
            invariant
                i <= self.entries@.len(),
                es == self@.entries,
                es.len() == self.entries@.len(),
                forall|k: int| 0 <= k < es.len() ==> #[trigger] es[k] == (self.entries@[k].0, self.entries@[k].1@),
                ({
                    let o = owners(es.subrange(0, i as int), socket);
                    &&& (first is None <==> o.len() == 0)
                    &&& (first matches Some(f) ==> f < self.entries@.len() && self.entries@[f as int].1@ == o[0])
                    &&& (o.len() > 0 ==> (same == forall|k: int|
                        0 <= k < o.len() ==> #[trigger] o[k].pid == o[0].pid))
                }),
            decreases self.entries@.len() - i,
        {
            proof {
                assert(es.subrange(0, i + 1).drop_last() =~= es.subrange(0, i as int));
                assert(es.subrange(0, i + 1).last() == es[i as int]);
            }
            if self.entries[i].0 == socket {
                let ghost o_prev = owners(es.subrange(0, i as int), socket);
                let ghost o = owners(es.subrange(0, i + 1), socket);
                match first {
                    None => {
                        first = Some(i);
                        same = true;
                        proof {
                            assert(o =~= seq![es[i as int].1]);
                        }
                    },
                    Some(f) => {
                        let pid_here = self.entries[i].1.pid;
                        let pid_first = self.entries[f].1.pid;
                        let ghost old_same = same;
                        same = same && pid_here == pid_first;
                        proof {
                            assert(o == o_prev.push(es[i as int].1));
                            assert(o[0] == o_prev[0]);
                            assert(o[o.len() - 1] == es[i as int].1);
                            if same {
                                assert forall|k: int| 0 <= k < o.len() implies #[trigger] o[k].pid
                                    == o[0].pid by {
                                    if k < o_prev.len() {
                                        assert(o[k] == o_prev[k]);
                                    }
                                }
                            } else if old_same {
                                assert(o[o.len() - 1].pid != o[0].pid);
                            } else {
                                let w = choose|k: int|
                                    0 <= k < o_prev.len() && #[trigger] o_prev[k].pid != o_prev[0].pid;
                                assert(o[w] == o_prev[w]);
                            }
                        }
                    },
                }
            }
            i += 1;
        }
        assert(es.subrange(0, es.len() as int) =~= es);
        let all_same = first.is_some() && same;
        (first, all_same)
    }

    fn outcome_for(&self, socket: LocalSocket, mapped: bool) -> (r: Option<LookupOutcome>)
        ensures
            match r {
                None => owners(self@.entries, socket).len() == 0,
                Some(o) => owners(self@.entries, socket).len() > 0 && o@ == single_owner(
                    owners(self@.entries, socket),
                    mapped,
                ),
            },
    {
        let (first, same) = self.owners_exec(socket);
        match first {
            None => None,
            Some(f) => {
                if same {
                    let info = &self.entries[f].1;
                    let process = ObservedProcess {
                        pid: info.pid,
                        name: clone_opt_string(&info.name),
                        path: clone_opt_string(&info.path),
                    };
                    Some(LookupOutcome::Hit { process, v4_mapped: mapped })
                } else {
                    Some(LookupOutcome::Miss(MissReason::Ambiguous))
                }
            },
        }
    }

    /// Finds the single process that owns a local socket.
    pub fn lookup_outcome(&self, ip: IpAddress, port: u16, protocol: TransportProtocol) -> (r:
        LookupOutcome)
        ensures
            r@ == spec_lookup(self@, LocalSocket { ip, port, protocol }),
    {
        if !self.fresh {
            return LookupOutcome::Miss(MissReason::Stale);
        }
        let socket = LocalSocket { ip, port, protocol };
        match self.outcome_for(socket, false) {
            Some(o) => o,
            None => match v4_mapped_exec(ip) {
                Some(m) => match self.outcome_for(LocalSocket { ip: m, port, protocol }, true) {
                    Some(o) => o,
                    None => LookupOutcome::Miss(MissReason::NotFound),
                },
                None => LookupOutcome::Miss(MissReason::NotFound),
            },
        }
    }

    /// The process that owns a local socket, when there is exactly one.
    pub fn lookup(&self, ip: IpAddress, port: u16, protocol: TransportProtocol) -> (r: Option<
        ObservedProcess,
    >)
        ensures
            match spec_lookup(self@, LocalSocket { ip, port, protocol }) {
                LookupView::Hit(p, _) => r matches Some(q) && q@ == p,
                LookupView::Miss(_) => r is None,
            },
    {
        match self.lookup_outcome(ip, port, protocol) {
            LookupOutcome::Hit { process, .. } => Some(process),
            LookupOutcome::Miss(_) => None,
        }
    }
}

} // verus!
