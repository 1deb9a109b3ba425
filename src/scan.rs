use vstd::prelude::*;

use crate::ranges::{covered, in_any_range, PortRange};

verus! {

/// The state of a TCP socket, as far as a scan cares.
#[derive(Clone, Copy, Debug, PartialEq, Eq, Structural)]
pub enum SocketState {
    /// Waiting for incoming connections.
    Listen,
    /// Any other state: connecting, connected, closing.
    Other,
}

/// One TCP socket of the operating system's socket table.
#[derive(Clone, Debug, PartialEq, Eq)]
pub struct SocketRecord {
    pub local_port: u16,
    pub state: SocketState,
    /// The processes that own the socket: usually one, possibly none or several.
    pub owning_pids: Vec<u32>,
}

/// One process of the operating system's process table.
#[derive(Clone, Debug, PartialEq, Eq)]
pub struct ProcessRecord {
    pub pid: u32,
    pub name: String,
    pub run_time_seconds: u64,
}

/// A listening socket joined with what is known of one of its owners.
///
/// `process_name` and `started_seconds_ago` are `None` when the owner was not
/// found in the process table.
#[derive(Clone, Debug, PartialEq, Eq)]
pub struct ListenerInfo {
    pub port: u16,
    pub pid: u32,
    pub process_name: Option<String>,
    pub started_seconds_ago: Option<u64>,
}

/// What a proof sees of a `SocketRecord`.
pub struct SocketModel {
    pub local_port: u16,
    pub state: SocketState,
    pub owning_pids: Seq<u32>,
}

/// What a proof sees of a `ProcessRecord`.
pub struct ProcessModel {
    pub pid: u32,
    pub name: Seq<char>,
    pub run_time_seconds: u64,
}

/// What a proof sees of a `ListenerInfo`.
pub struct ListenerModel {
    pub port: u16,
    pub pid: u32,
    pub process_name: Option<Seq<char>>,
    pub started_seconds_ago: Option<u64>,
}

impl View for SocketRecord {
    type V = SocketModel;

    open spec fn view(&self) -> SocketModel {
        SocketModel {
            local_port: self.local_port,
            state: self.state,
            owning_pids: self.owning_pids@,
        }
    }
}

impl View for ProcessRecord {
    type V = ProcessModel;

    open spec fn view(&self) -> ProcessModel {
        ProcessModel { pid: self.pid, name: self.name@, run_time_seconds: self.run_time_seconds }
    }
}

impl View for ListenerInfo {
    type V = ListenerModel;

    open spec fn view(&self) -> ListenerModel {
        ListenerModel {
            port: self.port,
            pid: self.pid,
            process_name: match self.process_name {
                Some(n) => Some(n@),
                None => None,
            },
            started_seconds_ago: self.started_seconds_ago,
        }
    }
}

pub open spec fn socket_models(s: Seq<SocketRecord>) -> Seq<SocketModel> {
    s.map_values(|x: SocketRecord| x@)
}

pub open spec fn process_models(s: Seq<ProcessRecord>) -> Seq<ProcessModel> {
    s.map_values(|x: ProcessRecord| x@)
}

pub open spec fn listener_models(s: Seq<ListenerInfo>) -> Seq<ListenerModel> {
    s.map_values(|x: ListenerInfo| x@)
}

/// Whether `i` is the first position of the process table that holds `pid`.
pub open spec fn first_with_pid(procs: Seq<ProcessModel>, pid: u32, i: int) -> bool {
    &&& 0 <= i < procs.len()
    &&& procs[i].pid == pid
    &&& forall|j: int| 0 <= j < i ==> (#[trigger] procs[j]).pid != pid
}

/// The process that `pid` names in the table: its first entry with that pid.
pub open spec fn lookup(procs: Seq<ProcessModel>, pid: u32) -> Option<ProcessModel> {
    if exists|i: int| first_with_pid(procs, pid, i) {
        Some(procs[choose|i: int| first_with_pid(procs, pid, i)])
    } else {
        None
    }
}

/// The record for one owner `pid` of a listening socket on `port`.
pub open spec fn record_for(port: u16, pid: u32, procs: Seq<ProcessModel>) -> ListenerModel {
    match lookup(procs, pid) {
        Some(p) => ListenerModel {
            port,
            pid,
            process_name: Some(p.name),
            started_seconds_ago: Some(p.run_time_seconds),
        },
        None => ListenerModel { port, pid, process_name: None, started_seconds_ago: None },
    }
}

/// Whether a socket is reported at all: it listens, on a port that the ranges cover.
pub open spec fn selected(s: SocketModel, ranges: Seq<PortRange>) -> bool {
    s.state == SocketState::Listen && covered(s.local_port, ranges)
}

/// The records that one socket yields: one per owner, in the owners' order.
pub open spec fn socket_listeners(
    s: SocketModel,
    ranges: Seq<PortRange>,
    procs: Seq<ProcessModel>,
) -> Seq<ListenerModel> {
    if selected(s, ranges) {
        s.owning_pids.map_values(|pid: u32| record_for(s.local_port, pid, procs))
    } else {
        seq![]
    }
}

/// The records of a whole socket table, socket after socket.
pub open spec fn listeners(
    sockets: Seq<SocketModel>,
    ranges: Seq<PortRange>,
    procs: Seq<ProcessModel>,
) -> Seq<ListenerModel>
    decreases sockets.len(),
{
    if sockets.len() == 0 {
        seq![]
    } else {
        listeners(sockets.drop_last(), ranges, procs) + socket_listeners(
            sockets.last(),
            ranges,
            procs,
        )
    }
}

/// Finds the first entry of the process table with the given pid.
fn find_process(processes: &[ProcessRecord], pid: u32) -> (r: Option<&ProcessRecord>)
    ensures
        match r {
            Some(p) => lookup(process_models(processes@), pid) == Some(p@),
            None => lookup(process_models(processes@), pid) is None,
        },
{
    let ghost procs = process_models(processes@);
    let mut i: usize = 0;
    while i < processes.len()
        invariant
            0 <= i <= processes@.len(),
            procs == process_models(processes@),
            forall|j: int| 0 <= j < i ==> (#[trigger] procs[j]).pid != pid,
        decreases processes@.len() - i,
    {
        if processes[i].pid == pid {
            proof {
                assert(first_with_pid(procs, pid, i as int));
                let k = choose|k: int| first_with_pid(procs, pid, k);
                if k < i {
                    assert(procs[k].pid != pid);
                } else if k > i {
                    assert(procs[i as int].pid != pid);
                }
            }
            return Some(&processes[i]);
        }
        i += 1;
    }
    None
}

/// Builds the record for one owner of a listening socket, from the process table.
fn listener_for(port: u16, pid: u32, processes: &[ProcessRecord]) -> (r: ListenerInfo)
    ensures
        r@ == record_for(port, pid, process_models(processes@)),
{
    match find_process(processes, pid) {
        Some(p) => ListenerInfo {
            port,
            pid,
            process_name: Some(p.name.clone()),
            started_seconds_ago: Some(p.run_time_seconds),
        },
        None => ListenerInfo { port, pid, process_name: None, started_seconds_ago: None },
    }
}

/// Joins the listening sockets whose port lies in one of `ranges` with the
/// process table: one record per socket and owner, in the socket table's
/// order. An owner missing from the process table gets a record without name
/// and uptime; a socket without owners yields nothing.
pub fn correlate(
    ranges: &[PortRange],
    sockets: &[SocketRecord],
    processes: &[ProcessRecord],
) -> (r: Vec<ListenerInfo>)
    ensures
        listener_models(r@) == listeners(
            socket_models(sockets@),
            ranges@,
            process_models(processes@),
        ),
{
    let ghost socks = socket_models(sockets@);
    let ghost procs = process_models(processes@);
    let mut out: Vec<ListenerInfo> = Vec::new();
    let mut i: usize = 0;
    while i < sockets.len()
        invariant
            0 <= i <= sockets@.len(),
            socks == socket_models(sockets@),
            procs == process_models(processes@),
            listener_models(out@) == listeners(socks.take(i as int), ranges@, procs),
        decreases sockets@.len() - i,
    {
        let socket = &sockets[i];
        proof {
            assert(socks.take(i + 1).drop_last() =~= socks.take(i as int));
        }
        if socket.state == SocketState::Listen && in_any_range(socket.local_port, ranges) {
            let ghost before = listener_models(out@);
            let ghost all = socket_listeners(socket@, ranges@, procs);
            let mut k: usize = 0;
            while k < socket.owning_pids.len()
                invariant
                    0 <= i < sockets@.len(),
                    socket == &sockets@[i as int],
                    selected(socket@, ranges@),
                    0 <= k <= socket.owning_pids@.len(),
                    procs == process_models(processes@),
                    all == socket_listeners(socket@, ranges@, procs),
                    listener_models(out@) == before + all.take(k as int),
                decreases socket.owning_pids@.len() - k,
            {
                let rec = listener_for(socket.local_port, socket.owning_pids[k], processes);
                let ghost prev = out@;
                out.push(rec);
                proof {
                    assert(listener_models(out@) =~= listener_models(prev).push(rec@));
                    assert(all.take(k + 1) =~= all.take(k as int).push(rec@));
                }
                k += 1;
            }
            proof {
                assert(all.take(k as int) =~= all);
            }
        } else {
            proof {
                assert(socket_listeners(socket@, ranges@, procs) =~= seq![]);
                assert(listener_models(out@) =~= listener_models(out@) + seq![]);
            }
        }
        i += 1;
    }
    proof {
        assert(socks.take(i as int) =~= socks);
    }
    out
}

/// Why a scan failed.
#[derive(Clone, Debug, PartialEq, Eq)]
pub enum ScanError {
    /// The operating system refused or failed to list its sockets; the text
    /// is the system's own message.
    SystemQuery(String),
}

/// What a scan has learnt from the operating system so far.
pub enum ScanEvent {
    /// The caller asks for a scan.
    Start,
    /// The socket table was read, or reading it failed.
    Sockets(Result<Vec<SocketRecord>, ScanError>),
    /// The process table was read, after the given socket table.
    Processes(Vec<SocketRecord>, Vec<ProcessRecord>),
}

/// What the caller is to do next.
pub enum ScanAction {
    /// Read the socket table (TCP, IPv4 and IPv6 together).
    ReadSockets,
    /// Read the process table, then hand back these sockets with it.
    ReadProcesses(Vec<SocketRecord>),
    /// The scan is over, with this result.
    Reply(Result<Vec<ListenerInfo>, ScanError>),
}

/// Decides the next step of a scan of `ranges`.
///
/// No table is read for an empty list of ranges; a failed socket read ends
/// the scan before the process table is read; once both tables are in, the
/// answer is their join by `correlate`.
pub fn scan_step(ranges: &Vec<PortRange>, event: ScanEvent) -> (r: ScanAction)
    ensures
        match event {
            ScanEvent::Start => if ranges@.len() == 0 {
                r matches ScanAction::Reply(Ok(v)) && v@.len() == 0
            } else {
                r is ReadSockets
            },
            ScanEvent::Sockets(Err(e)) => r == ScanAction::Reply(Err(e)),
            ScanEvent::Sockets(Ok(s)) => r == ScanAction::ReadProcesses(s),
            ScanEvent::Processes(s, p) => r matches ScanAction::Reply(Ok(v)) && listener_models(v@)
                == listeners(socket_models(s@), ranges@, process_models(p@)) && forall|i: int|
                0 <= i < v@.len() ==> covered(#[trigger] v@[i].port, ranges@),
        },
{
    match event {
        ScanEvent::Start => {
            if ranges.len() == 0 {
                ScanAction::Reply(Ok(Vec::new()))
            } else {
                ScanAction::ReadSockets
            }
        },
        ScanEvent::Sockets(Err(e)) => ScanAction::Reply(Err(e)),
        ScanEvent::Sockets(Ok(s)) => ScanAction::ReadProcesses(s),
        ScanEvent::Processes(s, p) => {
            let v = correlate(ranges.as_slice(), s.as_slice(), p.as_slice());
            proof {
                lemma_listeners_in_ranges(socket_models(s@), ranges@, process_models(p@));
                assert forall|i: int| 0 <= i < v@.len() implies covered(
                    #[trigger] v@[i].port,
                    ranges@,
                ) by {
                    assert(listener_models(v@)[i] == v@[i]@);
                }
            }
            ScanAction::Reply(Ok(v))
        },
    }
}

/// Every record of a scan has a port that lies in at least one of the ranges.
pub proof fn lemma_listeners_in_ranges(
    sockets: Seq<SocketModel>,
    ranges: Seq<PortRange>,
    procs: Seq<ProcessModel>,
)
    ensures
        forall|i: int|
            0 <= i < listeners(sockets, ranges, procs).len() ==> covered(
                (#[trigger] listeners(sockets, ranges, procs)[i]).port,
                ranges,
            ),
    decreases sockets.len(),
{
    if sockets.len() > 0 {
        lemma_listeners_in_ranges(sockets.drop_last(), ranges, procs);
        let front = listeners(sockets.drop_last(), ranges, procs);
        let back = socket_listeners(sockets.last(), ranges, procs);
        assert forall|i: int| 0 <= i < listeners(sockets, ranges, procs).len() implies covered(
            (#[trigger] listeners(sockets, ranges, procs)[i]).port,
            ranges,
        ) by {
            if i >= front.len() {
                assert(back[i - front.len()].port == sockets.last().local_port);
            } else {
                assert(front[i] == listeners(sockets, ranges, procs)[i]);
            }
        }
    }
}

/// Writing any one range with its bounds swapped gives the same scan result.
pub proof fn lemma_swapped_range_same_listeners(
    sockets: Seq<SocketModel>,
    ranges: Seq<PortRange>,
    procs: Seq<ProcessModel>,
    k: int,
)
    requires
        0 <= k < ranges.len(),
    ensures
        listeners(sockets, ranges.update(k, ranges[k].swapped()), procs) == listeners(
            sockets,
            ranges,
            procs,
        ),
    decreases sockets.len(),
{
    if sockets.len() > 0 {
        lemma_swapped_range_same_listeners(sockets.drop_last(), ranges, procs, k);
        crate::ranges::lemma_swapped_covered(ranges, k, sockets.last().local_port);
        let swapped = ranges.update(k, ranges[k].swapped());
        assert(socket_listeners(sockets.last(), swapped, procs) == socket_listeners(
            sockets.last(),
            ranges,
            procs,
        ));
    }
}

/// A listening socket in range whose owner is absent from the process table
/// yields, for that owner, a record with the owner's pid and with neither
/// name nor uptime.
pub proof fn lemma_missing_owner(
    socket: SocketModel,
    ranges: Seq<PortRange>,
    procs: Seq<ProcessModel>,
    k: int,
)
    requires
        selected(socket, ranges),
        0 <= k < socket.owning_pids.len(),
        forall|j: int| 0 <= j < procs.len() ==> (#[trigger] procs[j]).pid != socket.owning_pids[k],
    ensures
        listeners(seq![socket], ranges, procs)[k] == (ListenerModel {
            port: socket.local_port,
            pid: socket.owning_pids[k],
            process_name: None,
            started_seconds_ago: None,
        }),
{
    lemma_single_socket(socket, ranges, procs);
    if exists|i: int| first_with_pid(procs, socket.owning_pids[k], i) {
        let i = choose|i: int| first_with_pid(procs, socket.owning_pids[k], i);
        assert(procs[i].pid != socket.owning_pids[k]);
    }
}

/// A listening socket in range yields exactly one record per owner, each on
/// the socket's port and with that owner's pid, in the owners' order.
pub proof fn lemma_one_record_per_owner(
    socket: SocketModel,
    ranges: Seq<PortRange>,
    procs: Seq<ProcessModel>,
)
    requires
        selected(socket, ranges),
    ensures
        listeners(seq![socket], ranges, procs).len() == socket.owning_pids.len(),
        forall|k: int|
            0 <= k < socket.owning_pids.len() ==> (#[trigger] listeners(
                seq![socket],
                ranges,
                procs,
            )[k]).port == socket.local_port && listeners(seq![socket], ranges, procs)[k].pid
                == socket.owning_pids[k],
{
    lemma_single_socket(socket, ranges, procs);
}

/// A table of one socket yields exactly that socket's records.
proof fn lemma_single_socket(socket: SocketModel, ranges: Seq<PortRange>, procs: Seq<ProcessModel>)
    ensures
        listeners(seq![socket], ranges, procs) == socket_listeners(socket, ranges, procs),
{
    let one = seq![socket];
    assert(one.drop_last() =~= Seq::<SocketModel>::empty());
    assert(one.last() == socket);
    assert(listeners(one.drop_last(), ranges, procs) == Seq::<ListenerModel>::empty());
    assert(Seq::<ListenerModel>::empty() + socket_listeners(socket, ranges, procs)
        =~= socket_listeners(socket, ranges, procs));
}

/// Two scans of the same ranges over the same tables give the same records.
pub proof fn lemma_scan_repeatable(
    ranges: Seq<PortRange>,
    sockets: Seq<SocketRecord>,
    processes: Seq<ProcessRecord>,
    first: Seq<ListenerInfo>,
    second: Seq<ListenerInfo>,
)
    requires
        listener_models(first) == listeners(socket_models(sockets), ranges, process_models(processes)),
        listener_models(second) == listeners(
            socket_models(sockets),
            ranges,
            process_models(processes),
        ),
    ensures
        listener_models(first) == listener_models(second),
        listener_models(first).to_set() == listener_models(second).to_set(),
{
}

} // verus!
