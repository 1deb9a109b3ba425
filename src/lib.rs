//! Finds the processes that listen on TCP ports within given ranges, and
//! decides how a process is terminated.
//!
//! The operating-system work (reading the socket and process tables, running
//! the termination commands) is done by the caller; this library holds the
//! filtering, the join and the escalation rules, each with a proved contract.

pub mod ranges;
pub mod scan;
pub mod terminate;

pub use ranges::{in_any_range, PortRange};
pub use scan::{correlate, scan_step, ListenerInfo, ProcessRecord, ScanAction, ScanError, ScanEvent, SocketRecord, SocketState};
pub use terminate::{kill_step, KillAction, KillError, KillEvent, KillPhase, Signal, Strategy};
