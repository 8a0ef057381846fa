use vstd::prelude::*;

use crate::deadline::Deadline;
use crate::error::ErrorKind;
use crate::lump::{LumpData, LumpId};
use crate::storage::LumpHeader;

verus! {

/// The storage operation a command asks for.
#[derive(Debug)]
pub enum Operation {
    Put { id: LumpId, data: LumpData },
    Get { id: LumpId },
    Head { id: LumpId },
    Delete { id: LumpId },
    DeleteRange { start: LumpId, end: LumpId },
    List,
    ListRange { start: LumpId, end: LumpId },
    UsageRange { start: LumpId, end: LumpId },
    JournalSync,
    WaitForRunning,
    Stop,
}

/// One unit of work for a device.
#[derive(Debug)]
pub struct Command {
    pub op: Operation,
    pub deadline: Deadline,
    /// Bypasses every overload reaction.
    pub prioritized: bool,
    /// Held until the device is running, instead of failing while it starts.
    pub wait_for_running: bool,
    /// Flushes the journal before the result of a mutating operation is given.
    pub journal_sync: bool,
}

/// What a completed command returns.
#[derive(Debug, PartialEq, Eq)]
pub enum Output {
    Put(bool),
    Get(Option<Vec<u8>>),
    Head(Option<LumpHeader>),
    Delete(bool),
    DeleteRange(Vec<LumpId>),
    List(Vec<LumpId>),
    Usage(u64),
    Done,
}

/// The result of the command submitted under `ticket`.
#[derive(Debug, PartialEq, Eq)]
pub struct Reply {
    pub ticket: u64,
    pub result: Result<Output, ErrorKind>,
}

/// A builder of commands: modifiers first, then one terminal operation.
#[derive(Clone, Copy, Debug, PartialEq, Eq, Structural)]
pub struct DeviceRequest {
    pub deadline: Deadline,
    pub prioritized: bool,
    pub wait_for_running: bool,
    pub journal_sync: bool,
}

pub open spec fn command_of(req: DeviceRequest, op: Operation) -> Command {
    Command {
        op,
        deadline: req.deadline,
        prioritized: req.prioritized,
        wait_for_running: req.wait_for_running,
        journal_sync: req.journal_sync,
    }
}

impl DeviceRequest {
    /// A request with an infinite deadline and no modifier set.
    pub fn new() -> (r: DeviceRequest)
        ensures
            r == (DeviceRequest {
                deadline: Deadline::Infinity,
                prioritized: false,
                wait_for_running: false,
                journal_sync: false,
            }),
    {
        DeviceRequest {
            deadline: Deadline::Infinity,
            prioritized: false,
            wait_for_running: false,
            journal_sync: false,
        }
    }

    pub fn deadline(self, deadline: Deadline) -> (r: DeviceRequest)
        ensures
            r == (DeviceRequest { deadline, ..self }),
    {
        DeviceRequest { deadline, ..self }
    }

    pub fn prioritized(self) -> (r: DeviceRequest)
        ensures
            r == (DeviceRequest { prioritized: true, ..self }),
    {
        DeviceRequest { prioritized: true, ..self }
    }

    pub fn wait_for_running(self) -> (r: DeviceRequest)
        ensures
            r == (DeviceRequest { wait_for_running: true, ..self }),
    {
        DeviceRequest { wait_for_running: true, ..self }
    }

    pub fn journal_sync(self) -> (r: DeviceRequest)
        ensures
            r == (DeviceRequest { journal_sync: true, ..self }),
    {
        DeviceRequest { journal_sync: true, ..self }
    }

    fn build(self, op: Operation) -> (r: Command)
        ensures
            r == command_of(self, op),
    {
        Command {
            op,
            deadline: self.deadline,
            prioritized: self.prioritized,
            wait_for_running: self.wait_for_running,
            journal_sync: self.journal_sync,
        }
    }

    pub fn put(self, id: LumpId, data: LumpData) -> (r: Command)
        ensures
            r == command_of(self, Operation::Put { id, data }),
    {
        self.build(Operation::Put { id, data })
    }

    pub fn get(self, id: LumpId) -> (r: Command)
        ensures
            r == command_of(self, Operation::Get { id }),
    {
        self.build(Operation::Get { id })
    }

    pub fn head(self, id: LumpId) -> (r: Command)
        ensures
            r == command_of(self, Operation::Head { id }),
    {
        self.build(Operation::Head { id })
    }

    pub fn delete(self, id: LumpId) -> (r: Command)
        ensures
            r == command_of(self, Operation::Delete { id }),
    {
        self.build(Operation::Delete { id })
    }

    pub fn delete_range(self, start: LumpId, end: LumpId) -> (r: Command)
        ensures
            r == command_of(self, Operation::DeleteRange { start, end }),
    {
        self.build(Operation::DeleteRange { start, end })
    }

    pub fn list(self) -> (r: Command)
        ensures
            r == command_of(self, Operation::List),
    {
        self.build(Operation::List)
    }

    pub fn list_range(self, start: LumpId, end: LumpId) -> (r: Command)
        ensures
            r == command_of(self, Operation::ListRange { start, end }),
    {
        self.build(Operation::ListRange { start, end })
    }

    pub fn usage_range(self, start: LumpId, end: LumpId) -> (r: Command)
        ensures
            r == command_of(self, Operation::UsageRange { start, end }),
    {
        self.build(Operation::UsageRange { start, end })
    }

    /// A standalone journal flush.
    pub fn journal_sync_now(self) -> (r: Command)
        ensures
            r == command_of(self, Operation::JournalSync),
    {
        self.build(Operation::JournalSync)
    }

    /// Completes once the device is running.
    pub fn wait_until_running(self) -> (r: Command)
        ensures
            r == command_of(DeviceRequest { wait_for_running: true, ..self }, Operation::WaitForRunning),
    {
        self.wait_for_running().build(Operation::WaitForRunning)
    }

    pub fn stop(self) -> (r: Command)
        ensures
            r == command_of(self, Operation::Stop),
    {
        self.build(Operation::Stop)
    }
}

} // verus!
