//! The network worker's decisions. The worker owns the one live connection and
//! runs one request at a time; it performs each `DeviceOp` this module hands
//! out and hands back the outcome.
use vstd::prelude::*;

use crate::enums::{CellType, ModbusCommandQueue, SelectedTopTab};
use crate::geometry::ADDRESS_LIMIT;
use crate::macro_parser::writable_command;
use crate::utils::{ModbusReadCommand, ModbusWriteCommand};

verus! {

/// One protocol operation against the device.
#[derive(Clone, Copy, Debug, PartialEq, Eq, Structural)]
pub enum DeviceOp {
    ReadCoils(u16, u16),
    ReadDiscreteInputs(u16, u16),
    ReadInputRegisters(u16, u16),
    ReadHoldingRegisters(u16, u16),
    WriteSingleCoil(u16, bool),
    WriteSingleRegister(u16, u16),
}

/// What came of one operation: the values read (bits as 0 or 1, nothing for a
/// write), a rejection by the device, or a failure of the transport.
#[derive(Clone, Debug, PartialEq, Eq)]
pub enum OpOutcome {
    Completed(Vec<u16>),
    Rejected(String),
    TransportFailed(String),
}

/// Failures the worker reports. A lost connection ends the session; a
/// rejection by the device leaves the connection open.
#[derive(Clone, Debug, PartialEq, Eq)]
pub enum ModbusError {
    ConnectionLost(String),
    ProtocolError(String),
}

/// The single message a finished request produces.
#[derive(Clone, Debug, PartialEq, Eq)]
pub enum WorkerReport {
    /// All values read by a read request, to be recorded as confirmed values.
    Updates(Vec<ModbusWriteCommand>),
    /// Every command of a write request was carried out; these are the ones sent.
    Written(Vec<ModbusWriteCommand>),
    /// The request stopped at its first failure.
    Failed(ModbusError),
}

/// The operation that reads one batch.
pub open spec fn read_op(b: ModbusReadCommand) -> DeviceOp {
    match b.0 {
        SelectedTopTab::Coils => DeviceOp::ReadCoils(b.1, b.2),
        SelectedTopTab::DiscreteInputs => DeviceOp::ReadDiscreteInputs(b.1, b.2),
        SelectedTopTab::InputRegisters => DeviceOp::ReadInputRegisters(b.1, b.2),
        SelectedTopTab::HoldingRegisters => DeviceOp::ReadHoldingRegisters(b.1, b.2),
    }
}

/// The operation that carries out a writable command.
pub open spec fn write_op(c: ModbusWriteCommand) -> DeviceOp {
    match c.2 {
        CellType::Coil(b) => DeviceOp::WriteSingleCoil(c.1, b),
        CellType::Word(w) => DeviceOp::WriteSingleRegister(c.1, w),
    }
}

/// How many of `n` values read from `b` are kept: no more than asked for,
/// and none past the address range.
pub open spec fn kept_values(b: ModbusReadCommand, n: nat) -> nat {
    let by_count = if n <= b.2 {
        n
    } else {
        b.2 as nat
    };
    if b.1 + by_count <= ADDRESS_LIMIT {
        by_count
    } else {
        (ADDRESS_LIMIT - b.1) as nat
    }
}

/// The updates the values read for batch `b` give, address by address from its start.
pub open spec fn read_updates(b: ModbusReadCommand, values: Seq<u16>) -> Seq<ModbusWriteCommand> {
    Seq::new(
        kept_values(b, values.len()),
        |i: int| (b.0, (b.1 + i) as u16, b.0.word_value(values[i])),
    )
}

/// The first writable command at or after `from`, or the length when there is none.
pub open spec fn next_writable(cmds: Seq<ModbusWriteCommand>, from: int) -> int
    decreases cmds.len() - from,
{
    if from >= cmds.len() {
        cmds.len() as int
    } else if writable_command(cmds[from]) {
        from
    } else {
        next_writable(cmds, from + 1)
    }
}

proof fn lemma_next_writable(cmds: Seq<ModbusWriteCommand>, from: int)
    requires
        0 <= from <= cmds.len(),
    ensures
        from <= next_writable(cmds, from) <= cmds.len(),
        next_writable(cmds, from) < cmds.len() ==> writable_command(cmds[next_writable(cmds, from)]),
    decreases cmds.len() - from,
{
    if from < cmds.len() && !writable_command(cmds[from]) {
        lemma_next_writable(cmds, from + 1);
    }
}

fn find_writable(cmds: &Vec<ModbusWriteCommand>, from: usize) -> (r: usize)
    requires
        from <= cmds@.len(),
    ensures
        r == next_writable(cmds@, from as int),
        from <= r <= cmds@.len(),
        r < cmds@.len() ==> writable_command(cmds@[r as int]),
{
    proof {
        lemma_next_writable(cmds@, from as int);
    }
    let mut i = from;
    while i < cmds.len()
        invariant
            from <= i <= cmds@.len(),
            next_writable(cmds@, i as int) == next_writable(cmds@, from as int),
        decreases cmds@.len() - i,
    {
        let c = cmds[i];
        match c {
            (SelectedTopTab::Coils, _, CellType::Coil(_)) => return i,
            (SelectedTopTab::HoldingRegisters, _, CellType::Word(_)) => return i,
            _ => {},
        }
        i = i + 1;
    }
    i
}

/// One request being carried out.
pub struct WorkerJob {
    request: ModbusCommandQueue,
    position: usize,
    updates: Vec<ModbusWriteCommand>,
    written: Vec<ModbusWriteCommand>,
    failure: Option<ModbusError>,
}

/// Number of batches or commands in a request.
pub open spec fn request_len(q: ModbusCommandQueue) -> nat {
    match q {
        ModbusCommandQueue::Read(bs) => bs@.len(),
        ModbusCommandQueue::Write(cs) => cs@.len(),
    }
}

impl WorkerJob {
    pub closed spec fn request(&self) -> ModbusCommandQueue {
        self.request
    }

    /// Index of the next batch or command to carry out.
    pub closed spec fn position(&self) -> nat {
        self.position as nat
    }

    /// Updates gathered so far by a read request.
    pub closed spec fn updates(&self) -> Seq<ModbusWriteCommand> {
        self.updates@
    }

    /// Commands carried out so far by a write request.
    pub closed spec fn written(&self) -> Seq<ModbusWriteCommand> {
        self.written@
    }

    /// The failure that ended the request early, if any.
    pub closed spec fn failure(&self) -> Option<ModbusError> {
        self.failure
    }

    /// The position stays within the request, and in a write request it rests
    /// on a writable command or at the end.
    pub closed spec fn wf(&self) -> bool {
        &&& self.position <= request_len(self.request)
        &&& (self.request matches ModbusCommandQueue::Write(cs) ==> self.position == next_writable(
            cs@,
            self.position as int,
        ))
    }

    /// Finished: a failure was met, or nothing is left to carry out.
    pub open spec fn is_done(&self) -> bool {
        self.failure() is Some || self.position() >= request_len(self.request())
    }

    /// The operation due next, as long as the request is not finished.
    pub open spec fn spec_next(&self) -> Option<DeviceOp> {
        if self.is_done() {
            None
        } else {
            match self.request() {
                ModbusCommandQueue::Read(bs) => Some(read_op(bs@[self.position() as int])),
                ModbusCommandQueue::Write(cs) => Some(write_op(cs@[self.position() as int])),
            }
        }
    }

    /// Starts `request`; a write request starts at its first writable command.
    pub fn new(request: ModbusCommandQueue) -> (r: Self)
        ensures
            r.wf(),
            r.request() == request,
            r.failure() is None,
            r.updates() == Seq::<ModbusWriteCommand>::empty(),
            r.written() == Seq::<ModbusWriteCommand>::empty(),
            r.position() == (match request {
                ModbusCommandQueue::Read(_) => 0,
                ModbusCommandQueue::Write(cs) => next_writable(cs@, 0),
            }),
    {
        let position = match &request {
            ModbusCommandQueue::Read(_) => 0,
            ModbusCommandQueue::Write(cs) => find_writable(cs, 0),
        };
        WorkerJob {
            request,
            position,
            updates: Vec::new(),
            written: Vec::new(),
            failure: None,
        }
    }

    /// The next operation to perform, or `None` once the request is finished.
    pub fn next_op(&self) -> (r: Option<DeviceOp>)
        requires
            self.wf(),
        ensures
            r == self.spec_next(),
    {
        if self.failure.is_some() {
            return None;
        }
        match &self.request {
            ModbusCommandQueue::Read(bs) => {
                if self.position < bs.len() {
                    let b = bs[self.position];
                    Some(
                        match b.0 {
                            SelectedTopTab::Coils => DeviceOp::ReadCoils(b.1, b.2),
                            SelectedTopTab::DiscreteInputs => DeviceOp::ReadDiscreteInputs(b.1, b.2),
                            SelectedTopTab::InputRegisters => DeviceOp::ReadInputRegisters(b.1, b.2),
                            SelectedTopTab::HoldingRegisters => DeviceOp::ReadHoldingRegisters(
                                b.1,
                                b.2,
                            ),
                        },
                    )
                } else {
                    None
                }
            },
            ModbusCommandQueue::Write(cs) => {
                if self.position < cs.len() {
                    let c = cs[self.position];
                    Some(
                        match c.2 {
                            CellType::Coil(b) => DeviceOp::WriteSingleCoil(c.1, b),
                            CellType::Word(w) => DeviceOp::WriteSingleRegister(c.1, w),
                        },
                    )
                } else {
                    None
                }
            },
        }
    }

    /// Records the outcome of the operation `next_op` handed out.
    ///
    /// A read batch that completes adds its values; one the device rejects is
    /// surfaced as a protocol error and the next batch follows. A write that
    /// completes moves on to the next writable command; any failed write stops
    /// the request. A transport failure stops any request as a lost connection.
    pub fn on_outcome(&mut self, outcome: OpOutcome) -> (notice: Option<ModbusError>)
        requires
            old(self).wf(),
            !old(self).is_done(),
        ensures
            final(self).wf(),
            final(self).request() == old(self).request(),
            ({
                let pos = old(self).position() as int;
                match (old(self).request(), outcome) {
                    (ModbusCommandQueue::Read(bs), OpOutcome::Completed(vals)) => {
                        &&& final(self).updates() == old(self).updates() + read_updates(bs@[pos], vals@)
                        &&& final(self).position() == pos + 1
                        &&& final(self).failure() is None
                        &&& notice is None
                    },
                    (ModbusCommandQueue::Read(_), OpOutcome::Rejected(m)) => {
                        &&& final(self).updates() == old(self).updates()
                        &&& final(self).position() == pos + 1
                        &&& final(self).failure() is None
                        &&& notice == Some(ModbusError::ProtocolError(m))
                    },
                    (ModbusCommandQueue::Write(cs), OpOutcome::Completed(_)) => {
                        &&& final(self).written() == old(self).written().push(cs@[pos])
                        &&& final(self).position() == next_writable(cs@, pos + 1)
                        &&& final(self).failure() is None
                        &&& notice is None
                    },
                    (ModbusCommandQueue::Write(_), OpOutcome::Rejected(m)) => {
                        &&& final(self).written() == old(self).written()
                        &&& final(self).failure() == Some(ModbusError::ProtocolError(m))
                        &&& notice is None
                    },
                    (_, OpOutcome::TransportFailed(m)) => {
                        &&& final(self).updates() == old(self).updates()
                        &&& final(self).written() == old(self).written()
                        &&& final(self).failure() == Some(ModbusError::ConnectionLost(m))
                        &&& notice is None
                    },
                }
            }),
    {
        match outcome {
            OpOutcome::TransportFailed(m) => {
                self.failure = Some(ModbusError::ConnectionLost(m));
                None
            },
            OpOutcome::Rejected(m) => {
                match &self.request {
                    ModbusCommandQueue::Read(bs) => {
                        assert(self.position < bs.len());
                        self.position = self.position + 1;
                        Some(ModbusError::ProtocolError(m))
                    },
                    ModbusCommandQueue::Write(_) => {
                        self.failure = Some(ModbusError::ProtocolError(m));
                        None
                    },
                }
            },
            OpOutcome::Completed(vals) => {
                let pos = self.position;
                match &self.request {
                    ModbusCommandQueue::Read(bs) => {
                        let b = bs[pos];
                        assert(pos < bs.len());
                        append_read(&mut self.updates, b, &vals);
                        self.position = pos + 1;
                    },
                    ModbusCommandQueue::Write(cs) => {
                        let c = cs[pos];
                        assert(pos < cs.len());
                        self.written.push(c);
                        let next = find_writable(cs, pos + 1);
                        self.position = next;
                    },
                }
                None
            },
        }
    }

    /// The report of a finished request.
    pub fn finish(self) -> (r: WorkerReport)
        requires
            self.is_done(),
        ensures
            self.failure() matches Some(e) ==> r == WorkerReport::Failed(e),
            self.failure() is None ==> (match self.request() {
                ModbusCommandQueue::Read(_) => r matches WorkerReport::Updates(u) && u@ == self.updates(),
                ModbusCommandQueue::Write(_) => r matches WorkerReport::Written(w) && w@ == self.written(),
            }),
    {
        match self.failure {
            Some(e) => WorkerReport::Failed(e),
            None => match self.request {
                ModbusCommandQueue::Read(_) => WorkerReport::Updates(self.updates),
                ModbusCommandQueue::Write(_) => WorkerReport::Written(self.written),
            },
        }
    }
}

/// Appends to `out` the updates that `values`, read for batch `b`, give.
fn append_read(out: &mut Vec<ModbusWriteCommand>, b: ModbusReadCommand, values: &Vec<u16>)
    ensures
        final(out)@ == old(out)@ + read_updates(b, values@),
{
    let ghost base = out@;
    let (space, start, count) = b;
    let mut n = values.len();
    if n > count as usize {
        n = count as usize;
    }
    if start as usize + n > ADDRESS_LIMIT {
        n = ADDRESS_LIMIT - start as usize;
    }
    assert(n == kept_values(b, values@.len()));
    let mut i: usize = 0;
    while i < n
        invariant
            n == kept_values(b, values@.len()),
            n <= values@.len(),
            start + n <= ADDRESS_LIMIT,
            i <= n,
            b == (space, start, count),
            out@ == base + read_updates(b, values@).take(i as int),
        decreases n - i,
    {
        let v = values[i];
        out.push((space, start + i as u16, space.value_of_word(v)));
        i = i + 1;
        assert(out@ =~= base + read_updates(b, values@).take(i as int));
    }
    assert(read_updates(b, values@).take(n as int) =~= read_updates(b, values@));
}

} // verus!
