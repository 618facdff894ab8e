//! The macro file: a target endpoint and an ordered list of write commands,
//! stored in a fixed big-endian binary layout.
use vstd::prelude::*;

use crate::enums::{CellType, SelectedTopTab};
use crate::utils::{u16_at, u32_at, BufReader, CodecError, ModbusWriteCommand};
use crate::worker::{write_op, DeviceOp};

verus! {

/// An IPv4 address as four octets, or an IPv6 address as eight 16-bit segments.
#[derive(Clone, Copy, Debug, PartialEq, Eq, Structural)]
pub enum IpAddress {
    V4(u8, u8, u8, u8),
    V6(u16, u16, u16, u16, u16, u16, u16, u16),
}

/// What a macro holds: endpoint, the stored command count and the commands in order.
pub struct MacroView {
    pub ip_addr: IpAddress,
    pub port: u16,
    pub command_count: u32,
    pub commands: Seq<ModbusWriteCommand>,
}

/// A replayable list of write commands for one device.
#[derive(Debug, PartialEq, Eq)]
pub struct MagModCommandList {
    ip_addr: IpAddress,
    port: u16,
    command_count: u32,
    commands: Vec<ModbusWriteCommand>,
}

impl View for MagModCommandList {
    type V = MacroView;

    closed spec fn view(&self) -> MacroView {
        MacroView {
            ip_addr: self.ip_addr,
            port: self.port,
            command_count: self.command_count,
            commands: self.commands@,
        }
    }
}

/// "MAGMOD"
pub open spec fn magic() -> Seq<u8> {
    seq![77u8, 65u8, 71u8, 77u8, 79u8, 68u8]
}

/// Big-endian bytes of a word.
pub open spec fn be16(v: u16) -> Seq<u8> {
    seq![(v / 256) as u8, (v % 256) as u8]
}

/// Big-endian bytes of a double word.
pub open spec fn be32(v: u32) -> Seq<u8> {
    seq![(v / 16777216) as u8, ((v / 65536) % 256) as u8, ((v / 256) % 256) as u8, (v % 256) as u8]
}

/// Version byte followed by the address bytes.
pub open spec fn ip_bytes(ip: IpAddress) -> Seq<u8> {
    match ip {
        IpAddress::V4(a, b, c, d) => seq![4u8, a, b, c, d],
        IpAddress::V6(s0, s1, s2, s3, s4, s5, s6, s7) => seq![6u8] + be16(s0) + be16(s1) + be16(s2)
            + be16(s3) + be16(s4) + be16(s5) + be16(s6) + be16(s7),
    }
}

/// A coil write with a bit, or a holding register write with a word.
pub open spec fn writable_command(c: ModbusWriteCommand) -> bool {
    match c {
        (SelectedTopTab::Coils, _, CellType::Coil(_)) => true,
        (SelectedTopTab::HoldingRegisters, _, CellType::Word(_)) => true,
        _ => false,
    }
}

/// The word a coil write sends: 0xFF00 for on, 0x0000 for off.
pub open spec fn coil_word(b: bool) -> u16 {
    if b {
        0xff00
    } else {
        0
    }
}

/// The five-byte record of a writable command; nothing for any other command.
pub open spec fn record_bytes(c: ModbusWriteCommand) -> Seq<u8> {
    match c {
        (SelectedTopTab::Coils, a, CellType::Coil(b)) => seq![5u8] + be16(a) + be16(coil_word(b)),
        (SelectedTopTab::HoldingRegisters, a, CellType::Word(w)) => seq![6u8] + be16(a) + be16(w),
        _ => Seq::empty(),
    }
}

pub open spec fn records_bytes(cmds: Seq<ModbusWriteCommand>) -> Seq<u8>
    decreases cmds.len(),
{
    if cmds.len() == 0 {
        Seq::empty()
    } else {
        records_bytes(cmds.drop_last()) + record_bytes(cmds.last())
    }
}

/// How many commands of `cmds` are writable.
pub open spec fn writable_count(cmds: Seq<ModbusWriteCommand>) -> nat
    decreases cmds.len(),
{
    if cmds.len() == 0 {
        0
    } else {
        writable_count(cmds.drop_last()) + if writable_command(cmds.last()) {
            1nat
        } else {
            0nat
        }
    }
}

/// The file for `m`: only its writable commands are stored, and counted.
pub open spec fn encoding(m: MacroView) -> Seq<u8> {
    magic() + ip_bytes(m.ip_addr) + be16(m.port) + be32(writable_count(m.commands) as u32)
        + records_bytes(m.commands)
}

/// The record at `pos`, read in the order: function code, address, value.
pub open spec fn parse_record(b: Seq<u8>, pos: int) -> Result<ModbusWriteCommand, CodecError> {
    if pos + 1 > b.len() {
        Err(CodecError::Truncated)
    } else if b[pos] != 5 && b[pos] != 6 {
        Err(CodecError::UnknownFunctionCode(b[pos]))
    } else if pos + 5 > b.len() {
        Err(CodecError::Truncated)
    } else {
        let a = u16_at(b, pos + 1);
        let v = u16_at(b, pos + 3);
        if b[pos] == 6 {
            Ok((SelectedTopTab::HoldingRegisters, a, CellType::Word(v)))
        } else if v == 0xff00 {
            Ok((SelectedTopTab::Coils, a, CellType::Coil(true)))
        } else if v == 0 {
            Ok((SelectedTopTab::Coils, a, CellType::Coil(false)))
        } else {
            Err(CodecError::InvalidCoilValue(v))
        }
    }
}

/// `k` consecutive records from `pos`; the first failing one decides the error.
pub open spec fn parse_records(b: Seq<u8>, pos: int, k: nat) -> Result<Seq<ModbusWriteCommand>, CodecError>
    decreases k,
{
    if k == 0 {
        Ok(Seq::empty())
    } else {
        match parse_record(b, pos) {
            Err(e) => Err(e),
            Ok(c) => match parse_records(b, pos + 5, (k - 1) as nat) {
                Err(e) => Err(e),
                Ok(rest) => Ok(seq![c] + rest),
            },
        }
    }
}

/// Length of the address bytes that follow version byte `v`.
pub open spec fn ip_len(v: u8) -> int {
    if v == 4 {
        4
    } else {
        16
    }
}

pub open spec fn parse_ip(b: Seq<u8>) -> IpAddress {
    if b[6] == 4 {
        IpAddress::V4(b[7], b[8], b[9], b[10])
    } else {
        IpAddress::V6(
            u16_at(b, 7),
            u16_at(b, 9),
            u16_at(b, 11),
            u16_at(b, 13),
            u16_at(b, 15),
            u16_at(b, 17),
            u16_at(b, 19),
            u16_at(b, 21),
        )
    }
}

/// The macro a file holds, or the first violation found reading it front to back.
/// Bytes after the last record are not read.
pub open spec fn parse(b: Seq<u8>) -> Result<MacroView, CodecError> {
    if b.len() < 6 {
        Err(CodecError::Truncated)
    } else if b.subrange(0, 6) != magic() {
        Err(CodecError::BadMagic)
    } else if b.len() < 7 {
        Err(CodecError::Truncated)
    } else if b[6] != 4 && b[6] != 6 {
        Err(CodecError::UnknownIpVersion(b[6]))
    } else if b.len() < 7 + ip_len(b[6]) + 6 {
        Err(CodecError::Truncated)
    } else {
        let n = ip_len(b[6]);
        let count = u32_at(b, 9 + n);
        match parse_records(b, 13 + n, count as nat) {
            Err(e) => Err(e),
            Ok(cmds) => Ok(
                MacroView {
                    ip_addr: parse_ip(b),
                    port: u16_at(b, 7 + n),
                    command_count: count,
                    commands: cmds,
                },
            ),
        }
    }
}

/// A word reads back from its big-endian bytes wherever they stand.
proof fn lemma_be16_at(s: Seq<u8>, i: int, v: u16)
    requires
        0 <= i,
        i + 2 <= s.len(),
        s[i] == be16(v)[0],
        s[i + 1] == be16(v)[1],
    ensures
        u16_at(s, i) == v,
{
    assert((v / 256) * 256 + v % 256 == v) by (nonlinear_arith);
}

/// A double word reads back from its big-endian bytes wherever they stand.
proof fn lemma_be32_at(s: Seq<u8>, i: int, v: u32)
    requires
        0 <= i,
        i + 4 <= s.len(),
        s[i] == be32(v)[0],
        s[i + 1] == be32(v)[1],
        s[i + 2] == be32(v)[2],
        s[i + 3] == be32(v)[3],
    ensures
        u32_at(s, i) == v,
{
    assert((v / 16777216) * 16777216 + ((v / 65536) % 256) * 65536 + ((v / 256) % 256) * 256 + v
        % 256 == v) by (nonlinear_arith)
        requires
            v < 0x1_0000_0000,
    ;
    assert(v / 16777216 < 256) by (nonlinear_arith)
        requires
            v < 0x1_0000_0000,
    ;
}

proof fn lemma_writable_count_all(cmds: Seq<ModbusWriteCommand>)
    requires
        forall|i: int| 0 <= i < cmds.len() ==> writable_command(#[trigger] cmds[i]),
    ensures
        writable_count(cmds) == cmds.len(),
        records_bytes(cmds).len() == 5 * cmds.len(),
    decreases cmds.len(),
{
    if cmds.len() > 0 {
        assert(writable_command(cmds[cmds.len() - 1]));
        lemma_writable_count_all(cmds.drop_last());
    }
}

/// The records of a non-empty list start with the record of its first command.
proof fn lemma_records_front(cmds: Seq<ModbusWriteCommand>)
    requires
        cmds.len() > 0,
    ensures
        records_bytes(cmds) == record_bytes(cmds[0]) + records_bytes(cmds.drop_first()),
    decreases cmds.len(),
{
    if cmds.len() == 1 {
        assert(cmds.drop_last() =~= Seq::<ModbusWriteCommand>::empty());
        assert(cmds.drop_first() =~= Seq::<ModbusWriteCommand>::empty());
        assert(records_bytes(cmds) =~= record_bytes(cmds[0]) + records_bytes(cmds.drop_first()));
    } else {
        let init = cmds.drop_last();
        lemma_records_front(init);
        assert(init.drop_first() =~= cmds.drop_first().drop_last());
        assert(cmds.drop_first().last() == cmds.last());
        assert(init[0] == cmds[0]);
        assert(records_bytes(cmds) =~= record_bytes(cmds[0]) + records_bytes(cmds.drop_first()));
    }
}

proof fn lemma_parse_records(p: Seq<u8>, cmds: Seq<ModbusWriteCommand>, t: Seq<u8>)
    requires
        forall|i: int| 0 <= i < cmds.len() ==> writable_command(#[trigger] cmds[i]),
    ensures
        parse_records(p + records_bytes(cmds) + t, p.len() as int, cmds.len()) == Ok::<
            Seq<ModbusWriteCommand>,
            CodecError,
        >(cmds),
    decreases cmds.len(),
{
    if cmds.len() == 0 {
        assert(cmds =~= Seq::<ModbusWriteCommand>::empty());
    } else {
        let c = cmds[0];
        let rest = cmds.drop_first();
        let b = p + records_bytes(cmds) + t;
        let rb = record_bytes(c);
        lemma_records_front(cmds);
        assert(writable_command(c));
        assert(forall|i: int| 0 <= i < rest.len() ==> writable_command(#[trigger] rest[i])) by {
            assert forall|i: int| 0 <= i < rest.len() implies writable_command(#[trigger] rest[i]) by {
                assert(rest[i] == cmds[i + 1]);
            }
        }
        assert(b =~= (p + rb) + records_bytes(rest) + t);
        lemma_parse_records(p + rb, rest, t);
        let n = p.len() as int;
        assert(rb.len() == 5);
        assert(b[n] == rb[0]);
        assert(b[n + 1] == rb[1]);
        assert(b[n + 2] == rb[2]);
        assert(b[n + 3] == rb[3]);
        assert(b[n + 4] == rb[4]);
        match c {
            (SelectedTopTab::Coils, a, CellType::Coil(v)) => {
                lemma_be16_at(b, n + 1, a);
                lemma_be16_at(b, n + 3, coil_word(v));
            },
            (SelectedTopTab::HoldingRegisters, a, CellType::Word(w)) => {
                lemma_be16_at(b, n + 1, a);
                lemma_be16_at(b, n + 3, w);
            },
            _ => {},
        }
        assert(parse_record(b, n) == Ok::<ModbusWriteCommand, CodecError>(c));
        assert(seq![c] + rest =~= cmds);
    }
}

proof fn lemma_parse_ip(ip: IpAddress, tail: Seq<u8>)
    ensures
        ({
            let b = magic() + ip_bytes(ip) + tail;
            &&& b[6] == 4 || b[6] == 6
            &&& ip_bytes(ip).len() == 1 + ip_len(b[6])
            &&& b.len() == 7 + ip_len(b[6]) + tail.len()
            &&& parse_ip(b) == ip
        }),
{
    let b = magic() + ip_bytes(ip) + tail;
    let x = ip_bytes(ip);
    assert forall|k: int| 0 <= k < x.len() implies b[6 + k] == x[k] by {}
    match ip {
        IpAddress::V4(_, _, _, _) => {},
        IpAddress::V6(s0, s1, s2, s3, s4, s5, s6, s7) => {
            assert(b[7] == x[1] && b[8] == x[2]);
            lemma_be16_at(b, 7, s0);
            assert(b[9] == x[3] && b[10] == x[4]);
            lemma_be16_at(b, 9, s1);
            assert(b[11] == x[5] && b[12] == x[6]);
            lemma_be16_at(b, 11, s2);
            assert(b[13] == x[7] && b[14] == x[8]);
            lemma_be16_at(b, 13, s3);
            assert(b[15] == x[9] && b[16] == x[10]);
            lemma_be16_at(b, 15, s4);
            assert(b[17] == x[11] && b[18] == x[12]);
            lemma_be16_at(b, 17, s5);
            assert(b[19] == x[13] && b[20] == x[14]);
            lemma_be16_at(b, 19, s6);
            assert(b[21] == x[15] && b[22] == x[16]);
            lemma_be16_at(b, 21, s7);
        },
    }
}

/// Decoding the encoding of a macro whose commands are all writable, with a
/// matching stored count, gives the same endpoint and the same commands in
/// the same order.
pub proof fn lemma_round_trip(m: MacroView)
    requires
        m.command_count == m.commands.len(),
        forall|i: int| 0 <= i < m.commands.len() ==> writable_command(#[trigger] m.commands[i]),
    ensures
        parse(encoding(m)) == Ok::<MacroView, CodecError>(m),
{
    lemma_writable_count_all(m.commands);
    let ip = ip_bytes(m.ip_addr);
    let fields = be16(m.port) + be32(m.command_count);
    let records = records_bytes(m.commands);
    let h = magic() + ip + fields;
    let b = encoding(m);
    assert(b =~= magic() + ip + (fields + records));
    assert(b =~= h + records + Seq::<u8>::empty());
    lemma_parse_ip(m.ip_addr, fields + records);
    lemma_parse_records(h, m.commands, Seq::<u8>::empty());
    assert(b.subrange(0, 6) =~= magic());
    let n = ip_len(b[6]);
    assert(h.len() == 13 + n);
    assert(b[7 + n] == fields[0] && b[8 + n] == fields[1]);
    lemma_be16_at(b, 7 + n, m.port);
    assert(b[9 + n] == fields[2] && b[10 + n] == fields[3] && b[11 + n] == fields[4] && b[12 + n]
        == fields[5]);
    lemma_be32_at(b, 9 + n, m.command_count);
}

/// How a macro is replayed: only try the connection, only describe the
/// commands without touching the network, or carry them out.
#[derive(Clone, Copy, Debug, PartialEq, Eq, Structural)]
pub enum ReplayMode {
    CheckConnection,
    DryRun,
    Execute,
}

/// The mode the two replay flags select; both together select none.
pub fn replay_mode(check_connection: bool, dry_run: bool) -> (r: Option<ReplayMode>)
    ensures
        r == (if check_connection && dry_run {
            None
        } else if check_connection {
            Some(ReplayMode::CheckConnection)
        } else if dry_run {
            Some(ReplayMode::DryRun)
        } else {
            Some(ReplayMode::Execute)
        }),
{
    match (check_connection, dry_run) {
        (true, false) => Some(ReplayMode::CheckConnection),
        (false, true) => Some(ReplayMode::DryRun),
        (false, false) => Some(ReplayMode::Execute),
        (true, true) => None,
    }
}

/// The operations that replaying `cmds` performs, in order: one per writable command.
pub open spec fn replay_ops_of(cmds: Seq<ModbusWriteCommand>) -> Seq<DeviceOp>
    decreases cmds.len(),
{
    if cmds.len() == 0 {
        Seq::empty()
    } else if writable_command(cmds.last()) {
        replay_ops_of(cmds.drop_last()).push(write_op(cmds.last()))
    } else {
        replay_ops_of(cmds.drop_last())
    }
}

fn push_u16(out: &mut Vec<u8>, v: u16)
    ensures
        final(out)@ == old(out)@ + be16(v),
{
    out.push((v / 256) as u8);
    out.push((v % 256) as u8);
    assert(final(out)@ =~= old(out)@ + be16(v));
}

impl MagModCommandList {
    #[verifier::type_invariant]
    spec fn count_matches(self) -> bool {
        self.command_count == self.commands@.len()
    }

    pub fn new(ip_addr: IpAddress, port: u16, commands: Vec<ModbusWriteCommand>) -> (r: Self)
        requires
            commands@.len() <= u32::MAX,
        ensures
            r@ == (MacroView { ip_addr, port, command_count: commands@.len() as u32, commands: commands@ }),
    {
        let command_count = commands.len() as u32;
        MagModCommandList { ip_addr, port, command_count, commands }
    }

    pub fn ip_addr(&self) -> (r: IpAddress)
        ensures
            r == self@.ip_addr,
    {
        self.ip_addr
    }

    pub fn port(&self) -> (r: u16)
        ensures
            r == self@.port,
    {
        self.port
    }

    pub fn command_count(&self) -> (r: u32)
        ensures
            r == self@.command_count,
            r == self@.commands.len(),
    {
        proof {
            use_type_invariant(self);
        }
        self.command_count
    }

    pub fn commands(&self) -> (r: &Vec<ModbusWriteCommand>)
        ensures
            r@ == self@.commands,
    {
        &self.commands
    }

    /// Replaces the stored endpoint, keeping the commands.
    pub fn set_endpoint(&mut self, ip_addr: IpAddress, port: u16)
        ensures
            final(self)@ == (MacroView { ip_addr, port, ..old(self)@ }),
    {
        proof {
            use_type_invariant(&*self);
        }
        self.ip_addr = ip_addr;
        self.port = port;
    }

    /// The file bytes of this macro.
    pub fn to_bytes(&self) -> (r: Vec<u8>)
        ensures
            r@ == encoding(self@),
    {
        proof {
            use_type_invariant(self);
        }
        let mut out: Vec<u8> = Vec::new();
        out.push(77);
        out.push(65);
        out.push(71);
        out.push(77);
        out.push(79);
        out.push(68);
        match self.ip_addr {
            IpAddress::V4(a, b, c, d) => {
                out.push(4);
                out.push(a);
                out.push(b);
                out.push(c);
                out.push(d);
            },
            IpAddress::V6(s0, s1, s2, s3, s4, s5, s6, s7) => {
                out.push(6);
                push_u16(&mut out, s0);
                push_u16(&mut out, s1);
                push_u16(&mut out, s2);
                push_u16(&mut out, s3);
                push_u16(&mut out, s4);
                push_u16(&mut out, s5);
                push_u16(&mut out, s6);
                push_u16(&mut out, s7);
            },
        }
        assert(out@ =~= magic() + ip_bytes(self.ip_addr));
        push_u16(&mut out, self.port);
        let mut records: Vec<u8> = Vec::new();
        let mut count: u32 = 0;
        let mut i: usize = 0;
        while i < self.commands.len()
            invariant
                i <= self.commands@.len(),
                self.commands@.len() == self.command_count,
                count == writable_count(self.commands@.take(i as int)),
                count <= i,
                records@ == records_bytes(self.commands@.take(i as int)),
            decreases self.commands@.len() - i,
        {
            let c = self.commands[i];
            proof {
                assert(self.commands@.take(i + 1).drop_last() =~= self.commands@.take(i as int));
                assert(self.commands@.take(i + 1).last() == c);
            }
            match c {
                (SelectedTopTab::Coils, a, CellType::Coil(b)) => {
                    records.push(5);
                    push_u16(&mut records, a);
                    push_u16(&mut records, if b { 0xff00 } else { 0 });
                    count = count + 1;
                },
                (SelectedTopTab::HoldingRegisters, a, CellType::Word(w)) => {
                    records.push(6);
                    push_u16(&mut records, a);
                    push_u16(&mut records, w);
                    count = count + 1;
                },
                _ => {},
            }
            i = i + 1;
        }
        proof {
            assert(self.commands@.take(i as int) =~= self.commands@);
        }
        out.push((count / 16777216) as u8);
        out.push(((count / 65536) % 256) as u8);
        out.push(((count / 256) % 256) as u8);
        out.push((count % 256) as u8);
        let mut j: usize = 0;
        let ghost header = out@;
        while j < records.len()
            invariant
                j <= records@.len(),
                out@ == header + records@.take(j as int),
            decreases records@.len() - j,
        {
            out.push(records[j]);
            j = j + 1;
            assert(out@ =~= header + records@.take(j as int));
        }
        assert(records@.take(j as int) =~= records@);
        assert(out@ =~= encoding(self@));
        out
    }

    /// Decodes a macro file. Fails, with no macro, on the first violation that
    /// `parse` names.
    pub fn from_bytes(bytes: &[u8]) -> (r: Result<Self, CodecError>)
        ensures
            r is Ok ==> parse(bytes@) == Ok::<MacroView, CodecError>(r->Ok_0@),
            r is Err ==> parse(bytes@) == Err::<MacroView, CodecError>(r->Err_0),
    {
        let ghost b = bytes@;
        let mut reader = BufReader::new(bytes);
        let id = match reader.read_exact(6) {
            Ok(v) => v,
            Err(e) => return Err(e),
        };
        if !(id[0] == 77 && id[1] == 65 && id[2] == 71 && id[3] == 77 && id[4] == 79 && id[5] == 68) {
            proof {
                if b.subrange(0, 6) == magic() {
                    assert(id@[0] == magic()[0]);
                    assert(id@[1] == magic()[1]);
                    assert(id@[2] == magic()[2]);
                    assert(id@[3] == magic()[3]);
                    assert(id@[4] == magic()[4]);
                    assert(id@[5] == magic()[5]);
                }
            }
            return Err(CodecError::BadMagic);
        }
        proof {
            assert(b.subrange(0, 6) =~= magic());
        }
        let version = match reader.read_u8() {
            Ok(v) => v,
            Err(e) => return Err(e),
        };
        let ip_addr = if version == 4 {
            let a = match reader.read_u8() {
                Ok(v) => v,
                Err(e) => return Err(e),
            };
            let b1 = match reader.read_u8() {
                Ok(v) => v,
                Err(e) => return Err(e),
            };
            let c = match reader.read_u8() {
                Ok(v) => v,
                Err(e) => return Err(e),
            };
            let d = match reader.read_u8() {
                Ok(v) => v,
                Err(e) => return Err(e),
            };
            IpAddress::V4(a, b1, c, d)
        } else if version == 6 {
            let s0 = match reader.read_u16() {
                Ok(v) => v,
                Err(e) => return Err(e),
            };
            let s1 = match reader.read_u16() {
                Ok(v) => v,
                Err(e) => return Err(e),
            };
            let s2 = match reader.read_u16() {
                Ok(v) => v,
                Err(e) => return Err(e),
            };
            let s3 = match reader.read_u16() {
                Ok(v) => v,
                Err(e) => return Err(e),
            };
            let s4 = match reader.read_u16() {
                Ok(v) => v,
                Err(e) => return Err(e),
            };
            let s5 = match reader.read_u16() {
                Ok(v) => v,
                Err(e) => return Err(e),
            };
            let s6 = match reader.read_u16() {
                Ok(v) => v,
                Err(e) => return Err(e),
            };
            let s7 = match reader.read_u16() {
                Ok(v) => v,
                Err(e) => return Err(e),
            };
            IpAddress::V6(s0, s1, s2, s3, s4, s5, s6, s7)
        } else {
            return Err(CodecError::UnknownIpVersion(version));
        };
        let port = match reader.read_u16() {
            Ok(v) => v,
            Err(e) => return Err(e),
        };
        let count = match reader.read_u32() {
            Ok(v) => v,
            Err(e) => return Err(e),
        };
        let ghost n = ip_len(version);
        let ghost start = 13 + n;
        proof {
            assert(ip_addr == parse_ip(b));
            assert(reader.pos() == start);
            assert(parse(b) == (match parse_records(b, start, count as nat) {
                Err(e) => Err(e),
                Ok(cmds) => Ok(MacroView { ip_addr, port, command_count: count, commands: cmds }),
            }));
        }
        let mut commands: Vec<ModbusWriteCommand> = Vec::new();
        let mut i: u32 = 0;
        while i < count
            invariant
                reader.wf(),
                reader.bytes() == b,
                b == bytes@,
                parse(b) == (match parse_records(b, start, count as nat) {
                    Err(e) => Err(e),
                    Ok(cmds) => Ok(MacroView { ip_addr, port, command_count: count, commands: cmds }),
                }),
                i <= count,
                commands@.len() == i,
                reader.pos() == start + 5 * i,
                parse_records(b, start, count as nat) == (match parse_records(
                    b,
                    reader.pos() as int,
                    (count - i) as nat,
                ) {
                    Ok(rest) => Ok(commands@ + rest),
                    Err(e) => Err(e),
                }),
            decreases count - i,
        {
            let ghost pos = reader.pos() as int;
            let code = match reader.read_u8() {
                Ok(v) => v,
                Err(e) => {
                    proof {
                        assert(parse_record(b, pos) == Err::<ModbusWriteCommand, CodecError>(e));
                    assert(parse_records(b, pos, (count - i) as nat) == Err::<Seq<ModbusWriteCommand>, CodecError>(e));
                    assert(parse_records(b, start, count as nat) == Err::<Seq<ModbusWriteCommand>, CodecError>(e));
                    }
                    return Err(e);
                },
            };
            if code != 5 && code != 6 {
                proof {
                    assert(parse_record(b, pos) == Err::<ModbusWriteCommand, CodecError>(
                        CodecError::UnknownFunctionCode(code),
                    ));
                    assert(parse_records(b, pos, (count - i) as nat) == Err::<Seq<ModbusWriteCommand>, CodecError>(CodecError::UnknownFunctionCode(code)));
                    assert(parse_records(b, start, count as nat) == Err::<Seq<ModbusWriteCommand>, CodecError>(CodecError::UnknownFunctionCode(code)));
                }
                return Err(CodecError::UnknownFunctionCode(code));
            }
            let address = match reader.read_u16() {
                Ok(v) => v,
                Err(e) => return Err(e),
            };
            let value = match reader.read_u16() {
                Ok(v) => v,
                Err(e) => return Err(e),
            };
            let cmd = if code == 6 {
                (SelectedTopTab::HoldingRegisters, address, CellType::Word(value))
            } else if value == 0xff00 {
                (SelectedTopTab::Coils, address, CellType::Coil(true))
            } else if value == 0 {
                (SelectedTopTab::Coils, address, CellType::Coil(false))
            } else {
                proof {
                    assert(parse_record(b, pos) == Err::<ModbusWriteCommand, CodecError>(
                        CodecError::InvalidCoilValue(value),
                    ));
                    assert(parse_records(b, pos, (count - i) as nat) == Err::<Seq<ModbusWriteCommand>, CodecError>(CodecError::InvalidCoilValue(value)));
                    assert(parse_records(b, start, count as nat) == Err::<Seq<ModbusWriteCommand>, CodecError>(CodecError::InvalidCoilValue(value)));
                }
                return Err(CodecError::InvalidCoilValue(value));
            };
            proof {
                assert(parse_record(b, pos) == Ok::<ModbusWriteCommand, CodecError>(cmd));
                match parse_records(b, pos + 5, (count - i - 1) as nat) {
                    Ok(rest) => {
                        assert(commands@.push(cmd) + rest =~= commands@ + (seq![cmd] + rest));
                    },
                    Err(_) => {},
                }
            }
            commands.push(cmd);
            i = i + 1;
        }
        proof {
            assert(commands@ + Seq::<ModbusWriteCommand>::empty() =~= commands@);
        }
        Ok(MagModCommandList { ip_addr, port, command_count: count, commands })
    }
    /// The operations a replay of this macro performs, in file order.
    pub fn replay_ops(&self) -> (r: Vec<DeviceOp>)
        ensures
            r@ == replay_ops_of(self@.commands),
    {
        let mut out: Vec<DeviceOp> = Vec::new();
        let mut i: usize = 0;
        while i < self.commands.len()
            invariant
                i <= self.commands@.len(),
                out@ == replay_ops_of(self.commands@.take(i as int)),
            decreases self.commands@.len() - i,
        {
            let c = self.commands[i];
            proof {
                assert(self.commands@.take(i + 1).drop_last() =~= self.commands@.take(i as int));
                assert(self.commands@.take(i + 1).last() == c);
            }
            match c {
                (SelectedTopTab::Coils, a, CellType::Coil(b)) => out.push(DeviceOp::WriteSingleCoil(a, b)),
                (SelectedTopTab::HoldingRegisters, a, CellType::Word(w)) => out.push(
                    DeviceOp::WriteSingleRegister(a, w),
                ),
                _ => {},
            }
            i = i + 1;
        }
        proof {
            assert(self.commands@.take(i as int) =~= self.commands@);
        }
        out
    }
}

} // verus!
