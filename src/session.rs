//! The control layer's state: one address space per register type, the
//! connection, and what the screen shows. It alone changes cells; the worker
//! only exchanges requests and reports with it.
use vstd::prelude::*;

use crate::app_table::{cell_in, AppTable, TableCell};
use crate::enums::{
    AppMode, ConnectionStatus, ModbusCommandQueue, PopupType, SelectedTopTab,
};
use crate::geometry::ADDRESS_LIMIT;
use crate::macro_parser::IpAddress;
use crate::queue::QueueItem;
use crate::utils::ModbusWriteCommand;
use crate::worker::{ModbusError, WorkerReport};

verus! {

/// Strict order by space ordinal, then by address.
pub open spec fn pending_order(s1: nat, a1: u16, s2: nat, a2: u16) -> bool {
    s1 < s2 || (s1 == s2 && a1 < a2)
}

/// The store `m` of space `s` after the device confirmed each value of
/// `updates` that belongs to `s`, fits it and has a valid address, in order.
pub open spec fn confirm_all(m: Map<u16, TableCell>, s: SelectedTopTab, updates: Seq<ModbusWriteCommand>) -> Map<u16, TableCell>
    decreases updates.len(),
{
    if updates.len() == 0 {
        m
    } else {
        let before = confirm_all(m, s, updates.drop_last());
        let (space, a, v) = updates.last();
        if space == s && a < ADDRESS_LIMIT && s.fits(v) {
            before.insert(a, cell_in(before, s, a).confirmed(v))
        } else {
            before
        }
    }
}

/// A store with no pending cell.
pub open spec fn all_clean(m: Map<u16, TableCell>) -> bool {
    forall|a: u16| #[trigger] m.contains_key(a) ==> m[a].state is Normal
}

/// Confirming device values never makes a clean store pending.
proof fn lemma_confirm_all_clean(m: Map<u16, TableCell>, s: SelectedTopTab, updates: Seq<ModbusWriteCommand>)
    requires
        all_clean(m),
    ensures
        all_clean(confirm_all(m, s, updates)),
    decreases updates.len(),
{
    if updates.len() > 0 {
        lemma_confirm_all_clean(m, s, updates.drop_last());
    }
}

/// The whole client state that the control loop owns.
pub struct Session {
    pub coils: AppTable,
    pub discrete_inputs: AppTable,
    pub input_registers: AppTable,
    pub holding_registers: AppTable,
    pub connection_status: ConnectionStatus,
    pub endpoint: Option<(IpAddress, u16)>,
    pub selected_top_tab: SelectedTopTab,
    pub app_mode: AppMode,
}

impl Session {
    /// The address space of `s`.
    pub open spec fn table(&self, s: SelectedTopTab) -> AppTable {
        match s {
            SelectedTopTab::Coils => self.coils,
            SelectedTopTab::DiscreteInputs => self.discrete_inputs,
            SelectedTopTab::InputRegisters => self.input_registers,
            SelectedTopTab::HoldingRegisters => self.holding_registers,
        }
    }

    /// Each space is well formed and of its own type; only the writable
    /// spaces hold pending cells; connected exactly when an endpoint is known.
    pub open spec fn wf(&self) -> bool {
        &&& forall|s: SelectedTopTab| #[trigger] self.table(s).wf() && self.table(s).table_type == s
        &&& self.read_only_clean()
        &&& (self.connection_status is Connected <==> self.endpoint is Some)
    }

    /// No cell of a read-only space is pending.
    pub open spec fn read_only_clean(&self) -> bool {
        forall|s: SelectedTopTab, a: u16| !s.is_writable() ==> !#[trigger] self.table(s).is_pending(a)
    }

    /// All four spaces are those of `other`.
    pub open spec fn tables_unchanged(&self, other: &Session) -> bool {
        forall|s: SelectedTopTab| #[trigger] self.table(s) == other.table(s)
    }

    /// Connection, endpoint, selected space and screen mode are those of `other`.
    pub open spec fn status_unchanged(&self, other: &Session) -> bool {
        &&& self.connection_status == other.connection_status
        &&& self.endpoint == other.endpoint
        &&& self.selected_top_tab == other.selected_top_tab
        &&& self.app_mode == other.app_mode
    }

    proof fn lemma_tables_kept(&self, other: &Session)
        requires
            other.wf(),
            self.tables_unchanged(other),
            self.connection_status is Connected <==> self.endpoint is Some,
        ensures
            self.wf(),
    {
        assert forall|s: SelectedTopTab| #[trigger] self.table(s).wf() && self.table(s).table_type == s by {
            assert(self.table(s) == other.table(s));
            assert(other.table(s).wf());
        }
        assert forall|s: SelectedTopTab, a: u16| !s.is_writable() implies !#[trigger] self.table(s).is_pending(a) by {
            assert(self.table(s) == other.table(s));
        }
    }

    /// Four empty spaces, not connected, coils selected, main view.
    pub fn new() -> (r: Self)
        ensures
            r.wf(),
            forall|s: SelectedTopTab| #[trigger] r.table(s).data@ == Map::<u16, TableCell>::empty(),
            forall|s: SelectedTopTab|
                #[trigger] r.table(s).table_rows == 8 && r.table(s).table_cols == (if s.holds_bits() {
                    16usize
                } else {
                    8usize
                }) && r.table(s).cursor() == (0nat, 0nat, 0nat),
            r.connection_status is NotConnected,
            r.endpoint is None,
            r.selected_top_tab is Coils,
            r.app_mode == AppMode::Main,
    {
        let r = Session {
            coils: AppTable::new(SelectedTopTab::Coils),
            discrete_inputs: AppTable::new(SelectedTopTab::DiscreteInputs),
            input_registers: AppTable::new(SelectedTopTab::InputRegisters),
            holding_registers: AppTable::new(SelectedTopTab::HoldingRegisters),
            connection_status: ConnectionStatus::NotConnected,
            endpoint: None,
            selected_top_tab: SelectedTopTab::Coils,
            app_mode: AppMode::Main,
        };
        assert forall|s: SelectedTopTab| #[trigger] r.table(s).wf() && r.table(s).table_type == s by {
            match s {
                SelectedTopTab::Coils => {},
                SelectedTopTab::DiscreteInputs => {},
                SelectedTopTab::InputRegisters => {},
                SelectedTopTab::HoldingRegisters => {},
            }
        }
        r
    }

    /// The address space of `s`.
    pub fn table_ref(&self, s: SelectedTopTab) -> (r: &AppTable)
        ensures
            *r == self.table(s),
    {
        match s {
            SelectedTopTab::Coils => &self.coils,
            SelectedTopTab::DiscreteInputs => &self.discrete_inputs,
            SelectedTopTab::InputRegisters => &self.input_registers,
            SelectedTopTab::HoldingRegisters => &self.holding_registers,
        }
    }

    /// The pending set of all four spaces, ordered by space ordinal, then address.
    pub fn pending_items(&self) -> (r: Vec<QueueItem>)
        requires
            self.wf(),
        ensures
            forall|i: int| 0 <= i < r@.len() ==> (#[trigger] r@[i]).table_index < 4,
            forall|i: int, j: int|
                0 <= i < j < r@.len() ==> pending_order(
                    r@[i].table_index as nat,
                    r@[i].address,
                    r@[j].table_index as nat,
                    r@[j].address,
                ),
            forall|i: int|
                0 <= i < r@.len() ==> {
                    let s = SelectedTopTab::from_ordinal(r@[i].table_index as nat);
                    &&& r@[i].table_index < 4
                    &&& self.table(s).is_pending(#[trigger] r@[i].address)
                    &&& r@[i].cell == self.table(s).data@[r@[i].address]
                },
            forall|s: SelectedTopTab, a: u16|
                #[trigger] self.table(s).is_pending(a) ==> exists|i: int|
                    0 <= i < r@.len() && r@[i].table_index == s.ordinal() && #[trigger] r@[i].address
                        == a,
    {
        let mut out: Vec<QueueItem> = Vec::new();
        let mut k: usize = 0;
        while k < 4
            invariant
                self.wf(),
                k <= 4,
                forall|i: int| 0 <= i < out@.len() ==> (#[trigger] out@[i]).table_index < k,
                forall|i: int, j: int|
                    0 <= i < j < out@.len() ==> pending_order(
                        out@[i].table_index as nat,
                        out@[i].address,
                        out@[j].table_index as nat,
                        out@[j].address,
                    ),
                forall|i: int|
                    0 <= i < out@.len() ==> {
                        let s = SelectedTopTab::from_ordinal(out@[i].table_index as nat);
                        &&& out@[i].table_index < k
                        &&& self.table(s).is_pending(#[trigger] out@[i].address)
                        &&& out@[i].cell == self.table(s).data@[out@[i].address]
                    },
                forall|s: SelectedTopTab, a: u16|
                    s.ordinal() < k && #[trigger] self.table(s).is_pending(a) ==> exists|i: int|
                        0 <= i < out@.len() && out@[i].table_index == s.ordinal()
                            && #[trigger] out@[i].address == a,
            decreases 4 - k,
        {
            let s = match SelectedTopTab::from_index(k) {
                Some(s) => s,
                None => SelectedTopTab::Coils,
            };
            assert(s.ordinal() == k);
            assert(self.table(s).wf());
            assert forall|i: int| 0 <= i < out@.len() implies #[trigger] out@[i].table_index < k by {
                assert(self.table(SelectedTopTab::from_ordinal(out@[i].table_index as nat)).is_pending(
                    out@[i].address,
                ));
            }
            let items = self.table_ref(s).get_queue_items();
            let ghost before = out@;
            let mut j: usize = 0;
            while j < items.len()
                invariant
                    self.wf(),
                    s.ordinal() == k,
                    k < 4,
                    j <= items@.len(),
                    forall|i: int|
                        0 <= i < items@.len() ==> {
                            &&& self.table(s).is_pending(#[trigger] items@[i].address)
                            &&& items@[i].cell == self.table(s).data@[items@[i].address]
                            &&& items@[i].table_index == s.ordinal()
                        },
                    forall|i: int, i2: int| 0 <= i < i2 < items@.len() ==> items@[i].address < items@[i2].address,
                    out@ == before + items@.take(j as int),
                    forall|i: int, i2: int|
                        0 <= i < i2 < before.len() ==> pending_order(
                            before[i].table_index as nat,
                            before[i].address,
                            before[i2].table_index as nat,
                            before[i2].address,
                        ),
                    forall|i: int| 0 <= i < before.len() ==> #[trigger] before[i].table_index < k,
                decreases items@.len() - j,
            {
                out.push(items[j]);
                j = j + 1;
                assert(out@ =~= before + items@.take(j as int));
            }
            assert(items@.take(j as int) =~= items@);
            proof {
                assert forall|i: int|
                    0 <= i < out@.len() implies {
                        let s2 = SelectedTopTab::from_ordinal(out@[i].table_index as nat);
                        &&& out@[i].table_index < k + 1
                        &&& self.table(s2).is_pending(#[trigger] out@[i].address)
                        &&& out@[i].cell == self.table(s2).data@[out@[i].address]
                    } by {
                    if i >= before.len() {
                        assert(out@[i] == items@[i - before.len()]);
                        assert(SelectedTopTab::from_ordinal(k as nat) == s);
                    } else {
                        assert(out@[i] == before[i]);
                    }
                }
                assert forall|s2: SelectedTopTab, a: u16|
                    s2.ordinal() < k + 1 && #[trigger] self.table(s2).is_pending(a) implies exists|i: int|
                        0 <= i < out@.len() && out@[i].table_index == s2.ordinal()
                            && #[trigger] out@[i].address == a by {
                    if s2.ordinal() == k {
                        assert(s2 == s);
                        let i2 = choose|i2: int| 0 <= i2 < items@.len() && #[trigger] items@[i2].address == a;
                        assert(out@[before.len() + i2] == items@[i2]);
                    } else {
                        let i = choose|i: int|
                            0 <= i < before.len() && before[i].table_index == s2.ordinal()
                                && #[trigger] before[i].address == a;
                        assert(out@[i] == before[i]);
                    }
                }
            }
            k = k + 1;
        }
        out
    }
    /// `self` with the space of `s` replaced by `t`.
    pub open spec fn with_table(self, s: SelectedTopTab, t: AppTable) -> Session {
        match s {
            SelectedTopTab::Coils => Session { coils: t, ..self },
            SelectedTopTab::DiscreteInputs => Session { discrete_inputs: t, ..self },
            SelectedTopTab::InputRegisters => Session { input_registers: t, ..self },
            SelectedTopTab::HoldingRegisters => Session { holding_registers: t, ..self },
        }
    }

    /// Mutable access to the space of `s`.
    pub fn table_mut(&mut self, s: SelectedTopTab) -> (r: &mut AppTable)
        ensures
            *r == old(self).table(s),
            *final(self) == old(self).with_table(s, *final(r)),
    {
        match s {
            SelectedTopTab::Coils => &mut self.coils,
            SelectedTopTab::DiscreteInputs => &mut self.discrete_inputs,
            SelectedTopTab::InputRegisters => &mut self.input_registers,
            SelectedTopTab::HoldingRegisters => &mut self.holding_registers,
        }
    }

    /// Records values the device confirmed, by a read or by a completed write:
    /// each fitting update with a valid address, in order. No value is staged.
    pub fn apply_modbus_updates(&mut self, updates: &Vec<ModbusWriteCommand>)
        requires
            old(self).wf(),
        ensures
            final(self).wf(),
            final(self).status_unchanged(&*old(self)),
            forall|s: SelectedTopTab|
                #[trigger] final(self).table(s).data@ == confirm_all(old(self).table(s).data@, s, updates@),
            forall|s: SelectedTopTab| #[trigger] final(self).table(s).same_view(old(self).table(s)),
    {
        let ghost start = *self;
        let mut i: usize = 0;
        while i < updates.len()
            invariant
                self.wf(),
                start.wf(),
                start == *old(self),
                i <= updates@.len(),
                self.status_unchanged(&start),
                forall|s: SelectedTopTab|
                    #[trigger] self.table(s).data@ == confirm_all(start.table(s).data@, s, updates@.take(i as int)),
                forall|s: SelectedTopTab| #[trigger] self.table(s).same_view(start.table(s)),
            decreases updates@.len() - i,
        {
            let (space, a, v) = updates[i];
            let ghost prev = *self;
            proof {
                assert(updates@.take(i + 1).drop_last() =~= updates@.take(i as int));
                assert(updates@.take(i + 1).last() == updates@[i as int]);
                assert(self.table(space).wf());
            }
            if a < ADDRESS_LIMIT as u16 && space.accepts(v) {
                let t = self.table_mut(space);
                t.set_cell(a, v);
            }
            proof {
                assert forall|s: SelectedTopTab| #[trigger] self.table(s).wf() && self.table(s).table_type == s by {
                    assert(prev.table(s).wf());
                }
                assert forall|s: SelectedTopTab|
                    #[trigger] self.table(s).data@ == confirm_all(start.table(s).data@, s, updates@.take(i + 1)) by {
                    assert(prev.table(s).data@ == confirm_all(start.table(s).data@, s, updates@.take(i as int)));
                }
                assert forall|s: SelectedTopTab, a2: u16| !s.is_writable() implies !#[trigger] self.table(s).is_pending(a2) by {
                    let m0 = start.table(s).data@;
                    assert forall|b: u16| #[trigger] m0.contains_key(b) implies m0[b].state is Normal by {
                        assert(!start.table(s).is_pending(b));
                    }
                    lemma_confirm_all_clean(m0, s, updates@.take(i + 1));
                    assert(self.table(s).data@ == confirm_all(m0, s, updates@.take(i + 1)));
                }
                assert forall|s: SelectedTopTab| #[trigger] self.table(s).same_view(start.table(s)) by {
                    assert(prev.table(s).same_view(start.table(s)));
                }
            }
            i = i + 1;
        }
        proof {
            assert(updates@.take(i as int) =~= updates@);
            assert forall|s: SelectedTopTab|
                #[trigger] self.table(s).data@ == confirm_all(start.table(s).data@, s, updates@) by {
                assert(self.table(s).data@ == confirm_all(start.table(s).data@, s, updates@.take(i as int)));
            }
        }
    }

    /// The write commands of the pending set, ordered by space ordinal, then address.
    pub fn table_get_queued_commands(&self) -> (r: Vec<ModbusWriteCommand>)
        requires
            self.wf(),
        ensures
            forall|i: int, j: int|
                0 <= i < j < r@.len() ==> pending_order(r@[i].0.ordinal(), r@[i].1, r@[j].0.ordinal(), r@[j].1),
            forall|i: int|
                0 <= i < r@.len() ==> {
                    &&& self.table(r@[i].0).is_pending(#[trigger] r@[i].1)
                    &&& r@[i].2 == self.table(r@[i].0).data@[r@[i].1].queued_content
                },
            forall|s: SelectedTopTab, a: u16|
                #[trigger] self.table(s).is_pending(a) ==> exists|i: int|
                    0 <= i < r@.len() && r@[i].0 == s && #[trigger] r@[i].1 == a,
    {
        let items = self.pending_items();
        let mut out: Vec<ModbusWriteCommand> = Vec::new();
        let mut i: usize = 0;
        while i < items.len()
            invariant
                i <= items@.len(),
                out@.len() == i,
                forall|k: int|
                    0 <= k < i ==> {
                        &&& (#[trigger] out@[k]).0 == SelectedTopTab::from_ordinal(items@[k].table_index as nat)
                        &&& out@[k].1 == items@[k].address
                        &&& out@[k].2 == items@[k].cell.queued_content
                    },
                forall|k: int| 0 <= k < items@.len() ==> (#[trigger] items@[k]).table_index < 4,
            decreases items@.len() - i,
        {
            let item = items[i];
            let s = match SelectedTopTab::from_index(item.table_index) {
                Some(s) => s,
                None => SelectedTopTab::Coils,
            };
            out.push((s, item.address, item.cell.queued_content));
            i = i + 1;
        }
        proof {
            assert forall|k: int| 0 <= k < out@.len() implies (#[trigger] out@[k]).0.ordinal()
                == items@[k].table_index by {
                let t = items@[k].table_index;
                assert(t < 4);
            }
            assert forall|s: SelectedTopTab, a: u16|
                #[trigger] self.table(s).is_pending(a) implies exists|i: int|
                    0 <= i < out@.len() && out@[i].0 == s && #[trigger] out@[i].1 == a by {
                let k = choose|k: int|
                    0 <= k < items@.len() && items@[k].table_index == s.ordinal()
                        && #[trigger] items@[k].address == a;
                assert(out@[k].0 == s);
            }
        }
        out
    }

    /// A write request for the whole pending set, or `None` when not connected.
    pub fn write_request(&self) -> (r: Option<ModbusCommandQueue>)
        requires
            self.wf(),
        ensures
            self.connection_status is NotConnected ==> r is None,
            self.connection_status is Connected ==> (r matches Some(ModbusCommandQueue::Write(cmds))
                && forall|s: SelectedTopTab, a: u16|
                #[trigger] self.table(s).is_pending(a) <==> exists|i: int|
                    0 <= i < cmds@.len() && cmds@[i].0 == s && #[trigger] cmds@[i].1 == a),
            r matches Some(ModbusCommandQueue::Write(cmds)) ==> forall|i: int|
                0 <= i < cmds@.len() ==> #[trigger] cmds@[i].2 == self.table(cmds@[i].0).data@[cmds@[i].1].queued_content,
            r matches Some(ModbusCommandQueue::Write(cmds)) ==> forall|i: int|
                0 <= i < cmds@.len() ==> (#[trigger] cmds@[i]).0.is_writable(),
            r matches Some(ModbusCommandQueue::Write(cmds)) ==> forall|i: int, j: int|
                0 <= i < j < cmds@.len() ==> pending_order(
                    cmds@[i].0.ordinal(),
                    cmds@[i].1,
                    cmds@[j].0.ordinal(),
                    cmds@[j].1,
                ),
    {
        match self.connection_status {
            ConnectionStatus::NotConnected => None,
            ConnectionStatus::Connected => {
                let cmds = self.table_get_queued_commands();
                assert forall|s: SelectedTopTab, a: u16|
                    (exists|i: int| 0 <= i < cmds@.len() && cmds@[i].0 == s && #[trigger] cmds@[i].1 == a)
                    implies #[trigger] self.table(s).is_pending(a) by {
                    let i = choose|i: int| 0 <= i < cmds@.len() && cmds@[i].0 == s && #[trigger] cmds@[i].1 == a;
                    assert(self.table(cmds@[i].0).is_pending(cmds@[i].1));
                }
                assert forall|i: int| 0 <= i < cmds@.len() implies (#[trigger] cmds@[i]).0.is_writable() by {
                    assert(self.table(cmds@[i].0).is_pending(cmds@[i].1));
                }
                Some(ModbusCommandQueue::Write(cmds))
            },
        }
    }

    /// A read request for the page shown in the selected space, or `None` when
    /// not connected. The batch starts at the page's first address and stops
    /// at the page's end or at the end of the address range.
    pub fn read_page_request(&self) -> (r: Option<ModbusCommandQueue>)
        requires
            self.wf(),
        ensures
            self.connection_status is NotConnected ==> r is None,
            self.connection_status is Connected ==> (r matches Some(ModbusCommandQueue::Read(bs)) && bs@.len() == 1
                && ({
                let t = self.table(self.selected_top_tab);
                let start = t.cursor().0 * (t.rows() * t.cols());
                &&& bs@[0].0 == self.selected_top_tab
                &&& bs@[0].1 == start
                &&& bs@[0].2 == if start + t.rows() * t.cols() <= ADDRESS_LIMIT {
                    (t.rows() * t.cols()) as int
                } else {
                    ADDRESS_LIMIT - start
                }
            })),
    {
        match self.connection_status {
            ConnectionStatus::NotConnected => None,
            ConnectionStatus::Connected => {
                let s = self.selected_top_tab;
                let t = self.table_ref(s);
                assert(t.wf());
                let ps = t.page_size();
                proof {
                    assert(t.page_offset * ps <= t.table_address) by (nonlinear_arith)
                        requires
                            t.table_address == t.page_offset * ps + t.selected_row * t.table_cols + t.selected_col,
                            t.selected_row >= 0,
                            t.table_cols >= 0,
                    ;
                }
                let start = t.page_offset * ps;
                let count = if ps <= ADDRESS_LIMIT - start {
                    ps
                } else {
                    ADDRESS_LIMIT - start
                };
                let mut bs: Vec<(SelectedTopTab, u16, u16)> = Vec::new();
                bs.push((s, start as u16, count as u16));
                Some(ModbusCommandQueue::Read(bs))
            },
        }
    }

    /// Surfaces a worker failure. A lost connection also ends the connection;
    /// no cell changes either way.
    pub fn handle_error(&mut self, e: ModbusError)
        requires
            old(self).wf(),
        ensures
            final(self).wf(),
            final(self).tables_unchanged(&*old(self)),
            final(self).selected_top_tab == old(self).selected_top_tab,
            match e {
                ModbusError::ConnectionLost(m) => {
                    &&& final(self).connection_status is NotConnected
                    &&& final(self).endpoint is None
                    &&& final(self).app_mode == AppMode::Popup(PopupType::Error(m))
                },
                ModbusError::ProtocolError(m) => {
                    &&& final(self).connection_status == old(self).connection_status
                    &&& final(self).endpoint == old(self).endpoint
                    &&& final(self).app_mode == AppMode::Popup(PopupType::Error(m))
                },
            },
    {
        match e {
            ModbusError::ConnectionLost(m) => {
                self.connection_status = ConnectionStatus::NotConnected;
                self.endpoint = None;
                self.app_mode = AppMode::Popup(PopupType::Error(m));
            },
            ModbusError::ProtocolError(m) => {
                self.app_mode = AppMode::Popup(PopupType::Error(m));
            },
        }
        proof {
            self.lemma_tables_kept(&*old(self));
        }
    }

    /// Folds a finished request's report back in: values read or written are
    /// confirmed; a failure changes no cell, so a failed batch stays pending.
    pub fn handle_report(&mut self, report: WorkerReport)
        requires
            old(self).wf(),
        ensures
            final(self).wf(),
            match report {
                WorkerReport::Updates(u) => {
                    &&& final(self).status_unchanged(&*old(self))
                    &&& forall|s: SelectedTopTab|
                        #[trigger] final(self).table(s).data@ == confirm_all(old(self).table(s).data@, s, u@)
                    &&& forall|s: SelectedTopTab| #[trigger] final(self).table(s).same_view(old(self).table(s))
                },
                WorkerReport::Written(u) => {
                    &&& final(self).status_unchanged(&*old(self))
                    &&& forall|s: SelectedTopTab|
                        #[trigger] final(self).table(s).data@ == confirm_all(old(self).table(s).data@, s, u@)
                    &&& forall|s: SelectedTopTab| #[trigger] final(self).table(s).same_view(old(self).table(s))
                },
                WorkerReport::Failed(e) => {
                    &&& final(self).tables_unchanged(&*old(self))
                    &&& final(self).selected_top_tab == old(self).selected_top_tab
                    &&& match e {
                        ModbusError::ConnectionLost(m) => {
                            &&& final(self).connection_status is NotConnected
                            &&& final(self).endpoint is None
                            &&& final(self).app_mode == AppMode::Popup(PopupType::Error(m))
                        },
                        ModbusError::ProtocolError(m) => {
                            &&& final(self).connection_status == old(self).connection_status
                            &&& final(self).endpoint == old(self).endpoint
                            &&& final(self).app_mode == AppMode::Popup(PopupType::Error(m))
                        },
                    }
                },
            },
    {
        match report {
            WorkerReport::Updates(u) => self.apply_modbus_updates(&u),
            WorkerReport::Written(u) => self.apply_modbus_updates(&u),
            WorkerReport::Failed(e) => self.handle_error(e),
        }
    }

    /// A new connection to `ip`:`port`; returns whether one existed, which the
    /// caller tears down before starting the new worker.
    pub fn on_connect(&mut self, ip: IpAddress, port: u16) -> (replaced: bool)
        requires
            old(self).wf(),
        ensures
            final(self).wf(),
            final(self).tables_unchanged(&*old(self)),
            final(self).connection_status is Connected,
            final(self).endpoint == Some((ip, port)),
            final(self).app_mode == old(self).app_mode,
            final(self).selected_top_tab == old(self).selected_top_tab,
            replaced == old(self).connection_status is Connected,
    {
        let replaced = match self.connection_status {
            ConnectionStatus::Connected => true,
            ConnectionStatus::NotConnected => false,
        };
        self.connection_status = ConnectionStatus::Connected;
        self.endpoint = Some((ip, port));
        proof {
            self.lemma_tables_kept(&*old(self));
        }
        replaced
    }

    /// Ends the connection.
    pub fn on_disconnect(&mut self)
        requires
            old(self).wf(),
        ensures
            final(self).wf(),
            final(self).tables_unchanged(&*old(self)),
            final(self).connection_status is NotConnected,
            final(self).endpoint is None,
            final(self).app_mode == old(self).app_mode,
            final(self).selected_top_tab == old(self).selected_top_tab,
    {
        self.connection_status = ConnectionStatus::NotConnected;
        self.endpoint = None;
        proof {
            self.lemma_tables_kept(&*old(self));
        }
    }
    proof fn lemma_one_table_changed(&self, other: &Session, s: SelectedTopTab, t: AppTable)
        requires
            other.wf(),
            *self == other.with_table(s, t),
            t.wf(),
            t.table_type == s,
            s.is_writable() || forall|a: u16| !#[trigger] t.is_pending(a),
        ensures
            self.wf(),
            forall|s2: SelectedTopTab| s2 != s ==> #[trigger] self.table(s2) == other.table(s2),
            self.table(s) == t,
            self.status_unchanged(other),
    {
        assert forall|s2: SelectedTopTab| #[trigger] self.table(s2).wf() && self.table(s2).table_type == s2 by {
            assert(other.table(s2).wf());
        }
        assert forall|s2: SelectedTopTab, a: u16| !s2.is_writable() implies !#[trigger] self.table(s2).is_pending(a) by {
            if s2 != s {
                assert(self.table(s2) == other.table(s2));
            }
        }
    }

    /// Stages `new_value` at the cursor of the selected space, as a bit (any
    /// non-zero word sets it) or as a word. Read-only spaces refuse it.
    pub fn table_queue_current_cell(&mut self, new_value: u16) -> (staged: bool)
        requires
            old(self).wf(),
        ensures
            final(self).wf(),
            final(self).status_unchanged(&*old(self)),
            staged == old(self).selected_top_tab.is_writable(),
            !staged ==> final(self).tables_unchanged(&*old(self)),
            staged ==> ({
                let s = old(self).selected_top_tab;
                let t = old(self).table(s);
                &&& final(self).table(s).data@ == t.data@.insert(
                    t.table_address,
                    t.cell_at(t.table_address).staged(s.word_value(new_value)),
                )
                &&& final(self).table(s).same_view(t)
                &&& forall|s2: SelectedTopTab| s2 != s ==> #[trigger] final(self).table(s2) == old(self).table(s2)
            }),
    {
        let s = self.selected_top_tab;
        if !s.is_writable_exec() {
            return false;
        }
        let v = s.value_of_word(new_value);
        proof {
            assert(self.table(s).wf());
        }
        let t = self.table_mut(s);
        t.queue_current_cell(v);
        proof {
            self.lemma_one_table_changed(&*old(self), s, self.table(s));
        }
        true
    }

    /// Flips the staged bit at the cursor of the coil space; any other space refuses it.
    pub fn table_toggle_current_cell(&mut self) -> (toggled: bool)
        requires
            old(self).wf(),
        ensures
            final(self).wf(),
            final(self).status_unchanged(&*old(self)),
            toggled == old(self).selected_top_tab is Coils,
            !toggled ==> final(self).tables_unchanged(&*old(self)),
            toggled ==> ({
                let t = old(self).coils;
                &&& final(self).coils.data@ == t.data@.insert(
                    t.table_address,
                    t.cell_at(t.table_address).toggled(),
                )
                &&& final(self).coils.same_view(t)
                &&& forall|s2: SelectedTopTab| s2 != SelectedTopTab::Coils ==> #[trigger] final(self).table(s2) == old(self).table(s2)
            }),
    {
        match self.selected_top_tab {
            SelectedTopTab::Coils => {},
            _ => return false,
        }
        proof {
            assert(self.table(SelectedTopTab::Coils).wf());
        }
        let t = self.table_mut(SelectedTopTab::Coils);
        t.toggle_current_coil();
        proof {
            self.lemma_one_table_changed(&*old(self), SelectedTopTab::Coils, self.coils);
        }
        true
    }

    /// Drops the staged value at address `a` of space `s`.
    pub fn revert_item(&mut self, s: SelectedTopTab, a: u16)
        requires
            old(self).wf(),
        ensures
            final(self).wf(),
            final(self).status_unchanged(&*old(self)),
            old(self).table(s).data@.contains_key(a) ==> final(self).table(s).data@ == old(self).table(s).data@.insert(
                a,
                old(self).table(s).data@[a].reverted(),
            ),
            !old(self).table(s).data@.contains_key(a) ==> final(self).table(s).data@ == old(self).table(s).data@,
            final(self).table(s).same_view(old(self).table(s)),
            forall|s2: SelectedTopTab| s2 != s ==> #[trigger] final(self).table(s2) == old(self).table(s2),
    {
        proof {
            assert(self.table(s).wf());
        }
        let t = self.table_mut(s);
        t.revert(a);
        proof {
            assert forall|b: u16| !s.is_writable() implies !#[trigger] self.table(s).is_pending(b) by {
                assert(!old(self).table(s).is_pending(b));
            }
            self.lemma_one_table_changed(&*old(self), s, self.table(s));
        }
    }

    /// Drops the staged value at the cursor of the selected space.
    pub fn table_revert_current_cell(&mut self)
        requires
            old(self).wf(),
        ensures
            final(self).wf(),
            final(self).status_unchanged(&*old(self)),
            ({
                let s = old(self).selected_top_tab;
                let t = old(self).table(s);
                &&& t.data@.contains_key(t.table_address) ==> final(self).table(s).data@ == t.data@.insert(
                    t.table_address,
                    t.data@[t.table_address].reverted(),
                )
                &&& !t.data@.contains_key(t.table_address) ==> final(self).table(s).data@ == t.data@
                &&& final(self).table(s).same_view(t)
                &&& forall|s2: SelectedTopTab| s2 != s ==> #[trigger] final(self).table(s2) == old(self).table(s2)
            }),
    {
        let s = self.selected_top_tab;
        let a = self.table_ref(s).table_address;
        self.revert_item(s, a);
    }

    /// Selects the next space; the last one stays selected.
    pub fn next_top_tab(&mut self)
        requires
            old(self).wf(),
        ensures
            final(self).wf(),
            final(self).connection_status == old(self).connection_status,
            final(self).endpoint == old(self).endpoint,
            final(self).app_mode == old(self).app_mode,
            final(self).tables_unchanged(&*old(self)),
            final(self).selected_top_tab.ordinal() == if old(self).selected_top_tab.ordinal() < 3 {
                old(self).selected_top_tab.ordinal() + 1
            } else {
                3
            },
    {
        self.selected_top_tab = self.selected_top_tab.next();
        proof {
            self.lemma_tables_kept(&*old(self));
        }
    }

    /// Selects the previous space; the first one stays selected.
    pub fn previous_top_tab(&mut self)
        requires
            old(self).wf(),
        ensures
            final(self).wf(),
            final(self).connection_status == old(self).connection_status,
            final(self).endpoint == old(self).endpoint,
            final(self).app_mode == old(self).app_mode,
            final(self).tables_unchanged(&*old(self)),
            final(self).selected_top_tab.ordinal() == if old(self).selected_top_tab.ordinal() > 0 {
                old(self).selected_top_tab.ordinal() - 1
            } else {
                0
            },
    {
        self.selected_top_tab = self.selected_top_tab.previous();
        proof {
            self.lemma_tables_kept(&*old(self));
        }
    }

    /// Selects space `s` and moves its cursor to address `a`.
    pub fn queue_go_to_cell(&mut self, s: SelectedTopTab, a: u16)
        requires
            old(self).wf(),
            a < ADDRESS_LIMIT,
        ensures
            final(self).wf(),
            final(self).connection_status == old(self).connection_status,
            final(self).endpoint == old(self).endpoint,
            final(self).app_mode == old(self).app_mode,
            final(self).selected_top_tab == s,
            final(self).table(s).table_address == a,
            final(self).table(s).same_store(old(self).table(s)),
            forall|s2: SelectedTopTab| s2 != s ==> #[trigger] final(self).table(s2) == old(self).table(s2),
    {
        proof {
            assert(self.table(s).wf());
        }
        let t = self.table_mut(s);
        t.go_to_cell(a);
        proof {
            assert forall|b: u16| !s.is_writable() implies !#[trigger] self.table(s).is_pending(b) by {
                assert(!old(self).table(s).is_pending(b));
            }
            self.lemma_one_table_changed(&*old(self), s, self.table(s));
        }
        let ghost moved = *self;
        self.selected_top_tab = s;
        proof {
            self.lemma_tables_kept(&moved);
        }
    }
}

} // verus!
