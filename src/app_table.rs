//! One address space: a sparse store of cells plus a cursor over a paged viewport.
use vstd::prelude::*;
use vstd::std_specs::btree::{increasing_seq, spec_btree_map_iter};
use vstd::std_specs::cmp::OrdSpec;
use vstd::std_specs::iter::IteratorSpec;

use std::collections::BTreeMap;

use crate::enums::{CellState, CellType, SelectedTopTab};
use crate::geometry::{
    address_cell,
    cell_address,
    clamp,
    last_cell,
    lemma_address_cell_inverse,
    lemma_clamp_valid,
    lemma_valid_page_bound,
    next_page,
    prev_page,
    valid_cursor,
    ADDRESS_LIMIT,
};
use crate::queue::QueueItem;

verus! {

/// One cell of an address space: the last value confirmed by the device and
/// the value staged for writing.
#[derive(Clone, Copy, Debug, PartialEq, Eq, Structural)]
pub struct TableCell {
    pub original_content: CellType,
    pub queued_content: CellType,
    pub state: CellState,
    pub table_type: SelectedTopTab,
}

/// The state that goes with a staged and an original value.
pub open spec fn state_for(queued: CellType, original: CellType) -> CellState {
    if queued == original {
        CellState::Normal
    } else {
        CellState::Queued
    }
}

impl TableCell {
    /// Pending exactly when the staged value differs from the confirmed one, both
    /// values in the space's domain.
    pub open spec fn wf(self) -> bool {
        &&& self.state == state_for(self.queued_content, self.original_content)
        &&& self.table_type.fits(self.original_content)
        &&& self.table_type.fits(self.queued_content)
    }

    /// A cell that was never touched.
    pub open spec fn untouched(t: SelectedTopTab) -> TableCell {
        TableCell {
            original_content: t.zero(),
            queued_content: t.zero(),
            state: CellState::Normal,
            table_type: t,
        }
    }

    /// The value shown for the cell: the staged one while pending, else the confirmed one.
    pub open spec fn displayed(self) -> CellType {
        if self.state is Queued {
            self.queued_content
        } else {
            self.original_content
        }
    }

    pub open spec fn staged(self, v: CellType) -> TableCell {
        TableCell { queued_content: v, state: state_for(v, self.original_content), ..self }
    }

    pub open spec fn applied(self) -> TableCell {
        TableCell {
            original_content: self.queued_content,
            state: CellState::Normal,
            ..self
        }
    }

    pub open spec fn reverted(self) -> TableCell {
        TableCell {
            queued_content: self.original_content,
            state: CellState::Normal,
            ..self
        }
    }

    /// A value confirmed by the device: a clean cell follows it, a pending one keeps its staged value.
    pub open spec fn confirmed(self, v: CellType) -> TableCell {
        let q = if self.state is Normal {
            v
        } else {
            self.queued_content
        };
        TableCell {
            original_content: v,
            queued_content: q,
            state: state_for(q, v),
            ..self
        }
    }

    pub open spec fn toggled(self) -> TableCell {
        match self.queued_content {
            CellType::Coil(b) => self.staged(CellType::Coil(!b)),
            CellType::Word(_) => self,
        }
    }

    pub fn new(table_type: SelectedTopTab) -> (r: Self)
        ensures
            r == TableCell::untouched(table_type),
            r.wf(),
    {
        let zero = table_type.zero_value();
        TableCell {
            original_content: zero,
            queued_content: zero,
            state: CellState::Normal,
            table_type,
        }
    }

    /// The value shown for the cell.
    pub fn value(&self) -> (r: CellType)
        ensures
            r == self.displayed(),
    {
        match self.state {
            CellState::Queued => self.queued_content,
            CellState::Normal => self.original_content,
        }
    }

    /// Makes the staged value the confirmed one.
    pub fn apply(&mut self)
        ensures
            *final(self) == old(self).applied(),
            old(self).wf() ==> final(self).wf(),
    {
        self.original_content = self.queued_content;
        self.state = CellState::Normal;
    }

    /// Stages `new_value`; the cell is pending exactly when it differs from the confirmed value.
    pub fn queue(&mut self, new_value: CellType)
        ensures
            *final(self) == old(self).staged(new_value),
            old(self).wf() && old(self).table_type.fits(new_value) ==> final(self).wf(),
    {
        self.queued_content = new_value;
        self.state = if self.queued_content == self.original_content {
            CellState::Normal
        } else {
            CellState::Queued
        };
    }

    /// Drops the staged value.
    pub fn revert(&mut self)
        ensures
            *final(self) == old(self).reverted(),
            old(self).wf() ==> final(self).wf(),
    {
        self.queued_content = self.original_content;
        self.state = CellState::Normal;
    }

    /// Records a value read from the device.
    pub fn set(&mut self, new_value: CellType)
        ensures
            *final(self) == old(self).confirmed(new_value),
            old(self).wf() && old(self).table_type.fits(new_value) ==> final(self).wf(),
    {
        match self.state {
            CellState::Normal => {
                self.original_content = new_value;
                self.queued_content = new_value;
            },
            CellState::Queued => {
                self.original_content = new_value;
            },
        }
        self.state = if self.queued_content == self.original_content {
            CellState::Normal
        } else {
            CellState::Queued
        };
    }

    /// Flips a staged bit; a word cell is left as it is.
    pub fn toggle(&mut self)
        ensures
            *final(self) == old(self).toggled(),
            old(self).wf() ==> final(self).wf(),
    {
        match self.queued_content {
            CellType::Coil(content) => {
                self.queue(CellType::Coil(!content));
            },
            CellType::Word(_) => {},
        }
    }
}


/// The cell at `a` of a store for space `t`; an absent cell is an untouched one.
pub open spec fn cell_in(m: Map<u16, TableCell>, t: SelectedTopTab, a: u16) -> TableCell {
    if m.contains_key(a) {
        m[a]
    } else {
        TableCell::untouched(t)
    }
}

/// Staging `v` at `a` and applying it, done twice with the same `v`, leaves
/// one clean cell at `a` whose original value is `v`, and no other address
/// gains or loses a cell.
pub proof fn lemma_stage_apply_twice(m: Map<u16, TableCell>, t: SelectedTopTab, a: u16, v: CellType)
    ensures
        ({
            let m1 = m.insert(a, cell_in(m, t, a).staged(v));
            let m2 = m1.insert(a, m1[a].applied());
            let m3 = m2.insert(a, cell_in(m2, t, a).staged(v));
            let m4 = m3.insert(a, m3[a].applied());
            &&& m4.dom() == m.dom().insert(a)
            &&& m4[a].original_content == v
            &&& m4[a].queued_content == v
            &&& m4[a].state is Normal
            &&& forall|b: u16| b != a ==> cell_in(m4, t, b) == cell_in(m, t, b)
            &&& forall|b: u16| #[trigger] m.contains_key(b) && b != a ==> m4[b] == m[b]
        }),
{
    let m1 = m.insert(a, cell_in(m, t, a).staged(v));
    let m2 = m1.insert(a, m1[a].applied());
    let m3 = m2.insert(a, cell_in(m2, t, a).staged(v));
    let m4 = m3.insert(a, m3[a].applied());
    assert(m4.dom() =~= m.dom().insert(a));
}

/// Reverting after staging any `v` at `a` leaves a clean cell whose staged
/// value is its confirmed value, the one it had before the staging; every
/// other cell is as it was.
pub proof fn lemma_revert_after_stage(m: Map<u16, TableCell>, t: SelectedTopTab, a: u16, v: CellType)
    ensures
        ({
            let m1 = m.insert(a, cell_in(m, t, a).staged(v));
            let m2 = m1.insert(a, m1[a].reverted());
            &&& m2[a].queued_content == m2[a].original_content
            &&& m2[a].original_content == cell_in(m, t, a).original_content
            &&& m2[a].state is Normal
            &&& m2.dom() == m.dom().insert(a)
            &&& forall|b: u16| #[trigger] m.contains_key(b) && b != a ==> m2[b] == m[b]
        }),
{
    let m1 = m.insert(a, cell_in(m, t, a).staged(v));
    let m2 = m1.insert(a, m1[a].reverted());
    assert(m2.dom() =~= m.dom().insert(a));
}

/// One address space: the sparse cell store, the viewport geometry, the page
/// shown and the cursor within it.
#[derive(Clone, Debug)]
pub struct AppTable {
    pub table_rows: usize,
    pub table_cols: usize,
    pub selected_row: usize,
    pub selected_col: usize,
    pub table_address: u16,
    pub table_type: SelectedTopTab,
    pub data: BTreeMap<u16, TableCell>,
    pub page_offset: usize,
}

impl AppTable {
    /// The cell at address `a`; an absent cell is an untouched one.
    pub open spec fn cell_at(self, a: u16) -> TableCell {
        cell_in(self.data@, self.table_type, a)
    }

    /// Every stored cell is well formed, belongs to this space and sits at a valid address.
    pub open spec fn store_wf(self) -> bool {
        forall|a: u16| #[trigger]
            self.data@.contains_key(a) ==> a < ADDRESS_LIMIT && self.data@[a].wf()
                && self.data@[a].table_type == self.table_type
    }

    /// The pending set of this space.
    pub open spec fn is_pending(self, a: u16) -> bool {
        self.data@.contains_key(a) && self.data@[a].state is Queued
    }

    /// The value shown at address `a`.
    pub fn read(&self, a: u16) -> (r: CellType)
        requires
            self.store_wf(),
        ensures
            r == self.cell_at(a).displayed(),
    {
        match self.data.get(&a) {
            Some(cell) => cell.value(),
            None => self.table_type.zero_value(),
        }
    }

    /// The stored cell at `a`, or an untouched one.
    pub fn cell(&self, a: u16) -> (r: TableCell)
        ensures
            r == self.cell_at(a),
    {
        match self.data.get(&a) {
            Some(cell) => *cell,
            None => TableCell::new(self.table_type),
        }
    }

    /// Stages `v` at address `a`.
    pub fn stage_write(&mut self, a: u16, v: CellType)
        requires
            old(self).store_wf(),
            a < ADDRESS_LIMIT,
            old(self).table_type.fits(v),
        ensures
            final(self).data@ == old(self).data@.insert(a, old(self).cell_at(a).staged(v)),
            final(self).store_wf(),
            final(self).same_view(*old(self)),
    {
        let mut cell = self.cell(a);
        cell.queue(v);
        self.data.insert(a, cell);
    }

    /// Flips the staged bit at `a`; in a word space nothing changes.
    pub fn toggle(&mut self, a: u16)
        requires
            old(self).store_wf(),
            a < ADDRESS_LIMIT,
        ensures
            old(self).table_type.holds_bits() ==> final(self).data@ == old(self).data@.insert(
                a,
                old(self).cell_at(a).toggled(),
            ),
            !old(self).table_type.holds_bits() ==> final(self).data@ == old(self).data@,
            final(self).store_wf(),
            final(self).same_view(*old(self)),
    {
        if self.table_type.holds_bits_exec() {
            let mut cell = self.cell(a);
            cell.toggle();
            self.data.insert(a, cell);
        }
    }

    /// Drops the staged value at `a`, if a cell is stored there.
    pub fn revert(&mut self, a: u16)
        requires
            old(self).store_wf(),
        ensures
            old(self).data@.contains_key(a) ==> final(self).data@ == old(self).data@.insert(
                a,
                old(self).data@[a].reverted(),
            ),
            !old(self).data@.contains_key(a) ==> final(self).data@ == old(self).data@,
            final(self).store_wf(),
            final(self).same_view(*old(self)),
    {
        if let Some(c) = self.data.get(&a) {
            let mut cell = *c;
            cell.revert();
            self.data.insert(a, cell);
        }
    }

    /// Makes the staged value at `a` the confirmed one, if a cell is stored there.
    pub fn apply(&mut self, a: u16)
        requires
            old(self).store_wf(),
        ensures
            old(self).data@.contains_key(a) ==> final(self).data@ == old(self).data@.insert(
                a,
                old(self).data@[a].applied(),
            ),
            !old(self).data@.contains_key(a) ==> final(self).data@ == old(self).data@,
            final(self).store_wf(),
            final(self).same_view(*old(self)),
    {
        if let Some(c) = self.data.get(&a) {
            let mut cell = *c;
            cell.apply();
            self.data.insert(a, cell);
        }
    }

    /// Records the value `v` read from the device at `a`.
    pub fn set_cell(&mut self, a: u16, v: CellType)
        requires
            old(self).store_wf(),
            a < ADDRESS_LIMIT,
            old(self).table_type.fits(v),
        ensures
            final(self).data@ == old(self).data@.insert(a, old(self).cell_at(a).confirmed(v)),
            final(self).store_wf(),
            final(self).same_view(*old(self)),
    {
        let mut cell = self.cell(a);
        cell.set(v);
        self.data.insert(a, cell);
    }

    /// The cells at addresses `start` through `end`, both included.
    pub fn get_visible_data(&self, start: u16, end: u16) -> (r: Vec<TableCell>)
        requires
            start <= end,
        ensures
            r@.len() == end - start + 1,
            forall|i: int| 0 <= i < r@.len() ==> #[trigger] r@[i] == self.cell_at((start + i) as u16),
    {
        let mut out: Vec<TableCell> = Vec::new();
        let mut a: u16 = start;
        loop
            invariant_except_break
                start <= a <= end,
                out@.len() == a - start,
            invariant
                forall|i: int| 0 <= i < out@.len() ==> #[trigger] out@[i] == self.cell_at((start + i) as u16),
            ensures
                out@.len() == end - start + 1,
            decreases end - a,
        {
            out.push(self.cell(a));
            if a == end {
                break;
            }
            a = a + 1;
        }
        out
    }

    /// Geometry within bounds, a valid cursor, the cursor's address recorded,
    /// and a well-formed cell store.
    pub open spec fn wf(self) -> bool {
        &&& self.store_wf()
        &&& 1 <= self.table_rows <= 65535
        &&& 1 <= self.table_cols <= 65535
        &&& valid_cursor(self.rows(), self.cols(), self.cursor().0, self.cursor().1, self.cursor().2)
        &&& self.table_address == cell_address(self.rows(), self.cols(), self.cursor().0, self.cursor().1, self.cursor().2)
    }

    pub open spec fn rows(self) -> nat {
        self.table_rows as nat
    }

    pub open spec fn cols(self) -> nat {
        self.table_cols as nat
    }

    /// (page, row, column) of the cursor.
    pub open spec fn cursor(self) -> (nat, nat, nat) {
        (self.page_offset as nat, self.selected_row as nat, self.selected_col as nat)
    }

    /// Cells, geometry and space are those of `other`.
    pub open spec fn same_store(self, other: AppTable) -> bool {
        &&& self.data@ == other.data@
        &&& self.table_rows == other.table_rows
        &&& self.table_cols == other.table_cols
        &&& self.table_type == other.table_type
    }

    /// `self` is `other` with the cursor moved to the clamp of (`page`, `row`, `col`).
    pub open spec fn moved_to(self, other: AppTable, page: nat, row: nat, col: nat) -> bool {
        &&& self.wf()
        &&& self.same_store(other)
        &&& self.cursor() == clamp(other.rows(), other.cols(), page, row, col)
    }

    /// An empty space with the default viewport: 8 rows of 16 bits or of 8 words.
    pub fn new(table_type: SelectedTopTab) -> (r: Self)
        ensures
            r.wf(),
            r.data@ == Map::<u16, TableCell>::empty(),
            r.table_type == table_type,
            r.table_rows == 8,
            r.table_cols == (if table_type.holds_bits() { 16usize } else { 8usize }),
            r.cursor() == (0nat, 0nat, 0nat),
    {
        let cols: usize = if table_type.holds_bits_exec() {
            16
        } else {
            8
        };
        AppTable {
            table_rows: 8,
            table_cols: cols,
            selected_row: 0,
            selected_col: 0,
            table_address: 0,
            table_type,
            data: BTreeMap::new(),
            page_offset: 0,
        }
    }

    /// Number of cells on one page.
    pub fn page_size(&self) -> (r: usize)
        requires
            1 <= self.table_rows <= 65535,
            1 <= self.table_cols <= 65535,
        ensures
            r == self.rows() * self.cols(),
    {
        proof {
            vstd::arithmetic::mul::lemma_mul_upper_bound(
                self.table_rows as int,
                65535,
                self.table_cols as int,
                65535,
            );
        }
        self.table_rows * self.table_cols
    }

    /// The (page, row, column) at which address `index` is shown.
    pub fn index_to_cell(&self, index: usize) -> (r: (usize, usize, usize))
        requires
            1 <= self.table_rows <= 65535,
            1 <= self.table_cols <= 65535,
            index < ADDRESS_LIMIT,
        ensures
            (r.0 as nat, r.1 as nat, r.2 as nat) == address_cell(self.rows(), self.cols(), index as nat),
            valid_cursor(self.rows(), self.cols(), r.0 as nat, r.1 as nat, r.2 as nat),
    {
        proof {
            assert(self.rows() * self.cols() > 0) by (nonlinear_arith)
                requires
                    self.rows() >= 1,
                    self.cols() >= 1,
            ;
            lemma_address_cell_inverse(self.rows(), self.cols(), index as nat);
        }
        let page_offset = index / self.page_size();
        let row = (index / self.table_cols) % self.table_rows;
        let col = index % self.table_cols;
        (page_offset, row, col)
    }

    /// Address of the valid cursor (`page_offset`, `row`, `col`).
    pub fn cell_to_index(&self, page_offset: usize, row: usize, col: usize) -> (r: usize)
        requires
            1 <= self.table_rows <= 65535,
            1 <= self.table_cols <= 65535,
            valid_cursor(self.rows(), self.cols(), page_offset as nat, row as nat, col as nat),
        ensures
            r == cell_address(self.rows(), self.cols(), page_offset as nat, row as nat, col as nat),
    {
        let ps = self.page_size();
        proof {
            assert(page_offset * ps >= 0 && row * self.table_cols >= 0) by (nonlinear_arith)
                requires
                    page_offset >= 0,
                    ps >= 0,
                    row >= 0,
                    self.table_cols >= 0,
            ;
        }
        page_offset * ps + row * self.table_cols + col
    }

    /// Whether (`page_offset`, `row`, `col`) is a valid cursor.
    fn cell_exists(&self, page_offset: usize, row: usize, col: usize) -> (r: bool)
        requires
            1 <= self.table_rows <= 65535,
            1 <= self.table_cols <= 65535,
            page_offset <= 65535,
            row < self.table_rows,
            col < self.table_cols,
        ensures
            r == valid_cursor(self.rows(), self.cols(), page_offset as nat, row as nat, col as nat),
    {
        let ps = self.page_size() as u64;
        let p = page_offset as u64;
        let rw = row as u64;
        let cl = self.table_cols as u64;
        proof {
            assert(ps <= 65535 * 65535) by (nonlinear_arith)
                requires
                    ps == self.rows() * self.cols(),
                    self.rows() <= 65535,
                    self.cols() <= 65535,
            ;
            vstd::arithmetic::mul::lemma_mul_upper_bound(p as int, 65535, ps as int, 4294836225int);
            vstd::arithmetic::mul::lemma_mul_upper_bound(rw as int, 65535, cl as int, 65535);
            assert(p * ps >= 0 && rw * cl >= 0) by (nonlinear_arith)
                requires
                    p >= 0,
                    ps >= 0,
                    rw >= 0,
                    cl >= 0,
            ;
        }
        p * ps + rw * cl + (col as u64) < ADDRESS_LIMIT as u64
    }

    /// The cell of the last valid address.
    pub fn last_cell(&self) -> (r: (usize, usize, usize))
        requires
            1 <= self.table_rows <= 65535,
            1 <= self.table_cols <= 65535,
        ensures
            (r.0 as nat, r.1 as nat, r.2 as nat) == last_cell(self.rows(), self.cols()),
            valid_cursor(self.rows(), self.cols(), r.0 as nat, r.1 as nat, r.2 as nat),
    {
        self.index_to_cell(ADDRESS_LIMIT - 1)
    }

    /// Puts the cursor on the clamp of (`page_offset`, `row`, `col`) and records its address.
    fn place(&mut self, page_offset: usize, row: usize, col: usize)
        requires
            old(self).store_wf(),
            1 <= old(self).table_rows <= 65535,
            1 <= old(self).table_cols <= 65535,
            page_offset <= last_cell(old(self).rows(), old(self).cols()).0,
            row < old(self).table_rows,
            col < old(self).table_cols,
        ensures
            final(self).moved_to(*old(self), page_offset as nat, row as nat, col as nat),
    {
        proof {
            assert(self.rows() * self.cols() > 0) by (nonlinear_arith)
                requires
                    self.rows() >= 1,
                    self.cols() >= 1,
            ;
            lemma_clamp_valid(self.rows(), self.cols(), page_offset as nat, row as nat, col as nat);
            lemma_address_cell_inverse(self.rows(), self.cols(), (ADDRESS_LIMIT - 1) as nat);
        }
        let (r, c) = if self.cell_exists(page_offset, row, col) {
            (row, col)
        } else {
            let (_last_page, last_row, last_col) = self.last_cell();
            if col <= last_col {
                (last_row, col)
            } else {
                (last_row, last_col)
            }
        };
        let address = self.cell_to_index(page_offset, r, c);
        self.page_offset = page_offset;
        self.selected_row = r;
        self.selected_col = c;
        self.table_address = address as u16;
    }

    /// Moves the cursor to address `a`.
    pub fn go_to_cell(&mut self, a: u16)
        requires
            old(self).wf(),
            a < ADDRESS_LIMIT,
        ensures
            final(self).wf(),
            final(self).same_store(*old(self)),
            final(self).cursor() == address_cell(old(self).rows(), old(self).cols(), a as nat),
            final(self).table_address == a,
    {
        let (page_offset, row, col) = self.index_to_cell(a as usize);
        proof {
            assert(self.rows() * self.cols() > 0) by (nonlinear_arith)
                requires
                    self.rows() >= 1,
                    self.cols() >= 1,
            ;
            lemma_address_cell_inverse(self.rows(), self.cols(), a as nat);
        }
        self.page_offset = page_offset;
        self.selected_row = row;
        self.selected_col = col;
        self.table_address = a;
    }

    /// Changes the viewport to `rows` x `cols`; the cursor stays on the same address.
    pub fn resize(&mut self, rows: usize, cols: usize)
        requires
            old(self).wf(),
            1 <= rows <= 65535,
            1 <= cols <= 65535,
        ensures
            final(self).wf(),
            final(self).data@ == old(self).data@,
            final(self).table_type == old(self).table_type,
            final(self).table_rows == rows,
            final(self).table_cols == cols,
            final(self).table_address == old(self).table_address,
            final(self).cursor() == address_cell(rows as nat, cols as nat, old(self).table_address as nat),
    {
        self.table_rows = rows;
        self.table_cols = cols;
        let a = self.table_address;
        let (page_offset, row, col) = self.index_to_cell(a as usize);
        proof {
            assert(self.rows() * self.cols() > 0) by (nonlinear_arith)
                requires
                    self.rows() >= 1,
                    self.cols() >= 1,
            ;
            lemma_address_cell_inverse(self.rows(), self.cols(), a as nat);
        }
        self.page_offset = page_offset;
        self.selected_row = row;
        self.selected_col = col;
    }

    proof fn lemma_on_existing_page(self)
        requires
            self.wf(),
        ensures
            self.cursor().0 <= last_cell(self.rows(), self.cols()).0,
            self.rows() * self.cols() > 0,
    {
        assert(self.rows() * self.cols() > 0) by (nonlinear_arith)
            requires
                self.rows() >= 1,
                self.cols() >= 1,
        ;
        lemma_valid_page_bound(self.rows(), self.cols(), self.cursor().0, self.cursor().1, self.cursor().2);
    }

    /// Shows the previous page, rolling from the first to the last; the cursor keeps its row and column.
    pub fn page_up(&mut self)
        requires
            old(self).wf(),
        ensures
            final(self).moved_to(*old(self), prev_page(old(self).rows(), old(self).cols(), old(self).cursor().0),
                old(self).cursor().1, old(self).cursor().2),
    {
        proof { self.lemma_on_existing_page(); }
        let (last_page, _last_row, _last_col) = self.last_cell();
        let page = if self.page_offset > 0 {
            self.page_offset - 1
        } else {
            last_page
        };
        self.place(page, self.selected_row, self.selected_col);
    }

    /// Shows the next page, rolling from the last to the first; the cursor keeps its row and column.
    pub fn page_down(&mut self)
        requires
            old(self).wf(),
        ensures
            final(self).moved_to(*old(self), next_page(old(self).rows(), old(self).cols(), old(self).cursor().0),
                old(self).cursor().1, old(self).cursor().2),
    {
        proof { self.lemma_on_existing_page(); }
        let (last_page, _last_row, _last_col) = self.last_cell();
        let page = if self.page_offset < last_page {
            self.page_offset + 1
        } else {
            0
        };
        self.place(page, self.selected_row, self.selected_col);
    }

    /// Moves the cursor one row up; from the top row it goes to the bottom row of the previous page.
    pub fn move_up(&mut self)
        requires
            old(self).wf(),
        ensures
            old(self).cursor().1 > 0 ==> final(self).moved_to(*old(self), old(self).cursor().0,
                (old(self).cursor().1 - 1) as nat, old(self).cursor().2),
            old(self).cursor().1 == 0 ==> final(self).moved_to(*old(self),
                prev_page(old(self).rows(), old(self).cols(), old(self).cursor().0),
                (old(self).rows() - 1) as nat, old(self).cursor().2),
    {
        proof { self.lemma_on_existing_page(); }
        if self.selected_row > 0 {
            self.place(self.page_offset, self.selected_row - 1, self.selected_col);
        } else {
            let (last_page, _last_row, _last_col) = self.last_cell();
            let page = if self.page_offset > 0 {
                self.page_offset - 1
            } else {
                last_page
            };
            self.place(page, self.table_rows - 1, self.selected_col);
        }
    }

    /// Moves the cursor one row down, to the address one row further on: the
    /// same column of the next row, or of the top row of the next page. When
    /// that address is past the last valid one, the cursor wraps to address 0.
    pub fn move_down(&mut self)
        requires
            old(self).wf(),
        ensures
            ({
                let (p, r, c) = old(self).cursor();
                if old(self).table_address + old(self).cols() >= ADDRESS_LIMIT {
                    final(self).moved_to(*old(self), 0, 0, 0)
                } else if r + 1 < old(self).rows() {
                    final(self).moved_to(*old(self), p, r + 1, c)
                } else {
                    final(self).moved_to(*old(self), p + 1, 0, c)
                }
            }),
            final(self).table_address == (if old(self).table_address + old(self).cols() >= ADDRESS_LIMIT {
                0
            } else {
                old(self).table_address + old(self).cols()
            }),
    {
        proof { self.lemma_on_existing_page(); }
        let p = self.page_offset;
        let r = self.selected_row;
        let c = self.selected_col;
        let rows = self.table_rows;
        let cols = self.table_cols;
        if self.table_address as usize + cols >= ADDRESS_LIMIT {
            self.place(0, 0, 0);
        } else if r + 1 < rows {
            proof {
                assert(cell_address(rows as nat, cols as nat, p as nat, (r + 1) as nat, c as nat)
                    == cell_address(rows as nat, cols as nat, p as nat, r as nat, c as nat) + cols) by (nonlinear_arith);
            }
            self.place(p, r + 1, c);
        } else {
            proof {
                assert(cell_address(rows as nat, cols as nat, (p + 1) as nat, 0, c as nat)
                    == cell_address(rows as nat, cols as nat, p as nat, r as nat, c as nat) + cols) by (nonlinear_arith)
                    requires
                        r + 1 == rows,
                ;
                lemma_valid_page_bound(rows as nat, cols as nat, (p + 1) as nat, 0, c as nat);
            }
            self.place(p + 1, 0, c);
        }
    }

    /// Moves the cursor one column left; from the first column it goes to the last one of the row.
    pub fn move_left(&mut self)
        requires
            old(self).wf(),
        ensures
            old(self).cursor().2 > 0 ==> final(self).moved_to(*old(self), old(self).cursor().0,
                old(self).cursor().1, (old(self).cursor().2 - 1) as nat),
            old(self).cursor().2 == 0 ==> final(self).moved_to(*old(self), old(self).cursor().0,
                old(self).cursor().1, (old(self).cols() - 1) as nat),
    {
        proof { self.lemma_on_existing_page(); }
        if self.selected_col > 0 {
            self.place(self.page_offset, self.selected_row, self.selected_col - 1);
        } else {
            self.place(self.page_offset, self.selected_row, self.table_cols - 1);
        }
    }

    /// Moves the cursor one column right. Past the last valid column of a row
    /// it goes to the first column of the row; past the last valid address it
    /// wraps to address 0.
    pub fn move_right(&mut self)
        requires
            old(self).wf(),
        ensures
            ({
                let (p, r, c) = old(self).cursor();
                if c + 1 < old(self).cols() && valid_cursor(old(self).rows(), old(self).cols(), p, r, c + 1) {
                    final(self).moved_to(*old(self), p, r, c + 1)
                } else if old(self).table_address == ADDRESS_LIMIT - 1 {
                    final(self).moved_to(*old(self), 0, 0, 0)
                } else {
                    final(self).moved_to(*old(self), p, r, 0)
                }
            }),
    {
        proof { self.lemma_on_existing_page(); }
        if self.selected_col + 1 < self.table_cols && self.cell_exists(self.page_offset, self.selected_row, self.selected_col + 1) {
            self.place(self.page_offset, self.selected_row, self.selected_col + 1);
        } else if self.table_address as usize == ADDRESS_LIMIT - 1 {
            self.place(0, 0, 0);
        } else {
            self.place(self.page_offset, self.selected_row, 0);
        }
    }

    /// Stages `new_value` at the cursor.
    pub fn queue_current_cell(&mut self, new_value: CellType)
        requires
            old(self).wf(),
            old(self).table_type.fits(new_value),
        ensures
            final(self).wf(),
            final(self).same_view(*old(self)),
            final(self).data@ == old(self).data@.insert(
                old(self).table_address,
                old(self).cell_at(old(self).table_address).staged(new_value),
            ),
    {
        self.stage_write(self.table_address, new_value);
    }

    /// Drops the staged value at the cursor.
    pub fn revert_current_cell(&mut self)
        requires
            old(self).wf(),
        ensures
            final(self).wf(),
            final(self).same_view(*old(self)),
            old(self).data@.contains_key(old(self).table_address) ==> final(self).data@
                == old(self).data@.insert(
                old(self).table_address,
                old(self).data@[old(self).table_address].reverted(),
            ),
            !old(self).data@.contains_key(old(self).table_address) ==> final(self).data@
                == old(self).data@,
    {
        self.revert(self.table_address);
    }

    /// Flips the staged bit at the cursor; in a word space nothing changes.
    pub fn toggle_current_coil(&mut self)
        requires
            old(self).wf(),
        ensures
            final(self).wf(),
            final(self).same_view(*old(self)),
            old(self).table_type.holds_bits() ==> final(self).data@ == old(self).data@.insert(
                old(self).table_address,
                old(self).cell_at(old(self).table_address).toggled(),
            ),
            !old(self).table_type.holds_bits() ==> final(self).data@ == old(self).data@,
    {
        self.toggle(self.table_address);
    }

    /// Everything but the cell store is unchanged.
    pub open spec fn same_view(self, other: AppTable) -> bool {
        &&& self.table_rows == other.table_rows
        &&& self.table_cols == other.table_cols
        &&& self.selected_row == other.selected_row
        &&& self.selected_col == other.selected_col
        &&& self.table_address == other.table_address
        &&& self.table_type == other.table_type
        &&& self.page_offset == other.page_offset
    }

    /// The pending cells of this space, by ascending address.
    pub fn get_queue_items(&self) -> (r: Vec<QueueItem>)
        requires
            self.store_wf(),
        ensures
            forall|i: int|
                0 <= i < r@.len() ==> {
                    &&& self.is_pending(#[trigger] r@[i].address)
                    &&& r@[i].cell == self.data@[r@[i].address]
                    &&& r@[i].table_index == self.table_type.ordinal()
                },
            forall|i: int, j: int| 0 <= i < j < r@.len() ==> r@[i].address < r@[j].address,
            forall|a: u16|
                self.is_pending(a) ==> exists|i: int| 0 <= i < r@.len() && #[trigger] r@[i].address == a,
    {
        let mut out: Vec<QueueItem> = Vec::new();
        let idx = self.table_type.index();
        let iter = self.data.iter();
        let ghost entries = iter.remaining();
        let ghost keys = entries.map_values(|kv: (&u16, &TableCell)| *kv.0);
        proof {
            assert(entries == spec_btree_map_iter(&self.data).remaining());
            assert(increasing_seq(keys));
            assert forall|m: int, n: int| 0 <= m < n < keys.len() implies keys[m] < keys[n] by {
                assert(keys[m].cmp_spec(&keys[n]) is Less);
            }
        }
        for (k, v) in it: iter
            invariant
                it.seq() == entries,
                forall|i: int|
                    0 <= i < entries.len() ==> self.data@.contains_key(*(#[trigger] entries[i]).0)
                        && self.data@[*entries[i].0] == *entries[i].1,
                forall|a: u16| #[trigger]
                    self.data@.contains_key(a) ==> entries.contains((&a, &self.data@[a])),
                keys == entries.map_values(|kv: (&u16, &TableCell)| *kv.0),
                forall|m: int, n: int| 0 <= m < n < keys.len() ==> keys[m] < keys[n],
                forall|i: int|
                    0 <= i < out@.len() ==> {
                        &&& self.is_pending(#[trigger] out@[i].address)
                        &&& out@[i].cell == self.data@[out@[i].address]
                        &&& out@[i].table_index == self.table_type.ordinal()
                    },
                forall|i: int, j: int| 0 <= i < j < out@.len() ==> out@[i].address < out@[j].address,
                forall|i: int|
                    0 <= i < out@.len() && it.index() < keys.len() ==> #[trigger] out@[i].address
                        < keys[it.index()],
                forall|m: int|
                    0 <= m < it.index() && self.is_pending(#[trigger] keys[m]) ==> exists|i: int|
                        0 <= i < out@.len() && out@[i].address == keys[m],
                idx == self.table_type.ordinal(),
        {
            let ghost n = it.index();
            let ghost before = out@;
            proof {
                assert(*k == keys[n]);
                assert(entries[n] == (k, v));
                assert(self.data@.contains_key(*entries[n].0));
                assert(*v == self.data@[*k]);
            }
            if v.state == CellState::Queued {
                out.push(QueueItem { address: *k, cell: *v, table_index: idx });
                proof {
                    assert(out@[before.len() as int].address == keys[n]);
                }
            }
            proof {
                assert forall|m: int|
                    0 <= m <= n && self.is_pending(#[trigger] keys[m]) implies exists|i: int|
                    0 <= i < out@.len() && out@[i].address == keys[m] by {
                    if m < n {
                        let i = choose|i: int| 0 <= i < before.len() && before[i].address == keys[m];
                        assert(out@[i] == before[i]);
                    } else {
                        assert(out@[before.len() as int].address == keys[m]);
                    }
                }
            }
        }
        proof {
            assert forall|a: u16| self.is_pending(a) implies exists|i: int|
                0 <= i < out@.len() && #[trigger] out@[i].address == a by {
                assert(entries.contains((&a, &self.data@[a])));
                let m = choose|m: int| 0 <= m < entries.len() && entries[m] == (&a, &self.data@[a]);
                assert(keys[m] == a);
            }
        }
        out
    }
}

} // verus!
