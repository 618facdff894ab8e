//! Address <-> (page, row, column) arithmetic for a viewport of `rows` x `cols`
//! cells laid over one address space.
use vstd::prelude::*;
use vstd::arithmetic::div_mod::{
    lemma_div_denominator,
    lemma_fundamental_div_mod,
    lemma_fundamental_div_mod_converse,
};

verus! {

/// Every valid address lies below this bound.
pub const ADDRESS_LIMIT: usize = 65535;

/// Linear address of the cell at (`page`, `row`, `col`).
pub open spec fn cell_address(rows: nat, cols: nat, page: nat, row: nat, col: nat) -> nat {
    page * (rows * cols) + row * cols + col
}

/// The (page, row, column) at which address `a` is shown.
pub open spec fn address_cell(rows: nat, cols: nat, a: nat) -> (nat, nat, nat) {
    (a / (rows * cols), (a / cols) % (rows as int) as nat, a % cols)
}

/// A cursor inside the page grid whose address lies in the address range.
pub open spec fn valid_cursor(rows: nat, cols: nat, page: nat, row: nat, col: nat) -> bool {
    &&& row < rows
    &&& col < cols
    &&& cell_address(rows, cols, page, row, col) < ADDRESS_LIMIT
}

/// The cell of the last valid address.
pub open spec fn last_cell(rows: nat, cols: nat) -> (nat, nat, nat) {
    address_cell(rows, cols, (ADDRESS_LIMIT - 1) as nat)
}

proof fn lemma_positive_factors(rows: nat, cols: nat)
    requires
        rows * cols > 0,
    ensures
        rows > 0,
        cols > 0,
{
    if rows == 0 {
        assert(rows * cols == 0) by (nonlinear_arith)
            requires
                rows == 0,
        ;
    }
    if cols == 0 {
        assert(rows * cols == 0) by (nonlinear_arith)
            requires
                cols == 0,
        ;
    }
}

/// Decomposition of `a` by the viewport: page, row within the page, column.
proof fn lemma_decompose(rows: int, cols: int, a: int)
    requires
        rows > 0,
        cols > 0,
        a >= 0,
    ensures
        a == (a / (rows * cols)) * (rows * cols) + ((a / cols) % rows) * cols + a % cols,
        0 <= (a / cols) % rows < rows,
        0 <= a % cols < cols,
        a / (rows * cols) >= 0,
{
    let q = a / cols;
    lemma_fundamental_div_mod(a, cols);
    lemma_fundamental_div_mod(q, rows);
    lemma_div_denominator(a, cols, rows);
    assert(cols * rows == rows * cols) by (nonlinear_arith);
    let p = q / rows;
    let r = q % rows;
    assert(q == rows * p + r);
    assert(a == cols * q + a % cols);
    assert(cols * q == p * (rows * cols) + r * cols) by (nonlinear_arith)
        requires
            q == rows * p + r,
    ;
    assert(q >= 0) by (nonlinear_arith)
        requires
            a >= 0,
            cols > 0,
            q == a / cols,
    ;
    assert(p >= 0) by (nonlinear_arith)
        requires
            q >= 0,
            rows > 0,
            p == q / rows,
    ;
}

/// Mapping an address to its cell and back gives the address again; the cell is a valid cursor.
pub proof fn lemma_address_cell_inverse(rows: nat, cols: nat, a: nat)
    requires
        rows * cols > 0,
        a < ADDRESS_LIMIT,
    ensures
        valid_cursor(rows, cols, address_cell(rows, cols, a).0, address_cell(rows, cols, a).1,
            address_cell(rows, cols, a).2),
        cell_address(rows, cols, address_cell(rows, cols, a).0, address_cell(rows, cols, a).1,
            address_cell(rows, cols, a).2) == a,
{
    lemma_positive_factors(rows, cols);
    lemma_decompose(rows as int, cols as int, a as int);
}

/// Mapping a valid cursor to its address and back gives the cursor again.
pub proof fn lemma_cell_address_inverse(rows: nat, cols: nat, page: nat, row: nat, col: nat)
    requires
        rows * cols > 0,
        valid_cursor(rows, cols, page, row, col),
    ensures
        cell_address(rows, cols, page, row, col) >= 0,
        address_cell(rows, cols, cell_address(rows, cols, page, row, col) as nat) == (
        page,
        row,
        col,
        ),
{
    lemma_positive_factors(rows, cols);
    let a = cell_address(rows, cols, page, row, col) as int;
    let rw = rows as int;
    let cl = cols as int;
    let q = page * rw + row;
    assert(a == q * cl + col) by (nonlinear_arith)
        requires
            a == page * (rw * cl) + row * cl + col,
            q == page * rw + row,
    ;
    assert(q >= 0) by (nonlinear_arith)
        requires
            q == page * rw + row,
            page >= 0,
            row >= 0,
            rw > 0,
    ;
    lemma_fundamental_div_mod_converse(a, cl, q, col as int);
    lemma_fundamental_div_mod_converse(q, rw, page as int, row as int);
    lemma_div_denominator(a, cl, rw);
    assert(cl * rw == rw * cl) by (nonlinear_arith);
}

/// Two valid cursors with the same address are the same cursor.
pub proof fn lemma_cell_address_injective(
    rows: nat,
    cols: nat,
    p1: nat,
    r1: nat,
    c1: nat,
    p2: nat,
    r2: nat,
    c2: nat,
)
    requires
        rows * cols > 0,
        valid_cursor(rows, cols, p1, r1, c1),
        valid_cursor(rows, cols, p2, r2, c2),
        cell_address(rows, cols, p1, r1, c1) == cell_address(rows, cols, p2, r2, c2),
    ensures
        p1 == p2,
        r1 == r2,
        c1 == c2,
{
    lemma_cell_address_inverse(rows, cols, p1, r1, c1);
    lemma_cell_address_inverse(rows, cols, p2, r2, c2);
}

/// The page before `page`; the first page rolls over to the last one.
pub open spec fn prev_page(rows: nat, cols: nat, page: nat) -> nat {
    if page > 0 {
        (page - 1) as nat
    } else {
        last_cell(rows, cols).0
    }
}

/// The page after `page`; the last page rolls over to the first one.
pub open spec fn next_page(rows: nat, cols: nat, page: nat) -> nat {
    if page < last_cell(rows, cols).0 {
        page + 1
    } else {
        0
    }
}

/// The closest valid cell to a cursor on a page that exists: the cursor itself
/// when valid, else the same column on the last row, else the last cell.
pub open spec fn clamp(rows: nat, cols: nat, page: nat, row: nat, col: nat) -> (nat, nat, nat) {
    let last = last_cell(rows, cols);
    if valid_cursor(rows, cols, page, row, col) {
        (page, row, col)
    } else if col <= last.2 {
        (page, last.1, col)
    } else {
        (page, last.1, last.2)
    }
}

/// Clamping a cursor on an existing page gives a valid cursor.
pub proof fn lemma_clamp_valid(rows: nat, cols: nat, page: nat, row: nat, col: nat)
    requires
        rows * cols > 0,
        page <= last_cell(rows, cols).0,
        row < rows,
        col < cols,
    ensures
        valid_cursor(rows, cols, clamp(rows, cols, page, row, col).0,
            clamp(rows, cols, page, row, col).1, clamp(rows, cols, page, row, col).2),
{
    lemma_positive_factors(rows, cols);
    let last = last_cell(rows, cols);
    lemma_address_cell_inverse(rows, cols, (ADDRESS_LIMIT - 1) as nat);
    if !valid_cursor(rows, cols, page, row, col) {
        let ps = rows * cols;
        if page < last.0 {
            assert(row * cols + col < ps) by (nonlinear_arith)
                requires
                    row < rows,
                    col < cols,
                    ps == rows * cols,
            ;
            assert(page * ps + ps <= last.0 * ps) by (nonlinear_arith)
                requires
                    page < last.0,
                    ps > 0,
            ;
            assert(false);
        }
        assert(page == last.0);
        assert(last.1 * cols <= row * cols) by (nonlinear_arith)
            requires
                page * ps + row * cols + col >= ADDRESS_LIMIT,
                page * ps + last.1 * cols + last.2 == ADDRESS_LIMIT - 1,
                col < cols,
                last.2 >= 0,
                cols > 0,
        ;
    }
}

/// A valid cursor lies on a page that exists.
pub proof fn lemma_valid_page_bound(rows: nat, cols: nat, page: nat, row: nat, col: nat)
    requires
        rows * cols > 0,
        valid_cursor(rows, cols, page, row, col),
    ensures
        page <= last_cell(rows, cols).0,
{
    lemma_cell_address_inverse(rows, cols, page, row, col);
    let a = cell_address(rows, cols, page, row, col) as int;
    vstd::arithmetic::div_mod::lemma_div_is_ordered(a, ADDRESS_LIMIT - 1, (rows * cols) as int);
}

} // verus!
