//! The integer side of the thumbnail grid's layout: how many columns and
//! rows it has and which item sits in a cell.
use vstd::prelude::*;
use vstd::arithmetic::div_mod::lemma_fundamental_div_mod;

verus! {

/// The number of columns: the number that fits (`fit`), raised to
/// `min_cols`, lowered to `max_cols` (if any) and to the number of items,
/// and at least one.
pub open spec fn columns(fit: nat, min_cols: nat, max_cols: Option<usize>, item_count: nat) -> nat {
    let a = if fit >= min_cols {
        fit
    } else {
        min_cols
    };
    let b = match max_cols {
        Some(m) => if a <= m {
            a
        } else {
            m as nat
        },
        None => a,
    };
    let c = if b <= item_count {
        b
    } else {
        item_count
    };
    if c >= 1 {
        c
    } else {
        1
    }
}

/// Clamps the number of columns that fit the width to the grid's limits.
pub fn clamp_columns(fit: usize, min_cols: usize, max_cols: Option<usize>, item_count: usize) -> (r: usize)
    ensures
        r == columns(fit as nat, min_cols as nat, max_cols, item_count as nat),
        r >= 1,
{
    let a = if fit >= min_cols {
        fit
    } else {
        min_cols
    };
    let b = match max_cols {
        Some(m) => if a <= m {
            a
        } else {
            m
        },
        None => a,
    };
    let c = if b <= item_count {
        b
    } else {
        item_count
    };
    if c >= 1 {
        c
    } else {
        1
    }
}

/// The number of rows `total` items fill in `cols` columns (rounded up).
pub fn grid_rows(total: usize, cols: usize) -> (r: usize)
    requires
        cols > 0,
    ensures
        r == (total as int + cols as int - 1) / cols as int,
        r * cols >= total,
        r == 0 || (r - 1) * cols < total,
{
    let q = total / cols;
    proof {
        lemma_fundamental_div_mod(total as int, cols as int);
        assert(total % cols != 0 ==> q + 1 <= total) by (nonlinear_arith)
            requires
                total == cols * q + total % cols,
                cols >= 1,
                q >= 0,
        ;
    }
    let r = if total % cols == 0 {
        q
    } else {
        q + 1
    };
    proof {
        lemma_fundamental_div_mod(total as int, cols as int);
        lemma_rows(total as int, cols as int, q as int, r as int);
    }
    r
}

proof fn lemma_rows(total: int, cols: int, q: int, r: int)
    requires
        cols > 0,
        total >= 0,
        q == total / cols,
        total == cols * q + total % cols,
        0 <= total % cols < cols,
        r == (if total % cols == 0 {
            q
        } else {
            q + 1
        }),
    ensures
        r == (total + cols - 1) / cols,
        r * cols >= total,
        r == 0 || (r - 1) * cols < total,
{
    assert(r * cols >= total) by (nonlinear_arith)
        requires
            total == cols * q + total % cols,
            0 <= total % cols < cols,
            r == (if total % cols == 0 { q } else { q + 1 }),
    ;
    assert(r == 0 || (r - 1) * cols < total) by (nonlinear_arith)
        requires
            total == cols * q + total % cols,
            0 <= total % cols < cols,
            r == (if total % cols == 0 { q } else { q + 1 }),
            cols > 0,
    ;
    lemma_fundamental_div_mod(total + cols - 1, cols);
    let q2 = (total + cols - 1) / cols;
    let m2 = (total + cols - 1) % cols;
    assert(q2 == r) by (nonlinear_arith)
        requires
            total + cols - 1 == cols * q2 + m2,
            0 <= m2 < cols,
            total == cols * q + total % cols,
            0 <= total % cols < cols,
            r == (if total % cols == 0 { q } else { q + 1 }),
            cols > 0,
    ;
}

/// The item in column `col` and row `row` of a grid of `cols` columns and
/// `rows` rows holding `total` items, read row by row.
pub open spec fn cell_item(col: int, row: int, cols: int, rows: int, total: int) -> Option<int> {
    if col >= cols || row >= rows {
        None
    } else if row * cols + col < total {
        Some(row * cols + col)
    } else {
        None
    }
}

/// The item shown in a cell, if any.
pub fn item_in_cell(col: usize, row: usize, cols: usize, rows: usize, total: usize) -> (r: Option<usize>)
    ensures
        r matches Some(i) ==> cell_item(col as int, row as int, cols as int, rows as int, total as int)
            == Some(i as int),
        r is None ==> cell_item(col as int, row as int, cols as int, rows as int, total as int) is None,
{
    if col >= cols || row >= rows {
        return None;
    }
    proof {
        assert((row as int) * (cols as int) + (col as int) < 0x1_0000_0000_0000_0000_0000_0000_0000_0000)
            by (nonlinear_arith)
            requires
                0 <= row < 0x1_0000_0000_0000_0000,
                0 <= cols < 0x1_0000_0000_0000_0000,
                0 <= col < 0x1_0000_0000_0000_0000,
        ;
    }
    let idx = (row as u128) * (cols as u128) + (col as u128);
    if idx < total as u128 {
        Some(idx as usize)
    } else {
        None
    }
}

/// Item `i` of the grid sits in column `i % cols` of row `i / cols`.
pub proof fn lemma_cell_of_item(i: int, cols: int, total: int)
    requires
        cols > 0,
        0 <= i < total,
    ensures
        cell_item(i % cols, i / cols, cols, (total + cols - 1) / cols, total) == Some(i),
{
    lemma_fundamental_div_mod(i, cols);
    lemma_fundamental_div_mod(total + cols - 1, cols);
    let rows = (total + cols - 1) / cols;
    assert(i / cols < rows) by (nonlinear_arith)
        requires
            i == cols * (i / cols) + i % cols,
            0 <= i % cols < cols,
            total + cols - 1 == cols * rows + (total + cols - 1) % cols,
            0 <= (total + cols - 1) % cols < cols,
            i < total,
            cols > 0,
    ;
    assert((i / cols) * cols + i % cols == i) by (nonlinear_arith)
        requires
            i == cols * (i / cols) + i % cols,
    ;
}

} // verus!
