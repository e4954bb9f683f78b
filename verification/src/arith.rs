//! Saturating and rounding integer helpers shared by the layout and viewport
//! code. Everything in this module is exact: each executable function returns
//! precisely the mathematical value stated in its contract.

use vstd::prelude::*;

verus! {

use vstd::arithmetic::div_mod::lemma_fundamental_div_mod;
use vstd::arithmetic::div_mod::lemma_fundamental_div_mod_converse;
use vstd::arithmetic::div_mod::lemma_mod_division_less_than_divisor;
use vstd::arithmetic::mul::lemma_mul_inequality;

/// `ceil(a / b)` on mathematical naturals (meaningful for `b >= 1`).
pub open spec fn ceil_div(a: nat, b: nat) -> nat {
    (a + b - 1) as nat / b
}

/// Ceiling division, `ceil(a / b)`.
pub fn ceil_div_usize(a: usize, b: usize) -> (r: usize)
    requires
        b >= 1,
    ensures
        r == ceil_div(a as nat, b as nat),
{
    if a == 0 {
        proof {
            lemma_fundamental_div_mod_converse((b - 1) as int, b as int, 0, (b - 1) as int);
        }
        0
    } else {
        let r = (a - 1) / b + 1;
        proof {
            lemma_fundamental_div_mod((a - 1) as int, b as int);
            let q = (a - 1) as int / b as int;
            let m = (a - 1) as int % b as int;
            assert((q + 1) * (b as int) == q * (b as int) + b) by (nonlinear_arith);
            lemma_fundamental_div_mod_converse((a + b - 1) as int, b as int, q + 1, m);
        }
        r
    }
}

/// A data line below the total line count starts strictly inside the data:
/// `line < ceil(data_length / per_row)` puts `line * per_row` below
/// `data_length`.
pub proof fn lemma_line_address_bound(data_length: usize, per_row: int, line: int)
    requires
        per_row >= 1,
        data_length >= 1,
        0 <= line < ceil_div(data_length as nat, per_row as nat),
    ensures
        line * per_row < data_length,
{
    let total = ceil_div(data_length as nat, per_row as nat) as int;
    lemma_fundamental_div_mod((data_length + per_row - 1) as int, per_row);
    lemma_mod_division_less_than_divisor((data_length + per_row - 1) as int, per_row);
    assert(total == (data_length + per_row - 1) as int / per_row);
    assert(total * per_row <= data_length + per_row - 1);
    assert((total - 1) * per_row == total * per_row - per_row) by (nonlinear_arith);
    assert((total - 1) * per_row <= data_length - 1);
    lemma_mul_inequality(line, total - 1, per_row);
    assert(line * per_row <= (total - 1) * per_row);
}

/// `a * b`, saturating at `usize::MAX`.
pub fn sat_mul_usize(a: usize, b: usize) -> (r: usize)
    ensures
        r == if a * b > usize::MAX { usize::MAX as int } else { a * b },
{
    match a.checked_mul(b) {
        Some(v) => v,
        None => usize::MAX,
    }
}

/// `a * b`, saturating at `u16::MAX`.
pub fn sat_mul_u16(a: u16, b: u16) -> (r: u16)
    ensures
        r == if a * b > u16::MAX { u16::MAX as int } else { a * b },
{
    match a.checked_mul(b) {
        Some(v) => v,
        None => u16::MAX,
    }
}

} // verus!
