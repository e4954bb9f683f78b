//! Column geometry for one render: the address column width, the number of
//! bytes shown per row, and the x-positions of the hex and ASCII blocks, all
//! derived from the drawing region and the data length. Also the inverse
//! mapping from a clicked cell back to a data address.

use vstd::prelude::*;

verus! {

use vstd::arithmetic::div_mod::lemma_div_is_ordered;
use vstd::math::min as spec_min;
use vstd::math::max as spec_max;
use crate::arith::ceil_div;
use crate::arith::ceil_div_usize;
use crate::arith::sat_mul_u16;
use crate::arith::sat_mul_usize;

/// A rectangular region of character cells: top-left corner plus size.
#[derive(Debug, Clone, Copy, PartialEq, Eq, Structural)]
pub struct Rect {
    pub x: u16,
    pub y: u16,
    pub width: u16,
    pub height: u16,
}

/// How many hexadecimal digits the usual (lowercase, no leading zeros)
/// rendering of `n` takes.
pub open spec fn hex_digit_count(n: nat) -> nat
    decreases n,
{
    if n < 16 {
        1
    } else {
        1 + hex_digit_count(n / 16)
    }
}

/// Width of the address column for a given biggest address: the smallest
/// `w >= 1` with `16^w >= biggest_address`, which is `ceil(log16(biggest_address))`
/// floored at one digit.
pub open spec fn spec_address_width(biggest_address: nat) -> nat {
    if biggest_address == 0 {
        1
    } else {
        hex_digit_count((biggest_address - 1) as nat)
    }
}

/// A value never takes more hex digits than a larger one.
pub proof fn lemma_hex_digit_count_monotonic(n: nat, m: nat)
    requires
        n <= m,
    ensures
        hex_digit_count(n) <= hex_digit_count(m),
    decreases m,
{
    if m < 16 {
    } else if n < 16 {
    } else {
        lemma_div_is_ordered(n as int, m as int, 16);
        lemma_hex_digit_count_monotonic(n / 16, m / 16);
    }
}

/// Every `usize` needs at most 16 hex digits.
pub proof fn lemma_hex_digit_count_usize(n: usize)
    ensures
        hex_digit_count(n as nat) <= 16,
{
    reveal_with_fuel(hex_digit_count, 18);
    assert(hex_digit_count(0xFFFF_FFFF_FFFF_FFFF) == 16);
    lemma_hex_digit_count_monotonic(n as nat, 0xFFFF_FFFF_FFFF_FFFF);
}

/// Hex digits needed to print the biggest address, with a floor of one digit.
fn address_width_for(biggest_address: usize) -> (r: u16)
    ensures
        r as nat == spec_address_width(biggest_address as nat),
        1 <= r <= 16,
{
    if biggest_address <= 1 {
        return 1;
    }
    let ghost n0: nat = (biggest_address - 1) as nat;
    proof {
        lemma_hex_digit_count_usize((biggest_address - 1) as usize);
    }
    let mut n: usize = biggest_address - 1;
    let mut w: u16 = 1;
    while n >= 16
        invariant
            w as nat + hex_digit_count(n as nat) == 1 + hex_digit_count(n0),
            hex_digit_count(n0) <= 16,
            w >= 1,
        decreases n,
    {
        n = n / 16;
        w = w + 1;
    }
    w
}

/// `n` is a power of two.
pub open spec fn is_power_of_two(n: nat) -> bool
    decreases n,
{
    if n == 1 {
        true
    } else if n < 2 || n % 2 != 0 {
        false
    } else {
        is_power_of_two(n / 2)
    }
}

/// The largest power of two that is at most `m` (and `1` for `m < 2`).
pub open spec fn spec_pairs_per_row(m: nat) -> nat
    decreases m,
{
    if m < 2 {
        1
    } else {
        2 * spec_pairs_per_row(m / 2)
    }
}

/// `spec_pairs_per_row(m)` really is the largest power of two at most `m`.
pub proof fn lemma_pairs_per_row_bounds(m: nat)
    ensures
        is_power_of_two(spec_pairs_per_row(m)),
        m >= 1 ==> spec_pairs_per_row(m) <= m,
        2 * spec_pairs_per_row(m) > m,
    decreases m,
{
    if m < 2 {
    } else {
        lemma_pairs_per_row_bounds(m / 2);
    }
}

/// The largest power of two that is at most `m` (and `1` for `m < 2`).
fn largest_pow2_le(m: u16) -> (r: u16)
    ensures
        r as nat == spec_pairs_per_row(m as nat),
    decreases m,
{
    proof {
        lemma_pairs_per_row_bounds(m as nat);
        lemma_pairs_per_row_bounds((m / 2) as nat);
    }
    if m < 2 {
        1
    } else {
        2 * largest_pow2_le(m / 2)
    }
}

/// The column geometry computed for one render call, read-only afterwards
/// until the next render.
#[derive(Debug, Clone, Copy, PartialEq, Eq, Structural)]
pub struct RenderPositions {
    /// The region actually available for the dump.
    pub inner_area: Rect,
    /// The largest valid data address, `data_length - 1`.
    pub biggest_address: usize,
    /// Hex digits used to print an address label.
    pub address_width: u16,
    /// Bytes shown per line; always a power of two and at least 4.
    pub per_row: u16,
    /// `ceil(data_length / per_row)`: lines the whole buffer would take.
    pub available_data_lines: usize,
    /// Leftmost column of the hex block.
    pub offset_x_hex: u16,
    /// Leftmost column of the ASCII block.
    pub offset_x_char: u16,
}

/// Cells a pair of bytes takes in the hex block: four hex digits, two cells
/// in the ASCII block, and one space between pair groups.
pub const TWO_ADDRESSES_TAKE: u16 = 7;

/// Cells a pair of bytes takes left of the ASCII block: four hex digits plus
/// the space between pair groups.
pub const CHAR_OFFSET_PER_TWO: u16 = 5;

/// The geometry derived from a drawing region and a data length, or `None`
/// when the region cannot host at least two pairs per row or the data is
/// empty. This is the specification that [`RenderPositions::new`] meets
/// exactly.
pub open spec fn spec_positions(inner_area: Rect, data_length: usize) -> Option<RenderPositions> {
    if inner_area.width < 9 || inner_area.height < 1 || data_length == 0 {
        None
    } else {
        let biggest_address = (data_length - 1) as nat;
        let address_width = spec_address_width(biggest_address);
        let data_width = spec_max(0, inner_area.width - 2 - address_width);
        let pairs_per_row_max = data_width / 7;
        if pairs_per_row_max < 2 {
            None
        } else {
            let pairs_per_row = spec_pairs_per_row(pairs_per_row_max as nat);
            let per_row = 2 * pairs_per_row;
            let offset_x_hex = spec_min(inner_area.x + address_width + 2, u16::MAX as int);
            let offset_x_char = spec_min(offset_x_hex + 5 * pairs_per_row, u16::MAX as int);
            Some(
                RenderPositions {
                    inner_area,
                    biggest_address: biggest_address as usize,
                    address_width: address_width as u16,
                    per_row: per_row as u16,
                    available_data_lines: ceil_div(data_length as nat, per_row) as usize,
                    offset_x_hex: offset_x_hex as u16,
                    offset_x_char: offset_x_char as u16,
                },
            )
        }
    }
}

impl RenderPositions {
    /// Derive the geometry for a drawing region and a data length.
    ///
    /// Returns `None` when the region is narrower than 9 cells or has no
    /// line, when the data is empty, or when fewer than two byte pairs
    /// would fit on a row.
    pub fn new(inner_area: Rect, data_length: usize) -> (r: Option<Self>)
        ensures
            r == spec_positions(inner_area, data_length),
    {
        if inner_area.width < 9 || inner_area.height < 1 || data_length == 0 {
            return None;
        }

        let biggest_address = data_length - 1;
        let address_width = address_width_for(biggest_address);
        let data_width = inner_area.width.saturating_sub(2).saturating_sub(address_width);

        let pairs_per_row_max = data_width / TWO_ADDRESSES_TAKE;
        if pairs_per_row_max < 2 {
            return None;
        }

        proof {
            lemma_pairs_per_row_bounds(pairs_per_row_max as nat);
        }
        let pairs_per_row = largest_pow2_le(pairs_per_row_max);
        let per_row = pairs_per_row * 2;

        let available_data_lines = ceil_div_usize(data_length, per_row as usize);

        let offset_x_hex = inner_area.x.saturating_add(address_width).saturating_add(2);
        let offset_x_char = offset_x_hex.saturating_add(pairs_per_row * CHAR_OFFSET_PER_TWO);

        Some(
            Self {
                inner_area,
                biggest_address,
                address_width,
                per_row,
                available_data_lines,
                offset_x_hex,
                offset_x_char,
            },
        )
    }

    /// Column where the two hex digits of byte `index_on_row` of a row start:
    /// two cells per byte plus one space after each pair, saturating at the
    /// right edge of the coordinate space.
    pub open spec fn spec_x_hex(self, index_on_row: int) -> int {
        spec_min(self.offset_x_hex + 2 * index_on_row + index_on_row / 2, u16::MAX as int)
    }

    /// Column where the two hex digits of byte `index_on_row` of a row start.
    pub fn x_hex(&self, index_on_row: u16) -> (r: u16)
        ensures
            r == self.spec_x_hex(index_on_row as int),
    {
        let pair_index = index_on_row / 2;
        self.offset_x_hex.saturating_add(sat_mul_u16(index_on_row, 2)).saturating_add(pair_index)
    }

    /// Column of the ASCII glyph of byte `index_on_row` of a row, saturating
    /// at the right edge of the coordinate space.
    pub open spec fn spec_x_char(self, index_on_row: int) -> int {
        spec_min(self.offset_x_char + index_on_row, u16::MAX as int)
    }

    /// Column of the ASCII glyph of byte `index_on_row` of a row.
    pub fn x_char(&self, index_on_row: u16) -> (r: u16)
        ensures
            r == self.spec_x_char(index_on_row as int),
    {
        self.offset_x_char.saturating_add(index_on_row)
    }

    /// The address that a click on cell `(column, row)` selects, given the
    /// address of the first visible byte: the exact inverse of the forward
    /// column formulas wherever the click hits a byte's cells, with clicks
    /// left of the hex block selecting the row's first byte and clicks right
    /// of the ASCII block clamped to the row's last byte.
    pub open spec fn spec_clicked_address(
        self,
        offset_address: usize,
        column: u16,
        row: u16,
    ) -> int {
        let row_offset = spec_max(0, row - self.inner_area.y);
        let base = spec_min(offset_address + row_offset * self.per_row, usize::MAX as int);
        if column <= self.offset_x_hex {
            base
        } else if column < spec_max(0, self.offset_x_char - 1) {
            let diff = column - self.offset_x_hex;
            let index = (diff - diff / 5) / 2;
            spec_min(base + index, usize::MAX as int)
        } else {
            let diff = spec_max(0, column - self.offset_x_char);
            let index = spec_min(diff, spec_max(0, self.per_row - 1));
            spec_min(base + index, usize::MAX as int)
        }
    }

    /// The address that a click on cell `(column, row)` selects, given the
    /// address of the first visible byte.
    pub fn clicked_address(&self, offset_address: usize, column: u16, row: u16) -> (r: usize)
        ensures
            r == self.spec_clicked_address(offset_address, column, row),
    {
        let row_offset = row.saturating_sub(self.inner_area.y);
        proof {
            assert((row_offset as int) * (self.per_row as int) < 0x100000000int)
                by (nonlinear_arith)
                requires
                    row_offset <= 0xFFFFu16,
                    self.per_row <= 0xFFFFu16,
            ;
        }
        let base = offset_address.saturating_add(
            sat_mul_usize(row_offset as usize, self.per_row as usize),
        );
        if column <= self.offset_x_hex {
            base
        } else if column < self.offset_x_char.saturating_sub(1) {
            let diff = column.saturating_sub(self.offset_x_hex);
            let index = diff.saturating_sub(diff / 5) / 2;
            base.saturating_add(index as usize)
        } else {
            let diff = column.saturating_sub(self.offset_x_char);
            let capped = self.per_row.saturating_sub(1);
            let index = if diff < capped {
                diff
            } else {
                capped
            };
            base.saturating_add(index as usize)
        }
    }

    /// Facts that hold of every geometry [`RenderPositions::new`] returns,
    /// whatever the region's coordinates.
    pub open spec fn wf(self) -> bool {
        &&& self.per_row >= 4
        &&& is_power_of_two(self.per_row as nat)
        &&& self.inner_area.width >= 9
        &&& self.inner_area.height >= 1
        &&& self.available_data_lines == ceil_div(
            (self.biggest_address + 1) as nat,
            self.per_row as nat,
        )
        &&& self.available_data_lines >= 1
        &&& self.inner_area.x <= self.offset_x_hex <= self.offset_x_char
    }

    /// Facts that additionally hold when the region's right edge does not
    /// overrun the coordinate space: none of the column positions saturate,
    /// and the whole row, ASCII block included, fits inside the region.
    pub open spec fn fits(self) -> bool {
        &&& self.inner_area.x + self.inner_area.width <= u16::MAX
        &&& self.offset_x_hex == self.inner_area.x + self.address_width + 2
        &&& self.offset_x_char == self.offset_x_hex + 5 * (self.per_row as int / 2)
        &&& self.offset_x_char + self.per_row <= self.inner_area.x + self.inner_area.width
        &&& 1 <= self.address_width <= 16
    }
}

/// Shared arithmetic facts about the quantities inside [`spec_positions`],
/// for a pair of arguments on which it yields a geometry.
proof fn lemma_positions_parts(inner_area: Rect, data_length: usize)
    requires
        spec_positions(inner_area, data_length) is Some,
    ensures
        ({
            let p = spec_positions(inner_area, data_length)->Some_0;
            let address_width = spec_address_width((data_length - 1) as nat);
            let data_width = spec_max(0, inner_area.width - 2 - address_width);
            let pairs_per_row = spec_pairs_per_row((data_width / 7) as nat);
            &&& 1 <= address_width <= 16
            &&& 14 <= data_width == inner_area.width - 2 - address_width
            &&& 2 <= pairs_per_row <= data_width / 7 <= 9362
            &&& 7 * pairs_per_row <= data_width
            &&& p.address_width == address_width
            &&& p.per_row == 2 * pairs_per_row
            &&& p.biggest_address == data_length - 1
            &&& p.available_data_lines == ceil_div(data_length as nat, (2 * pairs_per_row) as nat)
            &&& 1 <= p.available_data_lines <= data_length
            &&& p.inner_area == inner_area
            &&& p.offset_x_hex == spec_min(inner_area.x + address_width + 2, u16::MAX as int)
            &&& p.offset_x_char == spec_min(
                p.offset_x_hex + 5 * pairs_per_row,
                u16::MAX as int,
            )
            &&& is_power_of_two(pairs_per_row)
        }),
{
    let p = spec_positions(inner_area, data_length)->Some_0;
    let address_width = spec_address_width((data_length - 1) as nat);
    let data_width = spec_max(0, inner_area.width - 2 - address_width);
    let pairs_per_row_max = (data_width / 7) as nat;
    let pairs_per_row = spec_pairs_per_row(pairs_per_row_max);
    let per_row: nat = 2 * pairs_per_row;

    assert(1 <= address_width <= 16) by {
        if data_length >= 2 {
            lemma_hex_digit_count_usize((data_length - 2) as usize);
        }
    }
    vstd::arithmetic::div_mod::lemma_fundamental_div_mod(data_width as int, 7);
    assert(data_width >= 14);
    lemma_div_is_ordered(data_width as int, u16::MAX as int, 7);
    lemma_pairs_per_row_bounds(pairs_per_row_max);

    assert(p.per_row == per_row);
    assert(ceil_div(data_length as nat, per_row) <= data_length) by {
        assert((data_length + per_row - 1) as int / per_row as int <= data_length)
            by (nonlinear_arith)
            requires
                per_row >= 2,
                data_length >= 1,
        ;
    }
    assert(p.available_data_lines == ceil_div(data_length as nat, per_row));
    assert(p.available_data_lines >= 1) by {
        vstd::arithmetic::div_mod::lemma_div_non_zero(
            (data_length + per_row - 1) as int,
            per_row as int,
        );
    }
}

/// Every geometry that [`spec_positions`] yields satisfies [`RenderPositions::wf`].
pub proof fn lemma_positions_wf(inner_area: Rect, data_length: usize)
    requires
        spec_positions(inner_area, data_length) is Some,
    ensures
        spec_positions(inner_area, data_length)->Some_0.wf(),
{
    let p = spec_positions(inner_area, data_length)->Some_0;
    lemma_positions_parts(inner_area, data_length);
    let address_width = spec_address_width((data_length - 1) as nat);
    let data_width = spec_max(0, inner_area.width - 2 - address_width);
    let pairs_per_row = spec_pairs_per_row((data_width / 7) as nat);
    assert(is_power_of_two(p.per_row as nat)) by {
        assert(p.per_row as nat == 2 * pairs_per_row);
        assert((2 * pairs_per_row) % 2 == 0) by (nonlinear_arith);
        assert((2 * pairs_per_row) / 2 == pairs_per_row) by (nonlinear_arith);
    }
}

/// When the region's right edge stays inside the coordinate space, the
/// geometry that [`spec_positions`] yields satisfies [`RenderPositions::fits`].
pub proof fn lemma_positions_fit(inner_area: Rect, data_length: usize)
    requires
        spec_positions(inner_area, data_length) is Some,
        inner_area.x + inner_area.width <= u16::MAX,
    ensures
        spec_positions(inner_area, data_length)->Some_0.fits(),
{
    let p = spec_positions(inner_area, data_length)->Some_0;
    lemma_positions_parts(inner_area, data_length);
    let address_width = spec_address_width((data_length - 1) as nat);
    let data_width = spec_max(0, inner_area.width - 2 - address_width);
    let pairs_per_row = spec_pairs_per_row((data_width / 7) as nat);
    // The hex block starts 14 or more cells left of the region's right edge,
    // so its position does not saturate.
    assert(inner_area.x + address_width + 2 == inner_area.x + inner_area.width - data_width);
    assert(p.offset_x_hex == inner_area.x + address_width + 2);
    // Two pairs or more fit, so the ASCII block starts at least four cells
    // left of the right edge and the whole row fits inside the region.
    assert(5 * pairs_per_row <= data_width - 2 * pairs_per_row);
    assert(p.offset_x_char == p.offset_x_hex + 5 * pairs_per_row);
    assert(p.offset_x_char + p.per_row <= inner_area.x + inner_area.width);
    assert(p.offset_x_char == p.offset_x_hex + 5 * (p.per_row as int / 2)) by {
        assert(p.per_row as int / 2 == pairs_per_row) by (nonlinear_arith)
            requires
                p.per_row == 2 * pairs_per_row,
        ;
    }
}

} // verus!
