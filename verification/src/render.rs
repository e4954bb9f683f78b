//! The render driver: reconcile the viewport state against a fresh geometry
//! and produce the text content of every visible row — the address label,
//! the hex pairs and the ASCII glyphs at their exact columns — together with
//! the scrollbar quantities. A host copies the rows (or the single cells,
//! via [`address_label`], [`byte_hex`] and [`byte_symbol`]) onto its drawing
//! surface and adds styling; everything it places is computed and proved
//! here.

use vstd::prelude::*;

verus! {

use vstd::math::min as spec_min;
use vstd::math::max as spec_max;
use vstd::arithmetic::div_mod::lemma_fundamental_div_mod;
use vstd::slice::slice_index_get;
use crate::arith::lemma_line_address_bound;
use crate::render_positions::Rect;
use crate::render_positions::RenderPositions;
use crate::render_positions::spec_positions;
use crate::render_positions::lemma_positions_fit;
use crate::render_positions::lemma_positions_wf;
use crate::state::State;

/// The lowercase hex digit for a value below 16.
pub open spec fn spec_hex_digit(d: int) -> char {
    if d == 0 {
        '0'
    } else if d == 1 {
        '1'
    } else if d == 2 {
        '2'
    } else if d == 3 {
        '3'
    } else if d == 4 {
        '4'
    } else if d == 5 {
        '5'
    } else if d == 6 {
        '6'
    } else if d == 7 {
        '7'
    } else if d == 8 {
        '8'
    } else if d == 9 {
        '9'
    } else if d == 10 {
        'a'
    } else if d == 11 {
        'b'
    } else if d == 12 {
        'c'
    } else if d == 13 {
        'd'
    } else if d == 14 {
        'e'
    } else {
        'f'
    }
}

/// The lowercase hex digit for a value below 16.
fn hex_digit_char(d: u8) -> (c: char)
    requires
        d < 16,
    ensures
        c == spec_hex_digit(d as int),
{
    match d {
        0 => '0',
        1 => '1',
        2 => '2',
        3 => '3',
        4 => '4',
        5 => '5',
        6 => '6',
        7 => '7',
        8 => '8',
        9 => '9',
        10 => 'a',
        11 => 'b',
        12 => 'c',
        13 => 'd',
        14 => 'e',
        _ => 'f',
    }
}

/// The usual hex rendering of `n`: lowercase, no leading zeros, and a single
/// `'0'` for zero itself.
pub open spec fn spec_hex_repr(n: nat) -> Seq<char>
    decreases n,
{
    if n < 16 {
        seq![spec_hex_digit(n as int)]
    } else {
        spec_hex_repr(n / 16).push(spec_hex_digit((n % 16) as int))
    }
}

/// The usual hex rendering of `n`.
pub fn hex_chars(n: usize) -> (chars: Vec<char>)
    ensures
        chars@ == spec_hex_repr(n as nat),
    decreases n,
{
    let digit = hex_digit_char((n % 16) as u8);
    if n < 16 {
        let mut chars: Vec<char> = Vec::new();
        chars.push(digit);
        proof {
            assert(chars@ =~= spec_hex_repr(n as nat));
        }
        chars
    } else {
        let mut chars = hex_chars(n / 16);
        chars.push(digit);
        chars
    }
}

/// `width` spaces.
pub open spec fn spec_blank_row(width: nat) -> Seq<char> {
    Seq::new(width, |i: int| ' ')
}

/// `width` spaces.
pub fn blank_row(width: usize) -> (row: Vec<char>)
    ensures
        row@ == spec_blank_row(width as nat),
{
    let mut row: Vec<char> = Vec::new();
    while row.len() < width
        invariant
            row@.len() <= width,
            forall|j: int| 0 <= j < row@.len() ==> row@[j] == ' ',
        decreases width - row@.len(),
    {
        row.push(' ');
    }
    proof {
        assert(row@ =~= spec_blank_row(width as nat));
    }
    row
}

/// The label that opens a row: the row's address in hex, right-justified to
/// `width` digits with spaces (never truncated), then a colon and a space.
pub open spec fn spec_address_label(address: nat, width: nat) -> Seq<char> {
    let digits = spec_hex_repr(address);
    let pad = if digits.len() < width {
        (width - digits.len()) as nat
    } else {
        0
    };
    spec_blank_row(pad) + digits + seq![':', ' ']
}

/// The label that opens a row.
pub fn address_label(address: usize, width: u16) -> (label: Vec<char>)
    ensures
        label@ == spec_address_label(address as nat, width as nat),
{
    let digits = hex_chars(address);
    let pad = if digits.len() < width as usize {
        width as usize - digits.len()
    } else {
        0
    };
    let mut label = blank_row(pad);
    let mut k: usize = 0;
    while k < digits.len()
        invariant
            k <= digits@.len(),
            label@ == spec_blank_row(pad as nat) + digits@.take(k as int),
        decreases digits@.len() - k,
    {
        label.push(digits[k]);
        proof {
            assert(label@ =~= spec_blank_row(pad as nat) + digits@.take(k + 1));
        }
        k = k + 1;
    }
    proof {
        assert(digits@.take(digits@.len() as int) =~= digits@);
    }
    label.push(':');
    label.push(' ');
    proof {
        assert(label@ =~= spec_address_label(address as nat, width as nat));
    }
    label
}

/// The two hex cells of one byte: the high digit (a space for bytes below
/// 16, as right-justified formatting pads them) and the low digit.
pub open spec fn spec_byte_hex(byte: u8) -> Seq<char> {
    seq![
        if byte < 16 {
            ' '
        } else {
            spec_hex_digit(byte as int / 16)
        },
        spec_hex_digit(byte as int % 16),
    ]
}

/// The two hex cells of one byte.
pub fn byte_hex(byte: u8) -> (chars: Vec<char>)
    ensures
        chars@ == spec_byte_hex(byte),
{
    let mut chars: Vec<char> = Vec::new();
    if byte < 16 {
        chars.push(' ');
    } else {
        chars.push(hex_digit_char(byte / 16));
    }
    chars.push(hex_digit_char(byte % 16));
    proof {
        assert(chars@ =~= spec_byte_hex(byte));
    }
    chars
}

/// The ASCII-block glyph of one byte: the character itself when it is
/// graphic ASCII or a space, and a middle dot for everything else.
pub open spec fn spec_byte_symbol(byte: u8) -> char {
    if byte == 0x20 {
        ' '
    } else if 0x21 <= byte <= 0x7e {
        byte as char
    } else {
        '·'
    }
}

/// The ASCII-block glyph of one byte.
pub fn byte_symbol(byte: u8) -> (c: char)
    ensures
        c == spec_byte_symbol(byte),
{
    if byte == 0x20 {
        ' '
    } else if 0x21 <= byte && byte <= 0x7e {
        byte as char
    } else {
        '·'
    }
}

/// `line` with `text` written over it starting at column `at`; cells outside
/// the line are dropped, exactly as a drawing surface clips writes that
/// leave its region.
pub open spec fn spec_overwrite(line: Seq<char>, at: int, text: Seq<char>) -> Seq<char> {
    Seq::new(line.len(), |i: int| if at <= i < at + text.len() {
        text[i - at]
    } else {
        line[i]
    })
}

/// Write `text` over `line` starting at column `at`, dropping cells that
/// fall outside the line.
fn write_chars(line: &mut Vec<char>, at: usize, text: &Vec<char>)
    ensures
        final(line)@ == spec_overwrite(old(line)@, at as int, text@),
{
    let line_length = line.len();
    let mut k: usize = 0;
    while k < text.len()
        invariant
            k <= text@.len(),
            line@.len() == old(line)@.len() == line_length,
            forall|j: int|
                0 <= j < line@.len() ==> line@[j] == (if at <= j < at + k {
                    text@[j - at]
                } else {
                    old(line)@[j]
                }),
        decreases text@.len() - k,
    {
        match at.checked_add(k) {
            Some(position) => {
                if position < line_length {
                    line[position] = text[k];
                }
            },
            None => {},
        }
        k = k + 1;
    }
    proof {
        assert(line@ =~= spec_overwrite(old(line)@, at as int, text@));
    }
}

/// Column of byte `i`'s hex cells, measured from the region's left edge:
/// after the address label, two cells per byte plus one space per pair.
pub open spec fn spec_rel_x_hex(p: RenderPositions, i: int) -> int {
    p.address_width + 2 + 2 * i + i / 2
}

/// Column of byte `i`'s ASCII glyph, measured from the region's left edge:
/// after the whole hex block.
pub open spec fn spec_rel_x_char(p: RenderPositions, i: int) -> int {
    p.address_width + 2 + 5 * (p.per_row as int / 2) + i
}

/// For a geometry that fits its region, the absolute byte columns are the
/// region's left edge plus the relative ones, nothing saturates, and every
/// cell of every byte lies inside the region: no write the render places can
/// leave the drawing region.
pub proof fn lemma_columns_fit(p: RenderPositions, i: int)
    requires
        p.wf(),
        p.fits(),
        0 <= i < p.per_row,
    ensures
        p.spec_x_hex(i) == p.inner_area.x + spec_rel_x_hex(p, i),
        p.spec_x_char(i) == p.inner_area.x + spec_rel_x_char(p, i),
        spec_rel_x_hex(p, i) + 2 <= spec_rel_x_char(p, 0),
        0 <= spec_rel_x_hex(p, i),
        spec_rel_x_char(p, i) < p.inner_area.width,
{
    let pr = p.per_row as int;
    assert(pr % 2 == 0);
    let k = i / 2;
    lemma_fundamental_div_mod(i, 2);
    lemma_fundamental_div_mod(pr, 2);
    assert(2 * i + i / 2 == 5 * k + 2 * (i % 2));
    assert(k <= pr / 2 - 1);
    assert(spec_rel_x_hex(p, i) + 2 <= spec_rel_x_char(p, 0));
    assert(p.offset_x_char + pr <= p.inner_area.x + p.inner_area.width <= u16::MAX);
    assert(p.offset_x_hex + 2 * i + i / 2 <= u16::MAX);
}

/// The text of the row that starts at `row_address`, over a blank background:
/// the address label, then for each byte of the row that the data still has,
/// its two hex cells and its ASCII glyph, written cell by cell exactly as the
/// forward column formulas place them. `count` limits how many bytes of the
/// row have been placed; the full row uses `per_row`.
pub open spec fn spec_row_bytes(
    p: RenderPositions,
    data: Seq<u8>,
    row_address: nat,
    count: nat,
) -> Seq<char>
    decreases count,
{
    if count == 0 {
        spec_overwrite(
            spec_blank_row(p.inner_area.width as nat),
            0,
            spec_address_label(row_address, p.address_width as nat),
        )
    } else {
        let prev = spec_row_bytes(p, data, row_address, (count - 1) as nat);
        let i = count - 1;
        if row_address + i < data.len() {
            let byte = data[row_address + i];
            let with_hex = spec_overwrite(prev, spec_rel_x_hex(p, i as int), spec_byte_hex(byte));
            spec_overwrite(with_hex, spec_rel_x_char(p, i as int), seq![spec_byte_symbol(byte)])
        } else {
            prev
        }
    }
}

/// The full text of the row that starts at `row_address`.
pub open spec fn spec_row_chars(p: RenderPositions, data: Seq<u8>, row_address: nat) -> Seq<char> {
    spec_row_bytes(p, data, row_address, p.per_row as nat)
}

proof fn lemma_row_bytes_width(p: RenderPositions, data: Seq<u8>, row_address: nat, count: nat)
    ensures
        spec_row_bytes(p, data, row_address, count).len() == p.inner_area.width,
    decreases count,
{
    if count > 0 {
        lemma_row_bytes_width(p, data, row_address, (count - 1) as nat);
    }
}

/// A rendered row is exactly as wide as the region: writing it cell by cell
/// can never touch anything outside the region's columns.
pub proof fn lemma_row_width(p: RenderPositions, data: Seq<u8>, row_address: nat)
    ensures
        spec_row_chars(p, data, row_address).len() == p.inner_area.width,
{
    lemma_row_bytes_width(p, data, row_address, p.per_row as nat);
}

/// Render the text of the row that starts at `row_address`: the address
/// label, the hex pair cells and the ASCII glyphs of every byte the data
/// still has, on a blank line as wide as the region.
#[verifier::loop_isolation(false)]
pub fn render_row(positions: &RenderPositions, data: &[u8], row_address: usize) -> (row: Vec<
    char,
>)
    requires
        positions.wf(),
        positions.fits(),
    ensures
        row@ == spec_row_chars(*positions, data@, row_address as nat),
{
    let width = positions.inner_area.width as usize;
    let mut row = blank_row(width);
    let label = address_label(row_address, positions.address_width);
    write_chars(&mut row, 0, &label);

    let x = positions.inner_area.x;
    let per_row = positions.per_row;
    let mut i: u16 = 0;
    while i < per_row
        invariant
            i <= per_row,
            row@ == spec_row_bytes(*positions, data@, row_address as nat, i as nat),
        decreases per_row - i,
    {
        let address = row_address.saturating_add(i as usize);
        if address < data.len() {
            let ghost before = row@;
            let byte = *slice_index_get(data, address);
            proof {
                lemma_columns_fit(*positions, i as int);
            }
            let hex = byte_hex(byte);
            let column_hex = positions.x_hex(i);
            write_chars(&mut row, (column_hex - x) as usize, &hex);
            let mut symbol: Vec<char> = Vec::new();
            symbol.push(byte_symbol(byte));
            let column_char = positions.x_char(i);
            write_chars(&mut row, (column_char - x) as usize, &symbol);
            proof {
                assert(symbol@ =~= seq![spec_byte_symbol(byte)]);
                assert(row@ == spec_row_bytes(*positions, data@, row_address as nat, (i + 1) as nat));
            }
        }
        i = i + 1;
    }
    row
}

/// How many lines the data would take with this geometry, for sizing a
/// layout before the first render; zero when the region cannot host a dump
/// of that data at all.
pub fn max_lines_of_data_in_area(inner_area: Rect, data_length: usize) -> (lines: usize)
    ensures
        lines == (match spec_positions(inner_area, data_length) {
            Some(positions) => positions.available_data_lines as int,
            None => 0int,
        }),
{
    match RenderPositions::new(inner_area, data_length) {
        Some(positions) => positions.available_data_lines,
        None => 0,
    }
}

/// The row index of the first visible data line under this geometry.
pub fn start_line(positions: &RenderPositions, offset_address: usize) -> (line: usize)
    requires
        positions.wf(),
    ensures
        line == offset_address as int / positions.per_row as int,
{
    offset_address / (positions.per_row as usize)
}

/// How many data lines are visible: what remains of the data below the top
/// row, capped by the region's height.
pub open spec fn spec_visible_line_count(
    p: RenderPositions,
    offset_address: usize,
    height: u16,
) -> int {
    spec_min(
        spec_max(0, p.available_data_lines - offset_address as int / p.per_row as int),
        height as int,
    )
}

/// How many data lines are visible.
pub fn visible_line_count(positions: &RenderPositions, offset_address: usize, height: u16) -> (count:
    usize)
    requires
        positions.wf(),
    ensures
        count == spec_visible_line_count(*positions, offset_address, height),
{
    let top = offset_address / (positions.per_row as usize);
    let remaining = positions.available_data_lines.saturating_sub(top);
    if remaining < height as usize {
        remaining
    } else {
        height as usize
    }
}

/// The scrollable range a scrollbar should report: the data lines that do
/// not fit into the region's height.
pub fn scroll_range(positions: &RenderPositions, height: u16) -> (range: usize)
    ensures
        range == spec_max(0, positions.available_data_lines - height as int),
{
    positions.available_data_lines.saturating_sub(height as usize)
}

/// What one render leaves in the region, row by row, given the state the
/// reconciliation pass produced: every visible data line's text, blank lines
/// below the data, and a fully blank region when no geometry exists.
pub open spec fn spec_render_output(
    inner_area: Rect,
    state_after: State,
    data: Seq<u8>,
) -> Seq<Seq<char>> {
    let width = inner_area.width as nat;
    match state_after.last_render_positions {
        None => Seq::new(inner_area.height as nat, |r: int| spec_blank_row(width)),
        Some(p) => {
            let per_row = p.per_row as int;
            let top = state_after.offset_address as int / per_row;
            let visible = spec_visible_line_count(p, state_after.offset_address, inner_area.height);
            Seq::new(
                inner_area.height as nat,
                |r: int|
                    if r < visible {
                        spec_row_chars(p, data, ((top + r) * per_row) as nat)
                    } else {
                        spec_blank_row(width)
                    },
            )
        },
    }
}

/// What one render leaves in the region has one row per line of the region's
/// height, each exactly as wide as the region: nothing the render produces
/// can overrun the drawing region.
pub proof fn lemma_render_output_dimensions(inner_area: Rect, state_after: State, data: Seq<u8>)
    requires
        (match state_after.last_render_positions {
            Some(p) => p.inner_area == inner_area,
            None => true,
        }),
    ensures
        spec_render_output(inner_area, state_after, data).len() == inner_area.height,
        forall|r: int|
            0 <= r < inner_area.height ==> #[trigger] spec_render_output(
                inner_area,
                state_after,
                data,
            )[r].len() == inner_area.width,
{
    let output = spec_render_output(inner_area, state_after, data);
    assert forall|r: int| 0 <= r < inner_area.height implies #[trigger] output[r].len()
        == inner_area.width by {
        match state_after.last_render_positions {
            Some(p) => {
                let per_row = p.per_row as int;
                let top = state_after.offset_address as int / per_row;
                lemma_row_width(p, data, ((top + r) * per_row) as nat);
            },
            None => {},
        }
    }
}

/// Run one render: reconcile the state against the geometry of `inner_area`
/// and the data's length, and produce the region's text content, one row of
/// `inner_area.width` characters per line of `inner_area.height`. A host
/// copies these rows onto its drawing surface; styling is its own affair.
#[verifier::loop_isolation(false)]
pub fn render_lines(state: &mut State, inner_area: Rect, data: &[u8]) -> (lines: Vec<Vec<char>>)
    requires
        inner_area.x + inner_area.width <= u16::MAX,
    ensures
        *final(state) == old(state).spec_reconcile(inner_area, data@.len() as usize),
        final(state).inv(),
        lines@.map_values(|row: Vec<char>| row@) == spec_render_output(
            inner_area,
            *final(state),
            data@,
        ),
{
    let data_length = data.len();
    let positions = state.reconcile(inner_area, data_length);
    let width = inner_area.width as usize;
    let height = inner_area.height;
    let mut lines: Vec<Vec<char>> = Vec::new();
    match positions {
        None => {
            let mut r: u16 = 0;
            while r < height
                invariant
                    r <= height,
                    lines@.len() == r as int,
                    forall|j: int| 0 <= j < r ==> #[trigger] lines@[j]@ == spec_blank_row(
                        width as nat,
                    ),
                decreases height - r,
            {
                lines.push(blank_row(width));
                r = r + 1;
            }
        },
        Some(p) => {
            proof {
                lemma_positions_wf(inner_area, data_length);
                lemma_positions_fit(inner_area, data_length);
            }
            let per_row = p.per_row as usize;
            let top = start_line(&p, state.get_offset_address());
            let visible = visible_line_count(&p, state.get_offset_address(), height);
            let mut r: u16 = 0;
            while r < height
                invariant
                    r <= height,
                    lines@.len() == r as int,
                    forall|j: int|
                        0 <= j < r ==> #[trigger] lines@[j]@ == (if j < visible {
                            spec_row_chars(p, data@, ((top + j) * p.per_row as int) as nat)
                        } else {
                            spec_blank_row(width as nat)
                        }),
                decreases height - r,
            {
                if (r as usize) < visible {
                    proof {
                        lemma_line_address_bound(data_length, p.per_row as int, top + r as int);
                    }
                    let row_address = (top + r as usize) * per_row;
                    let row = render_row(&p, data, row_address);
                    lines.push(row);
                } else {
                    lines.push(blank_row(width));
                }
                r = r + 1;
            }
        },
    }
    proof {
        assert(lines@.map_values(|row: Vec<char>| row@) =~= spec_render_output(
            inner_area,
            *state,
            data@,
        ));
    }
    lines
}

} // verus!
