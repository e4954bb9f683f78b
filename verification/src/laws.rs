//! The guarantees that tie the pieces together, each proved once and for
//! all: the shape of every computed geometry, idempotence of reconciliation,
//! the selection clamp, the scroll-into-view guarantee, and the click
//! mapping being the inverse of the forward column formulas.

use vstd::prelude::*;

verus! {

use vstd::math::min as spec_min;
use vstd::arithmetic::div_mod::lemma_div_multiples_vanish;
use vstd::arithmetic::div_mod::lemma_div_pos_is_pos;
use vstd::arithmetic::div_mod::lemma_fundamental_div_mod;
use vstd::arithmetic::div_mod::lemma_fundamental_div_mod_converse;
use vstd::arithmetic::div_mod::lemma_remainder_lower;
use vstd::arithmetic::mul::lemma_mul_inequality;
use crate::render_positions::Rect;
use crate::render_positions::RenderPositions;
use crate::render_positions::is_power_of_two;
use crate::render_positions::lemma_positions_fit;
use crate::render_positions::lemma_positions_wf;
use crate::render_positions::spec_positions;
use crate::state::State;
use crate::state::spec_scroll_into_view;

/// Every geometry computed for a region that lies inside the coordinate
/// space shows a power of two of bytes per row, at least two of them, and
/// puts the ASCII block strictly right of the hex block.
pub proof fn lemma_positions_shape(inner_area: Rect, data_length: usize)
    requires
        spec_positions(inner_area, data_length) is Some,
        inner_area.x + inner_area.width <= u16::MAX,
    ensures
        ({
            let p = spec_positions(inner_area, data_length)->Some_0;
            &&& is_power_of_two(p.per_row as nat)
            &&& p.per_row >= 2
            &&& p.offset_x_char > p.offset_x_hex
        }),
{
    lemma_positions_wf(inner_area, data_length);
    lemma_positions_fit(inner_area, data_length);
}

/// One reconciliation pass restores every viewport invariant: the offset
/// lies in the data and on a whole row start, a pending selection's row has
/// been brought into the visible window, and the selection lies in the data.
pub proof fn lemma_reconcile_invariants(state: State, inner_area: Rect, data_length: usize)
    requires
        spec_positions(inner_area, data_length) is Some,
    ensures
        ({
            let after = state.spec_reconcile(inner_area, data_length);
            let p = spec_positions(inner_area, data_length)->Some_0;
            let per_row = p.per_row as int;
            let top = after.offset_address as int / per_row;
            &&& after.offset_address <= data_length - 1
            &&& after.offset_address as int == top * per_row
            &&& (match (state.ensure_selected_in_view_on_next_render, after.selected_address) {
                (true, Some(address)) => top <= address as int / per_row < top
                    + inner_area.height,
                _ => true,
            })
            &&& (match after.selected_address {
                Some(address) => address <= data_length - 1,
                None => true,
            })
        }),
{
    lemma_positions_wf(inner_area, data_length);
    let after = state.spec_reconcile(inner_area, data_length);
    let p = spec_positions(inner_area, data_length)->Some_0;
    let per_row = p.per_row as int;
    let biggest = data_length - 1;
    let height = inner_area.height as int;
    let offset_clamped = spec_min(state.offset_address as int, biggest);
    let top0 = offset_clamped / per_row;
    lemma_div_pos_is_pos(offset_clamped, per_row);
    lemma_remainder_lower(offset_clamped, per_row);

    let start_line = if state.ensure_selected_in_view_on_next_render {
        match after.selected_address {
            Some(address) => spec_scroll_into_view(top0, address as int / per_row, height),
            None => top0,
        }
    } else {
        top0
    };
    assert(after.offset_address as int == (start_line * per_row) as usize as int);

    assert(0 <= start_line && start_line * per_row <= biggest) by {
        if state.ensure_selected_in_view_on_next_render && after.selected_address is Some {
            let address = after.selected_address->Some_0 as int;
            let selected_row = address / per_row;
            lemma_div_pos_is_pos(address, per_row);
            lemma_remainder_lower(address, per_row);
            if selected_row < top0 {
            } else if selected_row >= top0 + height {
                lemma_mul_inequality(start_line, selected_row, per_row);
            } else {
            }
        }
    }
    assert(after.offset_address as int == start_line * per_row);
    lemma_div_multiples_vanish(start_line, per_row);
    assert(after.offset_address as int / per_row == start_line);
    if state.ensure_selected_in_view_on_next_render && after.selected_address is Some {
        let address = after.selected_address->Some_0 as int;
        let selected_row = address / per_row;
        assert(start_line <= selected_row < start_line + height);
    }
}

/// Reconciling twice in a row, with no navigation in between, leaves exactly
/// the state that one reconciliation produces.
pub proof fn lemma_reconcile_idempotent(state: State, inner_area: Rect, data_length: usize)
    ensures
        state.spec_reconcile(inner_area, data_length).spec_reconcile(inner_area, data_length)
            == state.spec_reconcile(inner_area, data_length),
{
    let once = state.spec_reconcile(inner_area, data_length);
    let twice = once.spec_reconcile(inner_area, data_length);
    match spec_positions(inner_area, data_length) {
        None => {
            assert(twice == once);
        },
        Some(p) => {
            lemma_positions_wf(inner_area, data_length);
            lemma_reconcile_invariants(state, inner_area, data_length);
            let per_row = p.per_row as int;
            let biggest = data_length - 1;
            // The first pass left the offset at a whole row start at or
            // below the biggest address and cleared the pending flag, so the
            // second pass recomputes exactly the same values.
            let top = once.offset_address as int / per_row;
            assert(spec_min(once.offset_address as int, biggest) == once.offset_address as int);
            assert(twice.offset_address as int == top * per_row == once.offset_address as int);
            assert(twice.selected_address == once.selected_address);
            assert(twice == once);
        },
    }
}

/// A selection at or beyond the data is clamped to the last byte by one
/// reconciliation pass.
pub proof fn lemma_reconcile_clamps_selection(
    state: State,
    inner_area: Rect,
    data_length: usize,
)
    requires
        spec_positions(inner_area, data_length) is Some,
        state.selected_address is Some,
        state.selected_address->Some_0 >= data_length,
    ensures
        state.spec_reconcile(inner_area, data_length).selected_address == Some(
            (data_length - 1) as usize,
        ),
{
}

/// After selecting an address and reconciling once, the row that holds the
/// (clamped) selection lies inside the visible window: its index is at least
/// the top row's and less than the top row's plus the region's height.
pub proof fn lemma_selection_scrolled_into_view(
    state: State,
    address: usize,
    inner_area: Rect,
    data_length: usize,
)
    requires
        spec_positions(inner_area, data_length) is Some,
    ensures
        ({
            let after = state.spec_select(Some(address)).spec_reconcile(inner_area, data_length);
            let p = spec_positions(inner_area, data_length)->Some_0;
            let per_row = p.per_row as int;
            let top = after.offset_address as int / per_row;
            &&& after.selected_address is Some
            &&& top <= after.selected_address->Some_0 as int / per_row < top + inner_area.height
        }),
{
    let picked = state.spec_select(Some(address));
    // Selecting always sets the pending flag and stores some address, so the
    // reconciliation pass is bound to bring its row into view.
    assert(picked.ensure_selected_in_view_on_next_render);
    assert(picked.selected_address is Some);
    lemma_reconcile_invariants(picked, inner_area, data_length);
}

/// The click mapping is the inverse of the forward column formulas: a click
/// on either hex cell of byte `i` of a visible row, or on its ASCII cell,
/// selects exactly the address that the render placed there.
pub proof fn lemma_click_inverse(
    p: RenderPositions,
    offset_address: usize,
    row: u16,
    i: u16,
    d: u16,
)
    requires
        p.wf(),
        p.fits(),
        i < p.per_row,
        d < 2,
        p.inner_area.y <= row,
        offset_address + (row - p.inner_area.y) * p.per_row + p.per_row <= usize::MAX,
    ensures
        ({
            let base = offset_address + (row - p.inner_area.y) * p.per_row;
            &&& p.spec_clicked_address(
                offset_address,
                (p.spec_x_hex(i as int) + d) as u16,
                row,
            ) == base + i
            &&& p.spec_clicked_address(offset_address, p.spec_x_char(i as int) as u16, row)
                == base + i
        }),
{
    let pr = p.per_row as int;
    let base = offset_address + (row - p.inner_area.y) * pr;
    let k = i as int / 2;
    let m = i as int % 2;
    lemma_fundamental_div_mod(i as int, 2);
    lemma_fundamental_div_mod(pr, 2);
    assert(pr % 2 == 0);
    assert(k <= pr / 2 - 1);

    // Nothing saturates: both cells of every byte lie left of the region's
    // right edge.
    assert(p.offset_x_hex + 2 * i + i as int / 2 + 2 <= p.offset_x_char - 1);
    assert(p.offset_x_char + i < p.inner_area.x + p.inner_area.width <= u16::MAX);
    let column_hex = (p.spec_x_hex(i as int) + d) as u16;
    let column_char = p.spec_x_char(i as int) as u16;
    assert(column_hex == p.offset_x_hex + 2 * i + k + d);
    assert(column_char == p.offset_x_char + i);

    if i == 0 && d == 0 {
        // The first hex cell sits exactly on the hex block's edge, where a
        // click selects the row's first byte.
        assert(p.spec_clicked_address(offset_address, column_hex, row) == base);
    } else {
        // Inside the hex block: undo the two-cells-per-byte,
        // one-space-per-pair spacing.
        let diff = 5 * k + 2 * m + d;
        assert(column_hex - p.offset_x_hex == diff);
        lemma_fundamental_div_mod_converse(diff, 5, k, 2 * m + d);
        assert(diff / 5 == k);
        lemma_fundamental_div_mod_converse(diff - k, 2, 2 * k + m, d as int);
        assert((diff - diff / 5) / 2 == i);
        assert(p.spec_clicked_address(offset_address, column_hex, row) == base + i);
    }

    // Inside the ASCII block: one cell per byte.
    assert(column_char >= p.offset_x_char - 1);
    assert(p.spec_clicked_address(offset_address, column_char, row) == base + i);
}

} // verus!
