//! Viewport and selection state of a binary data view. The state outlives a
//! single render: navigation mutators record the user's intent between
//! renders, and [`State::reconcile`] restores every invariant against a fresh
//! geometry once per render.

use vstd::prelude::*;

verus! {

use vstd::math::min as spec_min;
use vstd::math::max as spec_max;
use vstd::arithmetic::div_mod::lemma_fundamental_div_mod;
use vstd::arithmetic::div_mod::lemma_remainder_lower;
use vstd::arithmetic::mul::lemma_mul_inequality;
use crate::arith::sat_mul_usize;
use crate::render_positions::Rect;
use crate::render_positions::RenderPositions;
use crate::render_positions::lemma_positions_wf;
use crate::render_positions::spec_positions;

/// Bytes per row assumed by key navigation before any geometry has been
/// computed.
pub const DEFAULT_PER_ROW: usize = 8;

/// Where the top row moves so the selected row is visible: up to the selected
/// row when it lies above the view, down just far enough that it becomes the
/// last visible row when it lies below, and unchanged when it is already in
/// view.
pub open spec fn spec_scroll_into_view(top_row: int, selected_row: int, height: int) -> int {
    if selected_row < top_row {
        selected_row
    } else if selected_row >= top_row + height {
        selected_row + 1 - height
    } else {
        top_row
    }
}

/// Keeps the viewport of a binary data view across renders: the scroll
/// offset, the optional selected address, whether the next render must bring
/// the selection into view, and the geometry of the last render.
#[derive(Debug, Default, Clone, Copy)]
pub struct State {
    pub ensure_selected_in_view_on_next_render: bool,
    pub last_render_positions: Option<RenderPositions>,
    pub offset_address: usize,
    pub selected_address: Option<usize>,
}

impl State {
    /// A stored geometry, if any, is one that a render produced.
    pub open spec fn inv(self) -> bool {
        match self.last_render_positions {
            Some(positions) => positions.wf(),
            None => true,
        }
    }

    /// Bytes per row as of the last render, or the default when nothing has
    /// been rendered yet.
    pub open spec fn spec_last_per_row(self) -> int {
        match self.last_render_positions {
            Some(positions) => positions.per_row as int,
            None => DEFAULT_PER_ROW as int,
        }
    }

    /// The address that selecting `address` actually stores: clamped to the
    /// biggest address of the last render, when there was one.
    pub open spec fn spec_select_target(self, address: Option<usize>) -> Option<usize> {
        match (address, self.last_render_positions) {
            (Some(selected), Some(last)) => Some(
                spec_min(selected as int, last.biggest_address as int) as usize,
            ),
            _ => address,
        }
    }

    /// The state after `select_address(address)`.
    pub open spec fn spec_select(self, address: Option<usize>) -> State {
        State {
            ensure_selected_in_view_on_next_render: true,
            selected_address: self.spec_select_target(address),
            ..self
        }
    }

    pub fn new() -> (state: State)
        ensures
            state == (State {
                ensure_selected_in_view_on_next_render: false,
                last_render_positions: None::<RenderPositions>,
                offset_address: 0,
                selected_address: None::<usize>,
            }),
    {
        Self {
            ensure_selected_in_view_on_next_render: false,
            last_render_positions: None,
            offset_address: 0,
            selected_address: None,
        }
    }

    pub fn get_offset_address(&self) -> (address: usize)
        ensures
            address == self.offset_address,
    {
        self.offset_address
    }

    pub fn selected_address(&self) -> (address: Option<usize>)
        ensures
            address == self.selected_address,
    {
        self.selected_address
    }

    /// Select the given address, remembering to scroll it into view on the
    /// next render. An address beyond what the last render could show is
    /// clamped to that render's biggest address.
    ///
    /// Returns `true` when the selection changed.
    pub fn select_address(&mut self, address: Option<usize>) -> (changed: bool)
        ensures
            *final(self) == old(self).spec_select(address),
            changed == (old(self).selected_address != final(self).selected_address),
    {
        self.ensure_selected_in_view_on_next_render = true;

        // Limit the address to what was possible to select on last render
        let address = if let (Some(selected), Some(last)) = (address, self.last_render_positions) {
            Some(
                if selected < last.biggest_address {
                    selected
                } else {
                    last.biggest_address
                },
            )
        } else {
            address
        };

        let changed = self.selected_address != address;
        self.selected_address = address;
        changed
    }

    /// Bytes per row as of the last render.
    fn last_per_row(&self) -> (per_row: usize)
        requires
            self.inv(),
        ensures
            per_row == self.spec_last_per_row(),
            1 <= per_row <= u16::MAX,
    {
        match self.last_render_positions {
            Some(positions) => positions.per_row as usize,
            None => DEFAULT_PER_ROW,
        }
    }

    /// The selection target of `select_first_in_row`: the start of the row
    /// that holds the selection, or address zero without a selection.
    pub open spec fn spec_first_in_row_target(self) -> int {
        match self.selected_address {
            Some(selected) => (selected as int / self.spec_last_per_row())
                * self.spec_last_per_row(),
            None => 0,
        }
    }

    /// Handles the Home key: snap the selection to the start of its row.
    ///
    /// Returns `true` when the selection changed.
    pub fn select_first_in_row(&mut self) -> (changed: bool)
        requires
            old(self).inv(),
        ensures
            *final(self) == old(self).spec_select(
                Some(old(self).spec_first_in_row_target() as usize),
            ),
            changed == (old(self).selected_address != final(self).selected_address),
    {
        let target: usize = match self.selected_address {
            Some(selected) => {
                let per_row = self.last_per_row();
                proof {
                    lemma_fundamental_div_mod(selected as int, per_row as int);
                }
                (selected / per_row) * per_row
            },
            None => 0,
        };
        self.select_address(Some(target))
    }

    /// The selection target of `select_last_in_row`: the last address of the
    /// row that holds the selection, or of the first row without a selection.
    pub open spec fn spec_last_in_row_target(self) -> int {
        let per_row = self.spec_last_per_row();
        match self.selected_address {
            Some(selected) => spec_min(
                (selected as int / per_row) * per_row + (per_row - 1),
                usize::MAX as int,
            ),
            None => per_row - 1,
        }
    }

    /// Handles the End key: snap the selection to the end of its row.
    ///
    /// Returns `true` when the selection changed.
    pub fn select_last_in_row(&mut self) -> (changed: bool)
        requires
            old(self).inv(),
        ensures
            *final(self) == old(self).spec_select(
                Some(old(self).spec_last_in_row_target() as usize),
            ),
            changed == (old(self).selected_address != final(self).selected_address),
    {
        let per_row = self.last_per_row();
        let last_in_row = per_row - 1;
        let target: usize = match self.selected_address {
            Some(selected) => {
                proof {
                    lemma_fundamental_div_mod(selected as int, per_row as int);
                    assert((selected as int / per_row as int) * (per_row as int) <= selected);
                }
                ((selected / per_row) * per_row).saturating_add(last_in_row)
            },
            None => last_in_row,
        };
        self.select_address(Some(target))
    }

    /// The selection target of `key_up`: one row up, or the end sentinel
    /// without a selection (clamped on the next render).
    pub open spec fn spec_key_up_target(self) -> int {
        match self.selected_address {
            Some(selected) => spec_max(0, selected - self.spec_last_per_row()),
            None => usize::MAX as int,
        }
    }

    /// Handles the up arrow key: move the selection one row up. Without a
    /// selection, aim at the very end of the data.
    ///
    /// Returns `true` when the selection changed.
    pub fn key_up(&mut self) -> (changed: bool)
        requires
            old(self).inv(),
        ensures
            *final(self) == old(self).spec_select(Some(old(self).spec_key_up_target() as usize)),
            changed == (old(self).selected_address != final(self).selected_address),
    {
        let target: usize = match self.selected_address {
            Some(selected) => selected.saturating_sub(self.last_per_row()),
            None => usize::MAX,
        };
        self.select_address(Some(target))
    }

    /// The selection target of `key_down`: one row down, or address zero
    /// without a selection.
    pub open spec fn spec_key_down_target(self) -> int {
        match self.selected_address {
            Some(selected) => spec_min(
                selected + self.spec_last_per_row(),
                usize::MAX as int,
            ),
            None => 0,
        }
    }

    /// Handles the down arrow key: move the selection one row down. Without
    /// a selection, aim at the start of the data.
    ///
    /// Returns `true` when the selection changed.
    pub fn key_down(&mut self) -> (changed: bool)
        requires
            old(self).inv(),
        ensures
            *final(self) == old(self).spec_select(Some(old(self).spec_key_down_target() as usize)),
            changed == (old(self).selected_address != final(self).selected_address),
    {
        let target: usize = match self.selected_address {
            Some(selected) => selected.saturating_add(self.last_per_row()),
            None => 0,
        };
        self.select_address(Some(target))
    }

    /// Handles the left arrow key: move the selection one byte back. Without
    /// a selection, aim at the very end of the data.
    ///
    /// Returns `true` when the selection changed.
    pub fn key_left(&mut self) -> (changed: bool)
        ensures
            *final(self) == old(self).spec_select(
                Some(
                    match old(self).selected_address {
                        Some(selected) => spec_max(0, selected - 1) as usize,
                        None => usize::MAX,
                    },
                ),
            ),
            changed == (old(self).selected_address != final(self).selected_address),
    {
        let target: usize = match self.selected_address {
            Some(selected) => selected.saturating_sub(1),
            None => usize::MAX,
        };
        self.select_address(Some(target))
    }

    /// Handles the right arrow key: move the selection one byte forward.
    /// Without a selection, aim at the start of the data.
    ///
    /// Returns `true` when the selection changed.
    pub fn key_right(&mut self) -> (changed: bool)
        ensures
            *final(self) == old(self).spec_select(
                Some(
                    match old(self).selected_address {
                        Some(selected) => spec_min(selected + 1, usize::MAX as int) as usize,
                        None => 0,
                    },
                ),
            ),
            changed == (old(self).selected_address != final(self).selected_address),
    {
        let target: usize = match self.selected_address {
            Some(selected) => selected.saturating_add(1),
            None => 0,
        };
        self.select_address(Some(target))
    }

    /// Scroll the given amount of lines up, by the row width of the last
    /// render. Does not touch the selection.
    ///
    /// Returns `true` when the offset changed; `false` when the view was
    /// already at the top.
    pub fn scroll_up(&mut self, lines: usize) -> (changed: bool)
        requires
            old(self).inv(),
        ensures
            *final(self) == (State {
                offset_address: spec_max(
                    0,
                    old(self).offset_address - lines * old(self).spec_last_per_row(),
                ) as usize,
                ..*old(self)
            }),
            changed == (old(self).offset_address != final(self).offset_address),
    {
        let before = self.offset_address;
        let step = sat_mul_usize(lines, self.last_per_row());
        self.offset_address = self.offset_address.saturating_sub(step);
        before != self.offset_address
    }

    /// The offset after `scroll_down(lines)`: moved down by whole rows, but
    /// never past the biggest address of the last render.
    pub open spec fn spec_scroll_down_offset(self, lines: usize) -> int {
        let limit = match self.last_render_positions {
            Some(last) => last.biggest_address as int,
            None => usize::MAX as int,
        };
        spec_min(self.offset_address + lines * self.spec_last_per_row(), limit)
    }

    /// Scroll the given amount of lines down, by the row width of the last
    /// render. Does not touch the selection. The offset stops at the biggest
    /// address of the last render; the next render clamps it further against
    /// the then-current data length.
    ///
    /// Returns `true` when the stored offset changed.
    pub fn scroll_down(&mut self, lines: usize) -> (changed: bool)
        requires
            old(self).inv(),
        ensures
            *final(self) == (State {
                offset_address: old(self).spec_scroll_down_offset(lines) as usize,
                ..*old(self)
            }),
            changed == (old(self).offset_address != final(self).offset_address),
    {
        let before = self.offset_address;
        let last_biggest_address = match self.last_render_positions {
            Some(last) => last.biggest_address,
            None => usize::MAX,
        };
        let step = sat_mul_usize(lines, self.last_per_row());
        let target = self.offset_address.saturating_add(step);
        self.offset_address = if target < last_biggest_address {
            target
        } else {
            last_biggest_address
        };
        before != self.offset_address
    }

    /// The state after one reconciliation pass against the geometry derived
    /// from `inner_area` and `data_length`: the stored geometry is replaced,
    /// the offset and the selection are clamped to the biggest address, the
    /// top row moves to bring a pending selection into view, the offset snaps
    /// to the start of its row, and the pending flag is cleared. Without a
    /// geometry only the stored geometry changes.
    pub open spec fn spec_reconcile(self, inner_area: Rect, data_length: usize) -> State {
        match spec_positions(inner_area, data_length) {
            None => State { last_render_positions: None::<RenderPositions>, ..self },
            Some(positions) => {
                let biggest = data_length - 1;
                let offset = spec_min(self.offset_address as int, biggest);
                let selected = match self.selected_address {
                    Some(address) => Some(spec_min(address as int, biggest) as usize),
                    None => None::<usize>,
                };
                let per_row = positions.per_row as int;
                let top_row = offset / per_row;
                let start_line = if self.ensure_selected_in_view_on_next_render {
                    match selected {
                        Some(address) => spec_scroll_into_view(
                            top_row,
                            address as int / per_row,
                            inner_area.height as int,
                        ),
                        None => top_row,
                    }
                } else {
                    top_row
                };
                State {
                    ensure_selected_in_view_on_next_render: false,
                    last_render_positions: Some(positions),
                    offset_address: (start_line * per_row) as usize,
                    selected_address: selected,
                }
            },
        }
    }

    /// Run the once-per-render reconciliation pass: compute and store the
    /// geometry for `inner_area` and `data_length`, restore every viewport
    /// invariant against it, and hand the geometry back.
    pub fn reconcile(&mut self, inner_area: Rect, data_length: usize) -> (positions: Option<
        RenderPositions,
    >)
        ensures
            *final(self) == old(self).spec_reconcile(inner_area, data_length),
            positions == final(self).last_render_positions,
            final(self).inv(),
    {
        let computed = RenderPositions::new(inner_area, data_length);
        self.last_render_positions = computed;
        let positions = match computed {
            Some(positions) => positions,
            None => {
                return None;
            },
        };
        proof {
            lemma_positions_wf(inner_area, data_length);
        }

        // Ensure the offset is actually in data range
        let biggest = data_length - 1;
        if self.offset_address > biggest {
            self.offset_address = biggest;
        }
        // Ensure the selected address is actually selectable
        if let Some(selected) = self.selected_address {
            if selected > biggest {
                self.selected_address = Some(biggest);
            }
        }

        let per_row = positions.per_row as usize;
        let mut start_line = self.offset_address / per_row;
        if self.ensure_selected_in_view_on_next_render {
            if let Some(selected) = self.selected_address {
                let selected_line = selected / per_row;
                if selected_line < start_line {
                    // Move the view up to the selected row
                    start_line = selected_line;
                } else {
                    let available_height = inner_area.height as usize;
                    if selected_line - start_line >= available_height {
                        // Move the view down: the selected row becomes the
                        // last visible one
                        start_line = selected_line - (available_height - 1);
                    }
                }
            }
        }
        self.ensure_selected_in_view_on_next_render = false;
        proof {
            let p = per_row as int;
            let off = self.offset_address as int;
            lemma_remainder_lower(off, p);
            if start_line as int <= off / p {
                lemma_mul_inequality(start_line as int, off / p, p);
            } else {
                match self.selected_address {
                    Some(selected) => {
                        lemma_remainder_lower(selected as int, p);
                        lemma_mul_inequality(start_line as int, selected as int / p, p);
                    },
                    None => {},
                }
            }
            assert(start_line as int * p <= biggest as int);
        }
        self.offset_address = start_line * per_row;
        Some(positions)
    }

    /// The address under cell `(column, row)`, mapped through the geometry of
    /// the last render, or `None` when nothing has been rendered yet.
    pub open spec fn spec_clicked_address(self, column: u16, row: u16) -> Option<usize> {
        match self.last_render_positions {
            Some(positions) => Some(
                positions.spec_clicked_address(self.offset_address, column, row) as usize,
            ),
            None => None,
        }
    }

    /// Get the address on the given display position of the last render.
    pub fn clicked_address(&self, column: u16, row: u16) -> (address: Option<usize>)
        ensures
            address == self.spec_clicked_address(column, row),
    {
        match self.last_render_positions {
            Some(positions) => Some(positions.clicked_address(self.offset_address, column, row)),
            None => None,
        }
    }
}

} // verus!
