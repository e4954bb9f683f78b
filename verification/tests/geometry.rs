use binary_data_widget::render::address_label;
use binary_data_widget::render::byte_hex;
use binary_data_widget::render::byte_symbol;
use binary_data_widget::render::max_lines_of_data_in_area;
use binary_data_widget::render_positions::Rect;
use binary_data_widget::render_positions::RenderPositions;

fn area(width: u16, height: u16) -> Rect {
    Rect {
        x: 0,
        y: 0,
        width,
        height,
    }
}

#[test]
fn geometry_for_19_cells_wide_region() {
    let positions = RenderPositions::new(area(19, 6), 19).unwrap();
    assert_eq!(positions.biggest_address, 18);
    assert_eq!(positions.address_width, 2);
    assert_eq!(positions.per_row, 4);
    assert_eq!(positions.available_data_lines, 5);
    assert_eq!(positions.offset_x_hex, 4);
    assert_eq!(positions.offset_x_char, 14);
}

#[test]
fn geometry_rejects_undersized_or_empty() {
    // Below the 9-cell width minimum.
    assert!(RenderPositions::new(area(8, 6), 19).is_none());
    // No line to draw on.
    assert!(RenderPositions::new(area(19, 0), 19).is_none());
    // Nothing to show.
    assert!(RenderPositions::new(area(19, 6), 0).is_none());
    // Wide enough for the early checks but not for two byte pairs.
    assert!(RenderPositions::new(area(13, 6), 19).is_none());
}

#[test]
fn per_row_is_the_largest_fitting_power_of_two() {
    // Each doubling of the pair budget doubles the bytes per row.
    assert_eq!(RenderPositions::new(area(18, 1), 100).unwrap().per_row, 4);
    assert_eq!(RenderPositions::new(area(32, 1), 100).unwrap().per_row, 8);
    assert_eq!(RenderPositions::new(area(46, 1), 100).unwrap().per_row, 8);
    assert_eq!(RenderPositions::new(area(60, 1), 100).unwrap().per_row, 16);
}

#[test]
fn single_byte_takes_one_address_digit() {
    let positions = RenderPositions::new(area(19, 6), 1).unwrap();
    assert_eq!(positions.address_width, 1);
    assert_eq!(positions.biggest_address, 0);
    assert_eq!(positions.available_data_lines, 1);
}

#[test]
fn byte_columns_interleave_pairs() {
    let positions = RenderPositions::new(area(19, 6), 19).unwrap();
    // Two cells per byte, one extra space after each pair.
    assert_eq!(positions.x_hex(0), 4);
    assert_eq!(positions.x_hex(1), 6);
    assert_eq!(positions.x_hex(2), 9);
    assert_eq!(positions.x_hex(3), 11);
    assert_eq!(positions.x_char(0), 14);
    assert_eq!(positions.x_char(3), 17);
}

#[test]
fn clicks_invert_the_forward_columns() {
    let positions = RenderPositions::new(area(19, 6), 19).unwrap();
    for row in 0..5u16 {
        let base = usize::from(row) * 4;
        for i in 0..4u16 {
            // Both hex cells of the byte and its ASCII cell select it.
            let hex_col = positions.x_hex(i);
            assert_eq!(positions.clicked_address(0, hex_col, row), base + usize::from(i));
            assert_eq!(positions.clicked_address(0, hex_col + 1, row), base + usize::from(i));
            let char_col = positions.x_char(i);
            assert_eq!(positions.clicked_address(0, char_col, row), base + usize::from(i));
        }
    }
}

#[test]
fn clicks_outside_the_blocks_clamp_to_the_row() {
    let positions = RenderPositions::new(area(19, 6), 19).unwrap();
    // Left of the hex block: the row's first byte.
    assert_eq!(positions.clicked_address(0, 0, 1), 4);
    assert_eq!(positions.clicked_address(0, 4, 1), 4);
    // Right of the ASCII block: the row's last byte.
    assert_eq!(positions.clicked_address(0, 18, 1), 7);
    // A scrolled view shifts every row by the offset.
    assert_eq!(positions.clicked_address(8, 0, 0), 8);
}

#[test]
fn max_lines_counts_rows_or_zero() {
    assert_eq!(max_lines_of_data_in_area(area(19, 6), 19), 5);
    assert_eq!(max_lines_of_data_in_area(area(19, 6), 26), 7);
    assert_eq!(max_lines_of_data_in_area(area(19, 6), 1), 1);
    assert_eq!(max_lines_of_data_in_area(area(8, 6), 19), 0);
    assert_eq!(max_lines_of_data_in_area(area(19, 6), 0), 0);
}

#[test]
fn address_labels_are_right_justified_hex() {
    let label: String = address_label(0, 2).iter().collect();
    assert_eq!(label, " 0: ");
    let label: String = address_label(0x10, 2).iter().collect();
    assert_eq!(label, "10: ");
    let label: String = address_label(0x1ab, 4).iter().collect();
    assert_eq!(label, " 1ab: ");
}

#[test]
fn byte_hex_pads_small_values_with_a_space() {
    let cells: String = byte_hex(0x00).iter().collect();
    assert_eq!(cells, " 0");
    let cells: String = byte_hex(0x0f).iter().collect();
    assert_eq!(cells, " f");
    let cells: String = byte_hex(0x10).iter().collect();
    assert_eq!(cells, "10");
    let cells: String = byte_hex(0xff).iter().collect();
    assert_eq!(cells, "ff");
}

#[test]
fn byte_symbols_show_graphic_ascii_only() {
    assert_eq!(byte_symbol(b'A'), 'A');
    assert_eq!(byte_symbol(b'~'), '~');
    assert_eq!(byte_symbol(b' '), ' ');
    assert_eq!(byte_symbol(0x00), '·');
    assert_eq!(byte_symbol(0x1f), '·');
    assert_eq!(byte_symbol(0x7f), '·');
    assert_eq!(byte_symbol(0xff), '·');
}
