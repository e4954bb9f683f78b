use binary_data_widget::render::render_lines;
use binary_data_widget::render_positions::Rect;
use binary_data_widget::state::State;

fn render_to_strings(width: u16, height: u16, data: &[u8], state: &mut State) -> Vec<String> {
    let area = Rect {
        x: 0,
        y: 0,
        width,
        height,
    };
    render_lines(state, area, data)
        .iter()
        .map(|row| row.iter().collect())
        .collect()
}

fn render(width: u16, height: u16, data: &[u8], mut state: State, expected: &[&str]) {
    let rendered = render_to_strings(width, height, data, &mut state);
    let expected: Vec<String> = expected.iter().map(|line| (*line).to_string()).collect();
    assert_eq!(rendered, expected);
}

#[test]
fn numbers() {
    let data: Vec<u8> = (0..=0x12).collect();
    let state = State::new();
    let expected = [
        " 0:  0 1  2 3 ···· ",
        " 4:  4 5  6 7 ···· ",
        " 8:  8 9  a b ···· ",
        " c:  c d  e f ···· ",
        "10: 1011 12   ···  ",
        "                   ",
    ];
    render(19, 6, &data, state, &expected);
}

#[test]
fn characters() {
    let data: Vec<u8> = ('A'..='Z').map(|char| char as u8).collect();
    let state = State::new();
    let expected = [
        " 0: 4142 4344 ABCD ",
        " 4: 4546 4748 EFGH ",
        " 8: 494a 4b4c IJKL ",
        " c: 4d4e 4f50 MNOP ",
        "10: 5152 5354 QRST ",
        "14: 5556 5758 UVWX ",
        "18: 595a      YZ   ",
        "                   ",
    ];
    render(19, 8, &data, state, &expected);
}

#[test]
fn undersized_region_renders_nothing() {
    // Width 8 is below the 9-cell minimum: the whole region stays blank.
    let data: Vec<u8> = (0..=0x12).collect();
    let state = State::new();
    let expected = ["        ", "        ", "        "];
    render(8, 3, &data, state, &expected);
}

#[test]
fn empty_data_renders_nothing() {
    let state = State::new();
    let expected = ["                   ", "                   "];
    render(19, 2, &[], state, &expected);
}

#[test]
fn single_byte() {
    // One byte: one hex digit of address width, one visible row.
    let data = [0x41u8];
    let state = State::new();
    let expected = ["0: 41        A     ", "                   "];
    render(19, 2, &data, state, &expected);
}

#[test]
fn scrolled_view_starts_at_offset_row() {
    let data: Vec<u8> = ('A'..='Z').map(|char| char as u8).collect();
    let mut state = State::new();
    // A first render computes the geometry (4 bytes per row), then two lines
    // of scrolling move the top row to address 8.
    render_to_strings(19, 3, &data, &mut state);
    assert!(state.scroll_down(2));
    let rendered = render_to_strings(19, 3, &data, &mut state);
    assert_eq!(state.get_offset_address(), 8);
    let expected = [" 8: 494a 4b4c IJKL ", " c: 4d4e 4f50 MNOP ", "10: 5152 5354 QRST "];
    assert_eq!(rendered, expected.map(String::from).to_vec());
}

#[test]
fn scrolling_past_the_end_shows_the_last_row() {
    let data: Vec<u8> = ('A'..='Z').map(|char| char as u8).collect();
    let mut state = State::new();
    render_to_strings(19, 8, &data, &mut state);
    // Scrolling far down stops at the biggest address (25, not a row start);
    // the next render snaps the offset back to its row's first byte.
    assert!(state.scroll_down(100));
    assert_eq!(state.get_offset_address(), 25);
    let rendered = render_to_strings(19, 8, &data, &mut state);
    assert_eq!(state.get_offset_address(), 24);
    let expected = [
        "18: 595a      YZ   ",
        "                   ",
        "                   ",
        "                   ",
        "                   ",
        "                   ",
        "                   ",
        "                   ",
    ];
    assert_eq!(rendered, expected.map(String::from).to_vec());
}

#[test]
fn selection_scrolls_into_view_below() {
    let data: Vec<u8> = (0..100u8).collect();
    let mut state = State::new();
    render_to_strings(19, 4, &data, &mut state);
    state.select_address(Some(90));
    render_to_strings(19, 4, &data, &mut state);
    // 4 bytes per row: address 90 sits on row 22; with 4 visible rows the
    // view moves down so that row becomes the last one (rows 19..=22).
    let top_row = state.get_offset_address() / 4;
    assert_eq!(top_row, 19);
    assert_eq!(state.selected_address(), Some(90));
}

#[test]
fn selection_scrolls_into_view_above() {
    let data: Vec<u8> = (0..100u8).collect();
    let mut state = State::new();
    render_to_strings(19, 4, &data, &mut state);
    state.scroll_down(20);
    render_to_strings(19, 4, &data, &mut state);
    assert_eq!(state.get_offset_address(), 80);
    state.select_address(Some(0));
    render_to_strings(19, 4, &data, &mut state);
    assert_eq!(state.get_offset_address(), 0);
}

#[test]
fn reconciliation_is_idempotent() {
    let data: Vec<u8> = (0..100u8).collect();
    let mut state = State::new();
    state.select_address(Some(250));
    state.scroll_down(3);
    render_to_strings(19, 4, &data, &mut state);
    let offset = state.get_offset_address();
    let selected = state.selected_address();
    let pending = state.ensure_selected_in_view_on_next_render;
    render_to_strings(19, 4, &data, &mut state);
    assert_eq!(state.get_offset_address(), offset);
    assert_eq!(state.selected_address(), selected);
    assert_eq!(state.ensure_selected_in_view_on_next_render, pending);
}

#[test]
fn selection_clamped_to_data_length() {
    let data: Vec<u8> = (0..=0x12).collect();
    let mut state = State::new();
    state.select_address(Some(10_000));
    render_to_strings(19, 6, &data, &mut state);
    assert_eq!(state.selected_address(), Some(18));
}

#[test]
fn shrinking_data_clamps_offset_and_selection() {
    let long: Vec<u8> = (0..200u8).collect();
    let mut state = State::new();
    render_to_strings(19, 4, &long, &mut state);
    state.select_address(Some(199));
    render_to_strings(19, 4, &long, &mut state);
    let short: Vec<u8> = (0..10u8).collect();
    render_to_strings(19, 4, &short, &mut state);
    assert!(state.get_offset_address() <= 9);
    assert_eq!(state.selected_address(), Some(9));
}
