use binary_data_widget::render::render_lines;
use binary_data_widget::render_positions::Rect;
use binary_data_widget::state::State;

fn reconcile(state: &mut State, data: &[u8]) {
    let area = Rect {
        x: 0,
        y: 0,
        width: 19,
        height: 4,
    };
    render_lines(state, area, data);
}

#[test]
fn arrow_keys_seed_an_edge_when_nothing_is_selected() {
    let data: Vec<u8> = (0..100u8).collect();

    // Down or right without a selection aims at the start of the data.
    let mut state = State::new();
    assert!(state.key_down());
    assert_eq!(state.selected_address(), Some(0));
    let mut state = State::new();
    assert!(state.key_right());
    assert_eq!(state.selected_address(), Some(0));

    // Up or left without a selection aims at the very end; the next render
    // clamps the sentinel to the last byte.
    let mut state = State::new();
    assert!(state.key_up());
    assert_eq!(state.selected_address(), Some(usize::MAX));
    reconcile(&mut state, &data);
    assert_eq!(state.selected_address(), Some(99));
    let mut state = State::new();
    assert!(state.key_left());
    reconcile(&mut state, &data);
    assert_eq!(state.selected_address(), Some(99));
}

#[test]
fn arrow_keys_move_by_row_and_by_byte() {
    let data: Vec<u8> = (0..100u8).collect();
    let mut state = State::new();
    reconcile(&mut state, &data);

    // 19 cells wide: 4 bytes per row.
    state.select_address(Some(42));
    assert!(state.key_down());
    assert_eq!(state.selected_address(), Some(46));
    assert!(state.key_up());
    assert_eq!(state.selected_address(), Some(42));
    assert!(state.key_right());
    assert_eq!(state.selected_address(), Some(43));
    assert!(state.key_left());
    assert_eq!(state.selected_address(), Some(42));
    // An unchanged selection reports no change.
    assert!(!state.select_address(Some(42)));
}

#[test]
fn home_and_end_snap_to_the_row() {
    let data: Vec<u8> = (0..100u8).collect();
    let mut state = State::new();
    reconcile(&mut state, &data);

    state.select_address(Some(42));
    assert!(state.select_first_in_row());
    assert_eq!(state.selected_address(), Some(40));
    assert!(state.select_last_in_row());
    assert_eq!(state.selected_address(), Some(43));
    // Without a selection, Home aims at the first row's start ...
    let mut state = State::new();
    assert!(state.select_first_in_row());
    assert_eq!(state.selected_address(), Some(0));
    // ... and End at the first row's last byte, with the default row width
    // of 8 while no geometry exists yet.
    let mut state = State::new();
    assert!(state.select_last_in_row());
    assert_eq!(state.selected_address(), Some(7));
}

#[test]
fn key_navigation_saturates_at_the_data_edges() {
    let data: Vec<u8> = (0..100u8).collect();
    let mut state = State::new();
    reconcile(&mut state, &data);

    state.select_address(Some(1));
    state.key_up();
    assert_eq!(state.selected_address(), Some(0));
    state.key_left();
    assert_eq!(state.selected_address(), Some(0));

    state.select_address(Some(98));
    state.key_down();
    // Clamped against the biggest address of the last render right away.
    assert_eq!(state.selected_address(), Some(99));
}

#[test]
fn scrolling_up_stops_at_the_top() {
    let data: Vec<u8> = (0..100u8).collect();
    let mut state = State::new();
    reconcile(&mut state, &data);

    assert!(!state.scroll_up(1));
    assert!(state.scroll_down(3));
    assert_eq!(state.get_offset_address(), 12);
    assert!(state.scroll_up(1));
    assert_eq!(state.get_offset_address(), 8);
    assert!(state.scroll_up(10));
    assert_eq!(state.get_offset_address(), 0);
}

#[test]
fn scrolling_down_stops_at_the_biggest_address() {
    let data: Vec<u8> = (0..10u8).collect();
    let mut state = State::new();
    reconcile(&mut state, &data);

    assert!(state.scroll_down(1000));
    assert_eq!(state.get_offset_address(), 9);
    // Already at the stored limit: no further change to report.
    assert!(!state.scroll_down(1));
}

#[test]
fn navigation_stays_pinned_for_a_single_byte() {
    let data = [0xffu8];
    let mut state = State::new();
    reconcile(&mut state, &data);

    state.select_address(Some(0));
    state.key_down();
    state.key_right();
    reconcile(&mut state, &data);
    assert_eq!(state.selected_address(), Some(0));
    state.key_up();
    state.key_left();
    reconcile(&mut state, &data);
    assert_eq!(state.selected_address(), Some(0));
    assert_eq!(state.get_offset_address(), 0);
}

#[test]
fn clicked_address_uses_the_last_render() {
    let data: Vec<u8> = (0..=0x12).collect();
    let mut state = State::new();
    // Nothing rendered yet: no geometry to map through.
    assert_eq!(state.clicked_address(5, 0), None);
    reconcile(&mut state, &data);
    // Hex block of row 1 (4 bytes per row): second byte of the row.
    assert_eq!(state.clicked_address(6, 1), Some(5));
    // ASCII block of row 0: fourth byte.
    assert_eq!(state.clicked_address(17, 0), Some(3));
}
