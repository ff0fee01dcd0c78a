use place_backend::frames::{decode_delta_frame, decode_grid_frame};
use place_backend::place::State;
use place_backend::records::{Color, DeltaGrid, Pixel};

fn white() -> Color {
    Color::new(255, 255, 255)
}

fn cells(state: &State) -> Vec<Vec<Color>> {
    state.grid().rows.iter().map(|row| row.pixels.clone()).collect()
}

fn assert_shape(state: &State, width: usize, height: usize) {
    assert!(state.is_well_formed());
    assert_eq!(state.get_grid_width(), width);
    assert_eq!(state.get_grid_height(), height);
    assert_eq!(state.grid().rows.len(), height);
    for row in state.grid().rows.iter() {
        assert_eq!(row.pixels.len(), width);
    }
}

#[test]
fn new_state_is_empty() {
    let state = State::new();
    assert_shape(&state, 0, 0);
    assert!(state.delta().delta.is_empty());
    assert!(state.get_encoded_grid_data_cloned().is_empty());
    assert!(state.get_encoded_delta_data_cloned().is_empty());
}

#[test]
fn resize_from_nothing_gives_default_cells() {
    let mut state = State::new();
    state.set_grid_size(3, 2);
    assert_shape(&state, 3, 2);
    assert_eq!(cells(&state), vec![vec![white(); 3]; 2]);
}

#[test]
fn edit_then_checkpoint() {
    let mut state = State::new();
    state.set_grid_size(3, 2);
    let edit = Pixel { x: 1, y: 0, color: Color::new(10, 20, 30) };
    assert!(state.set_pixel(edit));
    state.add_pixel_to_delta(edit);
    assert_eq!(state.grid().rows[0].pixels[1], Color::new(10, 20, 30));
    assert_eq!(state.delta().delta.len(), 1);

    assert_eq!(state.set_new_encoded_grid_data(), Ok(()));
    assert_eq!(state.delta().delta.len(), 0);
    let cached = decode_grid_frame(&state.get_encoded_grid_data_cloned()).unwrap();
    assert_eq!(cached.rows[0].pixels, vec![white(), Color::new(10, 20, 30), white()]);
    assert_eq!(cached.rows[1].pixels, vec![white(); 3]);
    assert_eq!(&cached, state.grid());
    assert_eq!(
        decode_delta_frame(&state.get_encoded_delta_data_cloned()),
        Ok(DeltaGrid { delta: vec![] })
    );
}

#[test]
fn edit_out_of_bounds_changes_nothing() {
    let mut state = State::new();
    state.set_grid_size(3, 2);
    let before = cells(&state);
    assert!(!state.set_pixel(Pixel { x: 5, y: 5, color: Color::new(0, 0, 0) }));
    assert_eq!(cells(&state), before);
    assert!(state.delta().delta.is_empty());
}

#[test]
fn edit_on_the_edge_is_out_of_bounds() {
    let mut state = State::new();
    state.set_grid_size(3, 2);
    assert!(!state.set_pixel(Pixel { x: 3, y: 0, color: Color::new(0, 0, 0) }));
    assert!(!state.set_pixel(Pixel { x: 0, y: 2, color: Color::new(0, 0, 0) }));
    assert!(state.set_pixel(Pixel { x: 2, y: 1, color: Color::new(0, 0, 0) }));
    assert_eq!(state.grid().rows[1].pixels[2], Color::new(0, 0, 0));
}

#[test]
fn height_is_the_number_of_rows_not_the_width() {
    let mut state = State::new();
    state.set_grid_size(7, 4);
    assert_eq!(state.get_grid_width(), 7);
    assert_eq!(state.get_grid_height(), 4);
}

#[test]
fn shape_holds_after_every_resize() {
    let mut state = State::new();
    let sizes = [(3, 2), (5, 5), (1, 4), (0, 3), (4, 0), (2, 2), (2, 2), (6, 1), (0, 0), (3, 3)];
    for (width, height) in sizes {
        state.set_grid_size(width, height);
        assert_shape(&state, width, height);
    }
}

#[test]
fn shrink_then_grow_keeps_what_stayed_and_whitens_the_rest() {
    let mut state = State::new();
    state.set_grid_size(3, 3);
    let red = Color::new(200, 0, 0);
    let blue = Color::new(0, 0, 200);
    assert!(state.set_pixel(Pixel { x: 0, y: 0, color: red }));
    assert!(state.set_pixel(Pixel { x: 2, y: 2, color: blue }));
    state.set_grid_size(2, 2);
    assert_eq!(cells(&state), vec![vec![red, white()], vec![white(), white()]]);
    state.set_grid_size(3, 3);
    assert_eq!(
        cells(&state),
        vec![vec![red, white(), white()], vec![white(); 3], vec![white(); 3]]
    );
}

#[test]
fn width_and_height_change_alone() {
    let mut state = State::new();
    state.set_grid_size(2, 2);
    let c = Color::new(1, 2, 3);
    assert!(state.set_pixel(Pixel { x: 1, y: 1, color: c }));
    state.set_grid_width(4);
    assert_shape(&state, 4, 2);
    assert_eq!(cells(&state)[1], vec![white(), c, white(), white()]);
    state.set_grid_height(1);
    assert_shape(&state, 4, 1);
    state.set_grid_height(3);
    assert_shape(&state, 4, 3);
    assert_eq!(cells(&state), vec![vec![white(); 4]; 3]);
    state.set_grid_width(1);
    assert_shape(&state, 1, 3);
}

#[test]
fn width_is_remembered_while_there_is_no_row() {
    let mut state = State::new();
    state.set_grid_size(3, 0);
    assert_shape(&state, 3, 0);
    state.set_grid_height(2);
    assert_shape(&state, 3, 2);
}

#[test]
fn delta_log_keeps_order_and_duplicates() {
    let mut state = State::new();
    let a = Pixel { x: 0, y: 0, color: Color::new(1, 1, 1) };
    let b = Pixel { x: 0, y: 0, color: Color::new(2, 2, 2) };
    state.add_pixel_to_delta(a);
    state.add_pixel_to_delta(b);
    state.add_pixel_to_delta(a);
    assert_eq!(state.delta().delta, vec![a, b, a]);
}

#[test]
fn take_and_clear_hands_out_the_log() {
    let mut state = State::new();
    let a = Pixel { x: 0, y: 0, color: Color::new(1, 1, 1) };
    let b = Pixel { x: 1, y: 0, color: Color::new(2, 2, 2) };
    state.add_pixel_to_delta(a);
    state.add_pixel_to_delta(b);
    assert_eq!(state.take_and_clear_delta(), vec![a, b]);
    assert!(state.delta().delta.is_empty());
    assert_eq!(state.take_and_clear_delta(), vec![]);
}

#[test]
fn delta_frame_is_encoded_on_demand() {
    let mut state = State::new();
    state.set_grid_size(2, 2);
    assert_eq!(state.set_new_encoded_grid_data(), Ok(()));
    let a = Pixel { x: 1, y: 1, color: Color::new(9, 9, 9) };
    state.add_pixel_to_delta(a);
    // Logging alone leaves the cached frame as the checkpoint made it.
    assert_eq!(
        decode_delta_frame(&state.get_encoded_delta_data_cloned()),
        Ok(DeltaGrid { delta: vec![] })
    );
    assert_eq!(state.set_new_encoded_delta_data(), Ok(()));
    assert_eq!(
        decode_delta_frame(&state.get_encoded_delta_data_cloned()),
        Ok(DeltaGrid { delta: vec![a] })
    );
    assert_eq!(state.delta().delta, vec![a]);
}

#[test]
fn checkpoint_twice_gives_the_same_frames() {
    let mut state = State::new();
    state.set_grid_size(4, 3);
    assert!(state.set_pixel(Pixel { x: 3, y: 2, color: Color::new(5, 6, 7) }));
    state.add_pixel_to_delta(Pixel { x: 3, y: 2, color: Color::new(5, 6, 7) });
    assert_eq!(state.set_new_encoded_grid_data(), Ok(()));
    let grid_frame = state.get_encoded_grid_data_cloned();
    let delta_frame = state.get_encoded_delta_data_cloned();
    assert_eq!(state.set_new_encoded_grid_data(), Ok(()));
    assert_eq!(state.get_encoded_grid_data_cloned(), grid_frame);
    assert_eq!(state.get_encoded_delta_data_cloned(), delta_frame);
    assert_eq!(decode_delta_frame(&delta_frame), Ok(DeltaGrid { delta: vec![] }));
    assert_eq!(delta_frame, vec![1, 0, 0, 0, 3, 0, 0, 0, 4, 0, 0, 0, 0, 0, 0, 0]);
}

#[test]
fn checkpoint_of_the_empty_canvas() {
    let mut state = State::new();
    assert_eq!(state.set_new_encoded_grid_data(), Ok(()));
    assert_eq!(
        state.get_encoded_grid_data_cloned(),
        vec![1, 0, 0, 0, 1, 0, 0, 0, 4, 0, 0, 0, 0, 0, 0, 0]
    );
}
