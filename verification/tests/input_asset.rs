use rulf_3d::asset::ArrayOrder;
use rulf_3d::asset::TextureLayoutError;
use rulf_3d::asset::TextureType;
use rulf_3d::asset::grid_layer_offset;
use rulf_3d::asset::texture_grid_extent;
use rulf_3d::geometry::Vec2;
use rulf_3d::input::Action;
use rulf_3d::input::InputState;
use rulf_3d::input::KEY_A;
use rulf_3d::input::KEY_D;
use rulf_3d::input::KEY_S;
use rulf_3d::input::KEY_TAB;
use rulf_3d::input::KEY_W;
use rulf_3d::input::create_test_user_input;

const FP: i64 = 65536;
const DIAG: i64 = 46341;

#[test]
fn default_bindings_respond() {
    let mut input = InputState::default();
    assert!(!input.is_action_pressed(Action::MoveForward));
    input.set_key_state(KEY_W, true);
    assert!(input.is_action_pressed(Action::MoveForward));
    assert!(!input.is_action_pressed(Action::MoveBackward));
    input.set_key_state(KEY_W, false);
    assert!(!input.is_action_pressed(Action::MoveForward));
}

// The just-pressed edge fires once per key event.
#[test]
fn just_pressed_fires_once() {
    let mut input = InputState::default();
    input.set_key_state(KEY_TAB, true);
    assert!(input.is_action_just_pressed(Action::ToggleMinimap));
    assert!(!input.is_action_just_pressed(Action::ToggleMinimap));
    // Still held, just no longer "just".
    assert!(input.is_action_pressed(Action::ToggleMinimap));
    input.set_key_state(KEY_TAB, true);
    assert!(input.is_action_just_pressed(Action::ToggleMinimap));
}

#[test]
fn direction_vector_single_axis_and_diagonal() {
    let mut input = InputState::default();
    assert_eq!(input.get_dir_input_vector(), Vec2::new(0, 0));
    input.set_key_state(KEY_W, true);
    assert_eq!(input.get_dir_input_vector(), Vec2::new(0, FP));
    input.set_key_state(KEY_D, true);
    assert_eq!(input.get_dir_input_vector(), Vec2::new(DIAG, DIAG));
    // Opposite keys cancel.
    input.set_key_state(KEY_S, true);
    assert_eq!(input.get_dir_input_vector(), Vec2::new(FP, 0));
    input.set_key_state(KEY_D, false);
    input.set_key_state(KEY_A, true);
    assert_eq!(input.get_dir_input_vector(), Vec2::new(-FP, 0));
}

#[test]
fn extra_binding_works() {
    let mut input = InputState::default();
    input.bind_action(Action::MoveForward, 1000);
    input.set_key_state(1000, true);
    assert!(input.is_action_pressed(Action::MoveForward));
}

#[test]
fn mouse_relative_accumulates_and_drains() {
    let mut input = InputState::default();
    input.add_mouse_x_relative(3 * FP);
    input.add_mouse_x_relative(-FP);
    assert_eq!(input.take_mouse_x_relative(), 2 * FP);
    assert_eq!(input.take_mouse_x_relative(), 0);
    input.set_mouse_left_pressed(true);
    input.set_mouse_right_pressed(true);
}

#[test]
fn user_input_direction() {
    let mut input = create_test_user_input();
    assert_eq!(input.get_dir_input_vector(), Vec2::new(0, 0));
    input.keyboard_input(KEY_W, true);
    input.keyboard_input(KEY_A, true);
    assert_eq!(input.get_dir_input_vector(), Vec2::new(-DIAG, DIAG));
    input.keyboard_input(KEY_A, false);
    assert_eq!(input.get_dir_input_vector(), Vec2::new(0, FP));
}

#[test]
fn user_input_mouse_drain() {
    let mut input = create_test_user_input();
    input.mouse_move_input(Vec2::new(10, 20), Vec2::new(7, 9));
    assert_eq!(input.take_mouse_relative_x(), 7);
    assert_eq!(input.take_mouse_relative_x(), 0);
}

// Atlas byte offsets: 16x16 cells, five columns, row-major layer 7 sits in
// the second row, third column: (16 * 2 + 16*5*16 * 1) * 4.
#[test]
fn grid_offsets_row_and_column() {
    assert_eq!(grid_layer_offset(&ArrayOrder::Row, 16, 16, 5, 7), (16 * 2 + 1280) * 4);
    assert_eq!(grid_layer_offset(&ArrayOrder::Row, 16, 16, 5, 0), 0);
    assert_eq!(
        grid_layer_offset(&ArrayOrder::_Column, 16, 16, 5, 7),
        (1280 * 2 + 16 * 1) * 4
    );
}

#[test]
fn texture_extents() {
    assert_eq!(
        texture_grid_extent(80, 80, &TextureType::Grid { order: ArrayOrder::Row, x: 5, y: 5 }),
        Ok((16, 16, 25))
    );
    assert_eq!(
        texture_grid_extent(80, 32, &TextureType::Grid { order: ArrayOrder::Row, x: 5, y: 2 }),
        Ok((16, 16, 10))
    );
    assert_eq!(
        texture_grid_extent(80, 80, &TextureType::Grid { order: ArrayOrder::Row, x: 0, y: 5 }),
        Err(TextureLayoutError::InvalidGridLength)
    );
    assert_eq!(texture_grid_extent(80, 80, &TextureType::_Full), Ok((80, 80, 1)));
    assert_eq!(
        texture_grid_extent(
            80,
            80,
            &TextureType::_Partial { x: 0, y: 10, width: 10, height: 10 }
        ),
        Err(TextureLayoutError::InvalidPosition)
    );
    assert_eq!(
        texture_grid_extent(
            80,
            80,
            &TextureType::_Partial { x: 10, y: 10, width: 70, height: 10 }
        ),
        Err(TextureLayoutError::InvalidSize)
    );
    assert_eq!(
        texture_grid_extent(
            80,
            80,
            &TextureType::_Partial { x: 10, y: 10, width: 20, height: 20 }
        ),
        Ok((20, 20, 1))
    );
    assert_eq!(
        texture_grid_extent(
            80,
            80,
            &TextureType::_PaddingGrid {
                order: ArrayOrder::Row,
                x: 5,
                y: 5,
                left: 1,
                right: 1,
                top: 2,
                bottom: 2
            }
        ),
        Ok((14, 12, 25))
    );
}
