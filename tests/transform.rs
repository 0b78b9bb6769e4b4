use shev::input::Input;
use shev::transform::{check_contain, fit_input_to_screen, screen_fit, ScreenFit};

fn pointer_at(x: i64, y: i64) -> Input {
    Input {
        mouse_pos: (x, y),
        mouse_wheel: (0, 0),
        mouse_down: [false; 3],
        mouse_pressed: [false; 3],
        mouse_released: [false; 3],
        down_keys: vec![],
        pressed_keys: vec![],
        released_keys: vec![],
    }
}

fn fitted(x: i64, y: i64, screen_width: u32, screen_height: u32) -> (i64, i64) {
    let mut input = pointer_at(x, y);
    fit_input_to_screen(&mut input, 1080, 720, screen_width, screen_height);
    input.mouse_pos
}

#[test]
fn fit_letterboxes_a_wide_screen() {
    // 2160x720: scale 1 (720 / 720), margins of 540 on the left and right.
    let fit = screen_fit(1080, 720, 2160, 720);
    assert_eq!(fit, ScreenFit { scale_num: 720, scale_den: 720, x_offset2: 2160 * 720 - 1080 * 720, y_offset2: 0 });
    assert_eq!(fit.x_offset2 / (2 * fit.scale_den), 540);
}

#[test]
fn fit_letterboxes_a_tall_screen() {
    // 540x720: scale 1/2, margins of 180 above and below.
    let fit = screen_fit(1080, 720, 540, 720);
    assert_eq!(fit.scale_num, 540);
    assert_eq!(fit.scale_den, 1080);
    assert_eq!(fit.x_offset2, 0);
    assert_eq!(fit.y_offset2 / (2 * fit.scale_den), 180);
}

#[test]
fn input_maps_back_to_canvas_coordinates() {
    // Screen 2160x1440 is twice the canvas: the screen point (200, 100) is
    // the canvas point (100, 50), here in tenths.
    assert_eq!(fitted(2000, 1000, 2160, 1440), (1000, 500));
}

#[test]
fn input_round_trips_through_letterbox() {
    // On a 2160x720 screen the canvas point (300, 200) is drawn at (840, 200).
    assert_eq!(fitted(8400, 2000, 2160, 720), (3000, 2000));
    // A point in the left margin lies left of the canvas.
    assert_eq!(fitted(1000, 0, 2160, 720), (-4400, 0));
}

#[test]
fn input_rounds_down_between_tenths() {
    // Scale 2: the screen tenth 3 is canvas tenth 1.5, rounded down; -3 gives -2.
    assert_eq!(fitted(3, -3, 2160, 1440), (1, -2));
}

#[test]
fn check_contain_includes_left_and_top_edges_only() {
    let rect = [10, 20, 5, 5];
    assert!(check_contain(rect, (10, 20)));
    assert!(check_contain(rect, (14, 24)));
    assert!(!check_contain(rect, (15, 20)));
    assert!(!check_contain(rect, (10, 25)));
    assert!(!check_contain(rect, (9, 22)));
}
