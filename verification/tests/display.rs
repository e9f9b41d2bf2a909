use chirp::display::{bit_at, Display, HIGH_HEIGHT, HIGH_WIDTH, LOW_HEIGHT, LOW_WIDTH};
use chirp::keypad::Keypad;

fn lit_pixels(display: &Display) -> Vec<(usize, usize)> {
    let mut lit = Vec::new();
    for y in 0..display.height() {
        for x in 0..display.width() {
            if display.pixel(x, y) {
                lit.push((x, y));
            }
        }
    }
    lit
}

#[test]
fn a_new_display_is_dark_and_low() {
    let display = Display::new();
    assert!(!display.is_high_res());
    assert_eq!((display.width(), display.height()), (LOW_WIDTH, LOW_HEIGHT));
    assert_eq!((display.width(), display.height()), (64, 32));
    assert!(lit_pixels(&display).is_empty());
    assert!(lit_pixels(&Display::default()).is_empty());
}

#[test]
fn high_resolution_is_twice_as_wide_and_high() {
    let mut display = Display::new();
    display.set_high_res(true);
    assert!(display.is_high_res());
    assert_eq!((display.width(), display.height()), (HIGH_WIDTH, HIGH_HEIGHT));
    assert_eq!((display.width(), display.height()), (128, 64));
}

#[test]
fn set_pixel_flips_and_reports() {
    let mut display = Display::new();
    assert!(!display.set_pixel(3, 4));
    assert!(display.pixel(3, 4));
    assert_eq!(lit_pixels(&display), vec![(3, 4)]);
    assert!(display.set_pixel(3, 4));
    assert!(!display.pixel(3, 4));
    assert!(lit_pixels(&display).is_empty());
}

#[test]
fn coordinates_wrap_at_the_edges() {
    let mut display = Display::new();
    assert!(!display.set_pixel(64, 32));
    assert!(display.pixel(0, 0));
    assert!(display.pixel(128, 64));
    assert!(!display.set_pixel(63 + 64, 31 + 32));
    assert_eq!(lit_pixels(&display), vec![(0, 0), (63, 31)]);
    display.set_high_res(true);
    assert!(!display.set_pixel(64, 32));
    assert!(!display.set_pixel(128 + 5, 64 + 6));
    assert_eq!(lit_pixels(&display), vec![(5, 6), (64, 32)]);
}

#[test]
fn clear_turns_everything_dark() {
    let mut display = Display::new();
    display.set_pixel(0, 0);
    display.set_pixel(63, 31);
    display.clear();
    assert!(lit_pixels(&display).is_empty());
    assert!(!display.is_high_res());
}

#[test]
fn a_mode_switch_comes_up_dark() {
    let mut display = Display::new();
    display.set_pixel(10, 10);
    display.set_high_res(true);
    assert!(lit_pixels(&display).is_empty());
    display.set_pixel(100, 50);
    display.set_high_res(false);
    assert!(lit_pixels(&display).is_empty());
    display.set_high_res(true);
    assert!(lit_pixels(&display).is_empty());
}

#[test]
fn scroll_down_moves_rows_and_drops_the_bottom() {
    let mut display = Display::new();
    display.set_pixel(1, 0);
    display.set_pixel(2, 28);
    display.set_pixel(3, 29);
    display.set_pixel(4, 31);
    display.scroll_down(3);
    assert_eq!(lit_pixels(&display), vec![(1, 3), (2, 31)]);
    display.scroll_down(0);
    assert_eq!(lit_pixels(&display), vec![(1, 3), (2, 31)]);
    display.scroll_down(200);
    assert!(lit_pixels(&display).is_empty());
}

#[test]
fn scroll_down_in_high_resolution_uses_all_rows() {
    let mut display = Display::new();
    display.set_high_res(true);
    display.set_pixel(127, 40);
    display.scroll_down(15);
    assert_eq!(lit_pixels(&display), vec![(127, 55)]);
    display.scroll_down(9);
    assert!(lit_pixels(&display).is_empty());
}

#[test]
fn scroll_right_moves_four_columns() {
    let mut display = Display::new();
    display.set_pixel(0, 5);
    display.set_pixel(59, 6);
    display.set_pixel(60, 7);
    display.set_pixel(63, 8);
    display.scroll_right();
    assert_eq!(lit_pixels(&display), vec![(4, 5), (63, 6)]);
}

#[test]
fn scroll_left_moves_four_columns() {
    let mut display = Display::new();
    display.set_pixel(0, 5);
    display.set_pixel(3, 6);
    display.set_pixel(4, 7);
    display.set_pixel(63, 8);
    display.scroll_left();
    assert_eq!(lit_pixels(&display), vec![(0, 7), (59, 8)]);
}

#[test]
fn scroll_left_in_high_resolution_reaches_the_right_edge() {
    let mut display = Display::new();
    display.set_high_res(true);
    display.set_pixel(127, 1);
    display.set_pixel(64, 2);
    display.scroll_left();
    assert_eq!(lit_pixels(&display), vec![(123, 1), (60, 2)]);
    display.scroll_right();
    assert_eq!(lit_pixels(&display), vec![(127, 1), (64, 2)]);
}

#[test]
fn bit_at_counts_columns_from_the_left() {
    assert!(bit_at(0x80, 0));
    assert!(!bit_at(0x80, 1));
    assert!(bit_at(0x01, 7));
    assert!(!bit_at(0x01, 6));
    assert!(bit_at(0b0010_0000, 2));
    for col in 0..8 {
        assert!(bit_at(0xFF, col));
        assert!(!bit_at(0x00, col));
    }
}

#[test]
fn a_sprite_is_drawn_row_by_row() {
    let mut display = Display::new();
    let collision = display.draw_sprite(2, 1, &[0b1010_0000, 0b0000_0001], false);
    assert!(!collision);
    assert_eq!(lit_pixels(&display), vec![(2, 1), (4, 1), (9, 2)]);
}

#[test]
fn drawing_twice_erases_and_collides() {
    let mut display = Display::new();
    let sprite = [0xF0, 0x90, 0x90, 0x90, 0xF0];
    assert!(!display.draw_sprite(10, 10, &sprite, false));
    assert_eq!(lit_pixels(&display).len(), 14);
    assert!(display.draw_sprite(10, 10, &sprite, false));
    assert!(lit_pixels(&display).is_empty());
}

#[test]
fn a_collision_needs_a_lit_pixel_under_a_set_bit() {
    let mut display = Display::new();
    display.set_pixel(0, 0);
    assert!(!display.draw_sprite(0, 0, &[0b0111_1111], false));
    assert_eq!(lit_pixels(&display).len(), 8);
    assert!(display.draw_sprite(0, 0, &[0b1000_0000], false));
    assert_eq!(lit_pixels(&display).len(), 7);
    assert!(!display.draw_sprite(0, 1, &[0xFF], false));
}

#[test]
fn a_sprite_wraps_round_the_edges() {
    let mut display = Display::new();
    assert!(!display.draw_sprite(62, 31, &[0b1111_0000, 0b1000_0000], false));
    assert_eq!(lit_pixels(&display), vec![(62, 0), (0, 31), (1, 31), (62, 31), (63, 31)]);
}

#[test]
fn the_origin_of_a_sprite_wraps_too() {
    let mut display = Display::new();
    assert!(!display.draw_sprite(64 + 3, 32 + 2, &[0x80], false));
    assert_eq!(lit_pixels(&display), vec![(3, 2)]);
    display.clear();
    assert!(!display.draw_sprite(255, 255, &[0xC0], false));
    assert_eq!(lit_pixels(&display), vec![(0, 31), (63, 31)]);
}

#[test]
fn a_wide_sprite_has_sixteen_columns() {
    let mut display = Display::new();
    display.set_high_res(true);
    let mut sprite = [0u8; 32];
    sprite[0] = 0x80;
    sprite[1] = 0x01;
    sprite[30] = 0xFF;
    sprite[31] = 0xFF;
    assert!(!display.draw_sprite(100, 50, &sprite, true));
    let lit = lit_pixels(&display);
    assert_eq!(lit.len(), 18);
    assert!(lit.contains(&(100, 50)));
    assert!(lit.contains(&(115, 50)));
    for col in 0..16 {
        assert!(lit.contains(&(100 + col, 1)));
    }
}

#[test]
fn an_empty_sprite_draws_nothing() {
    let mut display = Display::new();
    display.set_pixel(5, 5);
    assert!(!display.draw_sprite(5, 5, &[], false));
    assert!(!display.draw_sprite(5, 5, &[], true));
    assert_eq!(lit_pixels(&display), vec![(5, 5)]);
}

#[test]
fn a_new_keypad_has_no_key_down() {
    let keypad = Keypad::new();
    for key in 0..=255u8 {
        assert!(!keypad.is_down(key));
    }
    assert!(!Keypad::default().is_down(0));
}

#[test]
fn keys_go_down_and_up() {
    let mut keypad = Keypad::new();
    keypad.press(0x0);
    keypad.press(0xF);
    assert!(keypad.is_down(0x0));
    assert!(keypad.is_down(0xF));
    assert!(!keypad.is_down(0x1));
    keypad.release(0x0);
    assert!(!keypad.is_down(0x0));
    assert!(keypad.is_down(0xF));
    keypad.release(0x7);
    assert!(keypad.is_down(0xF));
}

#[test]
fn there_is_no_key_above_f() {
    let mut keypad = Keypad::new();
    keypad.press(0x10);
    keypad.press(0xFF);
    for key in 0..=255u8 {
        assert!(!keypad.is_down(key));
    }
    keypad.press(0x3);
    keypad.release(0x13);
    assert!(keypad.is_down(0x3));
}
