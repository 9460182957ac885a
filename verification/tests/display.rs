use rust8::display::{ChipDisplay, DISPLAY_BITS, DISPLAY_HEIGHT, DISPLAY_WIDTH};

#[test]
fn fresh_screen_is_dark() {
    let disp = ChipDisplay::new();

    assert_eq!(disp.pixels().len(), DISPLAY_BITS);
    assert!(disp.pixels().iter().all(|&p| !p));
}

#[test]
fn draw_lights_pixels() {
    let mut disp = ChipDisplay::new();

    let collision = disp.draw_sprite((8, 4), &[0b1010_0000]);

    assert!(!collision);
    assert!(disp.pixel(4 * DISPLAY_WIDTH + 8));
    assert!(!disp.pixel(4 * DISPLAY_WIDTH + 9));
    assert!(disp.pixel(4 * DISPLAY_WIDTH + 10));
    assert!(!disp.pixel(4 * DISPLAY_WIDTH + 11));
}

#[test]
fn draw_twice_collides_and_erases() {
    let mut disp = ChipDisplay::new();
    let sprite = [0xFF, 0xFF, 0xFF];

    let first = disp.draw_sprite((10, 5), &sprite);
    let second = disp.draw_sprite((10, 5), &sprite);

    assert!(!first);
    assert!(second);
    assert!(disp.pixels().iter().all(|&p| !p));
}

#[test]
fn draw_wraps_right_edge() {
    let mut disp = ChipDisplay::new();

    let collision = disp.draw_sprite(((DISPLAY_WIDTH - 1) as u8, 3), &[0xFF]);

    assert!(!collision);
    assert!(disp.pixel(3 * DISPLAY_WIDTH + DISPLAY_WIDTH - 1));
    for col in 0..7 {
        assert!(disp.pixel(3 * DISPLAY_WIDTH + col));
    }
    assert!(!disp.pixel(3 * DISPLAY_WIDTH + 7));
}

#[test]
fn draw_wraps_bottom_edge() {
    let mut disp = ChipDisplay::new();

    let collision = disp.draw_sprite((0, (DISPLAY_HEIGHT - 1) as u8), &[0x80, 0x80]);

    assert!(!collision);
    assert!(disp.pixel((DISPLAY_HEIGHT - 1) * DISPLAY_WIDTH));
    assert!(disp.pixel(0));
}

#[test]
fn display_clear_darkens_everything() {
    let mut disp = ChipDisplay::new();
    disp.draw_sprite((0, 0), &[0xFF, 0xFF]);

    disp.clear();

    assert!(disp.pixels().iter().all(|&p| !p));
}

#[test]
fn overlap_collision_only_on_lit_pixels() {
    let mut disp = ChipDisplay::new();

    assert!(!disp.draw_sprite((0, 0), &[0b1000_0000]));
    // A source bit over a dark pixel does not collide, even next to lit ones.
    assert!(!disp.draw_sprite((1, 0), &[0b1000_0000]));
    // A source bit over the lit pixel does.
    assert!(disp.draw_sprite((0, 0), &[0b1000_0000]));
}
