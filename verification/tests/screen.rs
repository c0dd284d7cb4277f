use chip8::display::Display;
use chip8::keypad::Keypad;
use chip8::timers::Timers;

fn lit_pixels(display: &Display) -> Vec<(usize, usize)> {
    let mut lit: Vec<(usize, usize)> = Vec::new();
    let mut y: usize = 0;
    while y < 32 {
        let mut x: usize = 0;
        while x < 64 {
            if display.pixel(x, y) {
                lit.push((x, y));
            }
            x += 1;
        }
        y += 1;
    }
    lit
}

#[test]
fn new_display_is_dark() {
    let display: Display = Display::new();
    assert_eq!(lit_pixels(&display), vec![]);
}

#[test]
fn draw_sets_pixels_most_significant_bit_leftmost() {
    let mut display: Display = Display::new();
    let collision: bool = display.draw(3, 2, &[0b1010_0001]);
    assert!(!collision);
    assert_eq!(lit_pixels(&display), vec![(3, 2), (5, 2), (10, 2)]);
}

#[test]
fn draw_puts_rows_below_each_other() {
    let mut display: Display = Display::new();
    display.draw(0, 0, &[0x80, 0x40, 0x20]);
    assert_eq!(lit_pixels(&display), vec![(0, 0), (1, 1), (2, 2)]);
}

#[test]
fn draw_wraps_around_the_right_edge() {
    let mut display: Display = Display::new();
    display.draw(60, 0, &[0xFF]);
    assert_eq!(
        lit_pixels(&display),
        vec![(0, 0), (1, 0), (2, 0), (3, 0), (60, 0), (61, 0), (62, 0), (63, 0)]
    );
}

#[test]
fn draw_wraps_around_the_bottom_edge() {
    let mut display: Display = Display::new();
    display.draw(0, 30, &[0x80, 0x80, 0x80, 0x80]);
    assert_eq!(lit_pixels(&display), vec![(0, 0), (0, 1), (0, 30), (0, 31)]);
}

#[test]
fn draw_takes_the_start_position_modulo_the_display_size() {
    let mut a: Display = Display::new();
    let mut b: Display = Display::new();
    a.draw(64 + 7, 32 + 5, &[0xF0, 0x0F]);
    b.draw(7, 5, &[0xF0, 0x0F]);
    assert_eq!(lit_pixels(&a), lit_pixels(&b));
    let mut c: Display = Display::new();
    c.draw(255, 255, &[0xC0]);
    assert_eq!(lit_pixels(&c), vec![(0, 31), (63, 31)]);
}

#[test]
fn draw_reports_a_collision_only_when_a_lit_pixel_goes_dark() {
    let mut display: Display = Display::new();
    assert!(!display.draw(0, 0, &[0xF0]));
    assert!(!display.draw(4, 0, &[0xF0]));
    assert!(display.draw(7, 0, &[0x80]));
    assert_eq!(
        lit_pixels(&display),
        vec![(0, 0), (1, 0), (2, 0), (3, 0), (4, 0), (5, 0), (6, 0)]
    );
    assert!(!display.draw(7, 0, &[0x80]));
}

#[test]
fn drawing_a_sprite_twice_restores_the_display() {
    let mut display: Display = Display::new();
    display.draw(10, 10, &[0xF0, 0x90, 0x90, 0x90, 0xF0]);
    let before: Vec<(usize, usize)> = lit_pixels(&display);
    let sprite: [u8; 6] = [0xFF, 0x81, 0x3C, 0x00, 0x55, 0xAA];
    let first: bool = display.draw(61, 29, &sprite);
    assert!(!first);
    assert_ne!(lit_pixels(&display), before);
    let second: bool = display.draw(61, 29, &sprite);
    assert!(second);
    assert_eq!(lit_pixels(&display), before);
    display.draw(9, 9, &sprite);
    assert!(display.draw(9, 9, &sprite));
    assert_eq!(lit_pixels(&display), before);
}

#[test]
fn drawing_an_empty_sprite_changes_nothing() {
    let mut display: Display = Display::new();
    display.draw(1, 1, &[0xFF]);
    let before: Vec<(usize, usize)> = lit_pixels(&display);
    assert!(!display.draw(1, 1, &[]));
    assert!(!display.draw(1, 1, &[0x00, 0x00]));
    assert_eq!(lit_pixels(&display), before);
}

#[test]
fn draw_accepts_a_sprite_as_tall_as_the_display() {
    let mut display: Display = Display::new();
    let sprite: [u8; 32] = [0x80; 32];
    assert!(!display.draw(5, 7, &sprite));
    let lit: Vec<(usize, usize)> = lit_pixels(&display);
    assert_eq!(lit.len(), 32);
    let mut y: usize = 0;
    while y < 32 {
        assert!(display.pixel(5, y));
        y += 1;
    }
}

#[test]
fn clear_turns_every_pixel_off() {
    let mut display: Display = Display::new();
    display.draw(0, 0, &[0xFF, 0xFF, 0xFF]);
    display.draw(59, 20, &[0xFF, 0xFF, 0xFF]);
    assert_eq!(lit_pixels(&display).len(), 48);
    display.clear();
    assert_eq!(lit_pixels(&display), vec![]);
}

#[test]
fn keypad_reports_fresh_presses_only() {
    let mut pad: Keypad = Keypad::new();
    assert!(!pad.is_pressed(3));
    assert!(pad.set_key_state(3, true));
    assert!(pad.is_pressed(3));
    assert!(!pad.set_key_state(3, true));
    assert!(!pad.set_key_state(3, false));
    assert!(!pad.is_pressed(3));
    assert!(!pad.set_key_state(3, false));
    assert!(pad.set_key_state(3, true));
    assert!(pad.set_key_state(15, true));
    assert!(!pad.is_pressed(0));
    pad.reset();
    assert!(!pad.is_pressed(3));
    assert!(!pad.is_pressed(15));
}

#[test]
fn timers_count_down_to_zero_and_stay_there() {
    let mut timers: Timers = Timers { delay: 10, sound: 0 };
    let mut tick: u8 = 1;
    while tick <= 10 {
        timers.tick();
        assert_eq!(timers.delay, 10 - tick);
        assert_eq!(timers.sound, 0);
        tick += 1;
    }
    assert_eq!(timers, Timers { delay: 0, sound: 0 });
    timers.tick();
    timers.tick();
    assert_eq!(timers, Timers { delay: 0, sound: 0 });
}

#[test]
fn timers_run_independently() {
    let mut timers: Timers = Timers { delay: 1, sound: 255 };
    assert!(timers.sound_active());
    timers.tick();
    assert_eq!(timers, Timers { delay: 0, sound: 254 });
    timers.tick();
    assert_eq!(timers, Timers { delay: 0, sound: 253 });
    timers.reset();
    assert_eq!(timers, Timers::new());
    assert!(!timers.sound_active());
}
