use chip8::display::bit_at;
use chip8::display::font_sprites;
use chip8::display::pixel_buffer;
use chip8::display::DisplayBuffer;
use chip8::display::DisplayMessage;
use chip8::display::DISPLAY_BUFFER_SIZE;
use chip8::display::DISPLAY_HEIGHT;
use chip8::display::DISPLAY_WIDTH;
use chip8::display::FONT_SPRITES_ADDRESS;

fn lit(d: &DisplayBuffer) -> Vec<(usize, usize)> {
    let mut on = Vec::new();
    for y in 0..DISPLAY_HEIGHT {
        for x in 0..DISPLAY_WIDTH {
            if d.pixel(x, y) {
                on.push((x, y));
            }
        }
    }
    on
}

#[test]
fn test_bit_at_works() {
    let a = 0b1001;
    assert!(bit_at(a, 0));
    assert!(!bit_at(a, 1));
    assert!(!bit_at(a, 2));
    assert!(bit_at(a, 3));
}

#[test]
fn no_bit_is_set_past_the_seventh() {
    assert!(bit_at(0x80, 7));
    assert!(!bit_at(0xFF, 8));
    assert!(!bit_at(0xFF, 255));
}

#[test]
fn the_display_is_64_by_32() {
    assert_eq!(DISPLAY_WIDTH, 64);
    assert_eq!(DISPLAY_HEIGHT, 32);
    assert_eq!(DISPLAY_BUFFER_SIZE, 2048);
}

#[test]
fn a_blank_buffer_has_2048_pixels_all_off() {
    let buffer = pixel_buffer();
    assert_eq!(buffer.len(), 2048);
    for i in 0..2048 {
        assert_eq!(buffer.get(i), Some(false));
    }
    assert_eq!(buffer.get(2048), None);
    let copy = buffer.clone();
    assert_eq!(copy.len(), 2048);
    assert_eq!(copy.get(2047), Some(false));
}

#[test]
fn a_new_display_is_blank() {
    assert!(lit(&DisplayBuffer::new()).is_empty());
    assert!(lit(&DisplayBuffer::default()).is_empty());
}

#[test]
fn clear_turns_every_pixel_off() {
    let mut d = DisplayBuffer::new();
    d.draw_sprite_wrapped((0, 0), &[0xFF; 15]);
    d.draw_sprite_wrapped((60, 28), &[0xFF; 15]);
    assert!(!lit(&d).is_empty());
    d.clear();
    assert!(lit(&d).is_empty());
}

#[test]
fn a_sprite_row_is_drawn_from_its_highest_bit() {
    let mut d = DisplayBuffer::new();
    let collision = d.draw_sprite_clipped((3, 2), &[0b1010_0001]);
    assert!(!collision);
    assert_eq!(lit(&d), vec![(3, 2), (5, 2), (10, 2)]);
}

#[test]
fn the_origin_is_taken_modulo_the_size() {
    let mut d = DisplayBuffer::new();
    d.draw_sprite_clipped((64 + 3, 32 + 2), &[0x80]);
    d.draw_sprite_wrapped((255, 255), &[0x80]);
    assert_eq!(lit(&d), vec![(3, 2), (63, 31)]);
}

#[test]
fn drawing_twice_restores_the_display_and_collides() {
    let mut d = DisplayBuffer::new();
    d.draw_sprite_wrapped((10, 10), &[0x3C, 0x42]);
    let before = lit(&d);
    let sprite = [0xF0, 0x90, 0x90, 0x90, 0xF0];
    let first = d.draw_sprite_wrapped((62, 30), &sprite);
    assert!(!first);
    assert_ne!(lit(&d), before);
    let second = d.draw_sprite_wrapped((62, 30), &sprite);
    assert!(second);
    assert_eq!(lit(&d), before);

    let first = d.draw_sprite_clipped((62, 30), &sprite);
    assert!(!first);
    assert_eq!(lit(&d).len(), before.len() + 3);
    let second = d.draw_sprite_clipped((62, 30), &sprite);
    assert!(second);
    assert_eq!(lit(&d), before);
}

#[test]
fn collision_is_a_lit_pixel_going_off() {
    let mut d = DisplayBuffer::new();
    assert!(!d.draw_sprite_clipped((0, 0), &[0b1100_0000]));
    // no lit pixel under a set bit: no collision
    assert!(!d.draw_sprite_clipped((2, 0), &[0b1100_0000]));
    assert_eq!(lit(&d), vec![(0, 0), (1, 0), (2, 0), (3, 0)]);
    // one lit pixel under a set bit
    assert!(d.draw_sprite_clipped((3, 0), &[0b1100_0000]));
    assert_eq!(lit(&d), vec![(0, 0), (1, 0), (2, 0), (4, 0)]);
    // an empty row collides with nothing
    assert!(!d.draw_sprite_clipped((0, 0), &[0x00]));
}

#[test]
fn clipped_drawing_leaves_out_what_is_past_the_right_edge() {
    let mut d = DisplayBuffer::new();
    d.draw_sprite_clipped((60, 0), &[0xFF]);
    assert_eq!(lit(&d), vec![(60, 0), (61, 0), (62, 0), (63, 0)]);
}

#[test]
fn wrapped_drawing_brings_it_back_on_the_left() {
    let mut d = DisplayBuffer::new();
    d.draw_sprite_wrapped((60, 0), &[0xFF]);
    assert_eq!(
        lit(&d),
        vec![(0, 0), (1, 0), (2, 0), (3, 0), (60, 0), (61, 0), (62, 0), (63, 0)]
    );
}

#[test]
fn rows_past_the_bottom_are_left_out_or_come_back_at_the_top() {
    let mut d = DisplayBuffer::new();
    d.draw_sprite_clipped((0, 31), &[0x80, 0x40]);
    assert_eq!(lit(&d), vec![(0, 31)]);
    let mut w = DisplayBuffer::new();
    w.draw_sprite_wrapped((0, 31), &[0x80, 0x40]);
    assert_eq!(lit(&w), vec![(1, 0), (0, 31)]);
}

#[test]
fn the_corner_clips_or_wraps_both_ways() {
    let mut d = DisplayBuffer::new();
    d.draw_sprite_clipped((63, 31), &[0xC0, 0xC0]);
    assert_eq!(lit(&d), vec![(63, 31)]);
    let mut w = DisplayBuffer::new();
    w.draw_sprite_wrapped((63, 31), &[0xC0, 0xC0]);
    assert_eq!(lit(&w), vec![(0, 0), (63, 0), (0, 31), (63, 31)]);
}

#[test]
fn draw_sprite_takes_the_mode_as_an_argument() {
    let mut a = DisplayBuffer::new();
    let mut b = DisplayBuffer::new();
    a.draw_sprite((61, 5), &[0xFF, 0x81], true);
    b.draw_sprite_wrapped((61, 5), &[0xFF, 0x81]);
    assert_eq!(lit(&a), lit(&b));
    let mut c = DisplayBuffer::new();
    let mut e = DisplayBuffer::new();
    c.draw_sprite((61, 5), &[0xFF, 0x81], false);
    e.draw_sprite_clipped((61, 5), &[0xFF, 0x81]);
    assert_eq!(lit(&c), lit(&e));
    assert_ne!(lit(&a), lit(&c));
}

#[test]
fn an_empty_sprite_draws_nothing() {
    let mut d = DisplayBuffer::new();
    assert!(!d.draw_sprite_clipped((5, 5), &[]));
    assert!(lit(&d).is_empty());
}

#[test]
fn no_pixel_is_lit_outside_the_display() {
    let mut d = DisplayBuffer::new();
    d.draw_sprite_wrapped((0, 0), &[0xFF; 15]);
    assert!(d.pixel(0, 0));
    assert!(!d.pixel(64, 0));
    assert!(!d.pixel(0, 32));
}

#[test]
fn output_is_a_copy_of_the_pixels() {
    let mut d = DisplayBuffer::new();
    d.draw_sprite_clipped((1, 1), &[0x80]);
    let message = d.output();
    d.clear();
    match message {
        DisplayMessage::Update(buffer) => {
            for i in 0..2048 {
                assert_eq!(buffer.get(i), Some(i == 65));
            }
        }
        DisplayMessage::Clear => panic!("a copy of the pixels was asked for"),
    }
}

#[test]
fn the_font_has_sixteen_glyphs_of_five_rows() {
    let font = font_sprites();
    assert_eq!(FONT_SPRITES_ADDRESS, 0);
    assert_eq!(font.len(), 80);
    assert_eq!(&font[0..5], &[0xF0, 0x90, 0x90, 0x90, 0xF0]);
    assert_eq!(&font[5..10], &[0x20, 0x60, 0x20, 0x20, 0x70]);
    assert_eq!(&font[75..80], &[0xF0, 0x80, 0xF0, 0x80, 0x80]);
    for row in font {
        assert_eq!(row & 0x0F, 0);
    }
}
