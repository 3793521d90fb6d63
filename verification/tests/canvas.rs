use rusty_painter::canvas::Canvas;
use rusty_painter::raster::Color;

const WHITE: Color = Color { r: 255, g: 255, b: 255 };
const RED: Color = Color { r: 255, g: 0, b: 0 };

#[test]
fn new_canvas_is_white_with_red_brush() {
    let c = Canvas::new(20, 20);
    assert_eq!(c.get_size(), (20, 20));
    assert_eq!(c.get_fg_color(), (255, 0, 0));
    assert_eq!(c.get_bg_color(), (255, 255, 255));
    assert_eq!(c.get_coord(), None);
    for y in 0..20 {
        for x in 0..20 {
            assert_eq!(c.pixel(x, y), WHITE);
        }
    }
}

#[test]
fn push_stamps_a_disc_of_radius_five() {
    let mut c = Canvas::new(20, 20);
    c.instrument_push(10, 10);
    assert_eq!(c.get_coord(), Some((10, 10)));
    // centre and points at squared distance exactly 25 are painted
    assert_eq!(c.pixel(10, 10), RED);
    assert_eq!(c.pixel(13, 14), RED); // 3*3 + 4*4 == 25
    assert_eq!(c.pixel(15, 10), RED); // 5*5 == 25
    // just outside the disc
    assert_eq!(c.pixel(14, 14), WHITE); // 4*4 + 4*4 == 32
    assert_eq!(c.pixel(16, 10), WHITE); // 6*6 == 36
}

#[test]
fn push_uses_the_current_foreground_color() {
    let mut c = Canvas::new(8, 8);
    c.set_fg_color((0, 128, 255));
    c.instrument_push(0, 0);
    assert_eq!(c.pixel(0, 0), Color { r: 0, g: 128, b: 255 });
}

#[test]
fn drag_paints_a_round_capped_line() {
    let mut c = Canvas::new(20, 20);
    c.instrument_push(2, 10);
    c.instrument_drag(17, 10);
    assert_eq!(c.get_coord(), Some((17, 10)));
    // beside the middle of the segment, within the half-width
    assert_eq!(c.pixel(10, 14), RED); // distance 4
    assert_eq!(c.pixel(10, 15), RED); // distance 5
    assert_eq!(c.pixel(10, 16), WHITE); // distance 6
    // round cap past the second endpoint
    assert_eq!(c.pixel(19, 13), RED); // 2*2 + 3*3 == 13
    assert_eq!(c.pixel(19, 15), WHITE); // 2*2 + 5*5 == 29
}

#[test]
fn drag_without_a_position_does_nothing() {
    let mut c = Canvas::new(12, 12);
    c.instrument_drag(5, 5);
    assert_eq!(c.get_coord(), None);
    for y in 0..12 {
        for x in 0..12 {
            assert_eq!(c.pixel(x, y), WHITE);
        }
    }
}

#[test]
fn move_enter_leave_track_the_cursor_only() {
    let mut c = Canvas::new(10, 10);
    c.instrument_enter(1, 2);
    assert_eq!(c.get_coord(), Some((1, 2)));
    c.instrument_move(3, 4);
    assert_eq!(c.get_coord(), Some((3, 4)));
    c.instrument_released();
    assert_eq!(c.get_coord(), Some((3, 4)));
    c.instrument_leave();
    assert_eq!(c.get_coord(), None);
    for y in 0..10 {
        for x in 0..10 {
            assert_eq!(c.pixel(x, y), WHITE);
        }
    }
}

#[test]
fn clean_fills_with_the_current_background() {
    let mut c = Canvas::new(6, 6);
    c.instrument_push(3, 3);
    c.set_bg_color((10, 20, 30));
    c.clean_canvas();
    for y in 0..6 {
        for x in 0..6 {
            assert_eq!(c.pixel(x, y), Color { r: 10, g: 20, b: 30 });
        }
    }
    // the foreground colour is untouched
    assert_eq!(c.get_fg_color(), (255, 0, 0));
}

#[test]
fn color_setters_round_trip() {
    let mut c = Canvas::new(4, 4);
    c.set_fg_color((1, 2, 3));
    c.set_bg_color((4, 5, 6));
    assert_eq!(c.get_fg_color(), (1, 2, 3));
    assert_eq!(c.get_bg_color(), (4, 5, 6));
}

#[test]
fn grow_keeps_the_picture_and_fills_with_background() {
    let mut c = Canvas::new(8, 8);
    c.instrument_push(0, 0); // red disc in the top-left corner
    c.set_bg_color((0, 0, 255));
    c.set_image_size((10, 10));
    assert_eq!(c.get_size(), (10, 10));
    // old content kept up to the old extents
    assert_eq!(c.pixel(0, 0), RED);
    assert_eq!(c.pixel(3, 4), RED); // on the disc boundary
    assert_eq!(c.pixel(7, 7), WHITE); // old pixel outside the disc
    // fresh area takes the background in force at the resize
    assert_eq!(c.pixel(9, 9), Color { r: 0, g: 0, b: 255 });
    assert_eq!(c.pixel(9, 0), Color { r: 0, g: 0, b: 255 });
    assert_eq!(c.pixel(0, 9), Color { r: 0, g: 0, b: 255 });
}

#[test]
fn shrink_keeps_the_top_left_region() {
    let mut c = Canvas::new(8, 8);
    c.instrument_push(7, 7); // disc in the bottom-right corner
    c.set_image_size((3, 3));
    assert_eq!(c.get_size(), (3, 3));
    for y in 0..3 {
        for x in 0..3 {
            assert_eq!(c.pixel(x, y), WHITE);
        }
    }
}

#[test]
fn resize_keeps_cursor_and_colors() {
    let mut c = Canvas::new(8, 8);
    c.instrument_move(2, 2);
    c.set_fg_color((9, 9, 9));
    c.set_image_size((5, 5));
    assert_eq!(c.get_coord(), Some((2, 2)));
    assert_eq!(c.get_fg_color(), (9, 9, 9));
}

#[test]
fn rgb_data_is_packed_row_major() {
    let mut c = Canvas::new(20, 1);
    c.instrument_push(0, 0); // pixels with x <= 5 turn red
    let data = c.to_rgb_data();
    assert_eq!(data.len(), 3 * 20);
    assert_eq!(&data[0..3], &[255, 0, 0]);
    assert_eq!(&data[3 * 5..3 * 5 + 3], &[255, 0, 0]);
    assert_eq!(&data[3 * 6..3 * 6 + 3], &[255, 255, 255]);
    assert_eq!(&data[3 * 19..], &[255, 255, 255]);
}

#[test]
fn rgb_data_of_a_fresh_canvas_is_all_white() {
    let c = Canvas::new(2, 2);
    let data = c.to_rgb_data();
    assert_eq!(data, vec![255u8; 12]);
}
