use snake_game::analog_stick::AnalogReading;
use snake_game::game::direction::Direction;
use snake_game::matrix_display::{Command, DecodeMode, MAX7219};
use snake_game::spelling::{show_window, LOSE, WIN};

#[test]
fn stick_deflection_to_direction() {
    let r = |x: i16, y: i16| AnalogReading { x, y, is_pressed: false }.to_direction();
    assert_eq!(r(300, 0), Some(Direction::Left));
    assert_eq!(r(-300, 0), Some(Direction::Right));
    assert_eq!(r(0, 251), Some(Direction::Up));
    assert_eq!(r(0, -251), Some(Direction::Down));
    assert_eq!(r(250, -250), None);
    assert_eq!(r(400, 400), Some(Direction::Left));
}

#[test]
fn raw_reading_is_centred() {
    let r = AnalogReading::from_raw(1023, 0, true);
    assert_eq!(r, AnalogReading { x: 523, y: -500, is_pressed: true });
    assert_eq!(r.to_direction(), Some(Direction::Left));
    assert_eq!(AnalogReading::from_raw(500, 500, false).to_direction(), None);
}

#[test]
fn start_up_sequence() {
    let mut display = MAX7219::new();
    let frames = display.take_pending();
    assert_eq!(
        frames,
        vec![
            0x0F00, 0x0B07, 0x0900, 0x0100, 0x0200, 0x0300, 0x0400, 0x0500, 0x0600, 0x0700,
            0x0800, 0x0C00
        ]
    );
    assert!(display.take_pending().is_empty());
    assert_eq!(display.buffer, [0; 8]);
}

#[test]
fn register_writes() {
    let mut display = MAX7219::new();
    display.take_pending();
    display.power_on();
    display.set_intensity(1);
    display.set_decode_mode(DecodeMode::CodeBDigits7_0);
    display.write_command(Command::Noop);
    display.test(true);
    assert_eq!(display.take_pending(), vec![0x0C01, 0x0A01, 0x09FF, 0x0000, 0x0101]);
    assert_eq!(display.buffer[0], 1);
    assert_eq!(Command::DisplayTest.code(), 0x0F);
    assert_eq!(DecodeMode::CodeBDigits3_0.code(), 0x0F);
}

#[test]
fn pixels_set_and_clear() {
    let mut display = MAX7219::new();
    display.take_pending();
    display.write_pos(2, 3, true);
    display.write_pos(2, 5, true);
    assert_eq!(display.buffer[5], 0b0010_1000);
    display.write_pos(10, 3, false);
    assert_eq!(display.buffer[5], 0b0010_0000);
    assert_eq!(display.take_pending(), vec![0x0608, 0x0628, 0x0620]);
}

#[test]
fn flash_and_clear() {
    let mut display = MAX7219::new();
    display.take_pending();
    display.flash(true);
    assert_eq!(display.buffer, [0xFF; 8]);
    let frames = display.take_pending();
    assert_eq!(frames.len(), 8);
    assert_eq!(frames[0], 0x08FF);
    assert_eq!(frames[7], 0x01FF);
    display.clear_display();
    assert_eq!(display.buffer, [0; 8]);
    assert_eq!(display.take_pending()[0], 0x0100);
}

#[test]
fn words_go_out_most_significant_bit_first() {
    let bits = MAX7219::shift_out(0x8C01);
    let expected = [
        true, false, false, false, true, true, false, false, false, false, false, false, false,
        false, false, true,
    ];
    assert_eq!(bits, expected.to_vec());
}

#[test]
fn banner_window_scrolls_columns() {
    let mut display = MAX7219::new();
    display.take_pending();
    show_window(&mut display, &LOSE, 0);
    assert_eq!(display.buffer[7], LOSE[0]);
    assert_eq!(display.buffer[0], LOSE[7]);
    let frames = display.take_pending();
    assert_eq!(frames[0], 0x08FE);
    assert_eq!(frames[7], 0x0100);
    show_window(&mut display, &WIN, 16);
    for k in 0..8 {
        assert_eq!(display.buffer[k], WIN[16 + 7 - k]);
    }
}
