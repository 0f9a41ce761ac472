use crate::game::direction::Direction;
use vstd::prelude::*;

verus! {

/// Largest value of the 10-bit analog-to-digital converter.
pub const MAX_ADC_READING: u16 = 0b11_1111_1111;

/// Raw reading of the stick at rest.
pub const HALF_MAX_ADC_READING: i16 = 500;

/// Deflection from rest beyond which the stick counts as pushed: half the
/// rest value.
pub const QUARTER_MAX_ADC_READING: i16 = 250;

/// One sample of the joystick: deflection of each axis from rest, and the
/// button.
#[derive(Debug, Default, Clone, Copy, PartialEq, Eq, Structural)]
pub struct AnalogReading {
    pub x: i16,
    pub y: i16,
    pub is_pressed: bool,
}

/// The heading a deflection asks for: the x axis wins over the y axis, and a
/// deflection within a quarter of the range either way asks for nothing.
pub open spec fn direction_of(x: int, y: int) -> Option<Direction> {
    if x > QUARTER_MAX_ADC_READING {
        Some(Direction::Left)
    } else if x < -QUARTER_MAX_ADC_READING {
        Some(Direction::Right)
    } else if y > QUARTER_MAX_ADC_READING {
        Some(Direction::Up)
    } else if y < -QUARTER_MAX_ADC_READING {
        Some(Direction::Down)
    } else {
        None
    }
}

impl AnalogReading {
    /// A reading from the converter's raw values, centred on the rest position.
    pub fn from_raw(x_raw: u16, y_raw: u16, is_pressed: bool) -> (r: Self)
        requires
            x_raw <= MAX_ADC_READING,
            y_raw <= MAX_ADC_READING,
        ensures
            r.x == x_raw - 500,
            r.y == y_raw - 500,
            r.is_pressed == is_pressed,
    {
        let x = x_raw as i16 - HALF_MAX_ADC_READING;
        let y = y_raw as i16 - HALF_MAX_ADC_READING;
        AnalogReading { x, y, is_pressed }
    }

    pub fn to_direction(&self) -> (r: Option<Direction>)
        ensures
            r == direction_of(self.x as int, self.y as int),
    {
        if self.x > QUARTER_MAX_ADC_READING {
            Some(Direction::Left)
        } else if self.x < -QUARTER_MAX_ADC_READING {
            Some(Direction::Right)
        } else if self.y > QUARTER_MAX_ADC_READING {
            Some(Direction::Up)
        } else if self.y < -QUARTER_MAX_ADC_READING {
            Some(Direction::Down)
        } else {
            None
        }
    }
}

} // verus!
