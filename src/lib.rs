//! Gameplay engine of a Snake game on a small wrap-around LED grid.
//!
//! The engine is a fixed-capacity ring buffer holding the snake's body, a
//! toroidal coordinate model, a movement and collision state machine and a game
//! loop that places apples with a seeded pseudo-random generator. Hardware access
//! (joystick sampling, pin toggling, delays) stays outside: the library takes and
//! returns plain values, and models the LED controller as the register writes it
//! still has to receive.
pub mod analog_stick;
pub mod game;
pub mod matrix_display;
pub mod rand;
pub mod spelling;
