use crate::matrix_display::{frame, MAX7219};
use vstd::prelude::*;

verus! {

/// Column patterns spelling "WIN", left to right.
pub const WIN: [u8; 24] = [
    0b11111111, 0b00000010, 0b00000100, 0b00001000, 0b00001000, 0b00000100, 0b00000010, 0b11111111,
    0b00000000, 0b00000000, 0b00100010, 0b10111110, 0b10111110, 0b00000010, 0b00000000, 0b00000000,
    0b00111110, 0b00111110, 0b00100000, 0b00100000, 0b00100000, 0b00111110, 0b00011110, 0b00000000,
];

/// Column patterns spelling "LOSE", left to right.
pub const LOSE: [u8; 32] = [
    0b11111110, 0b11111110, 0b00000010, 0b00000010, 0b00000010, 0b00000010, 0b00000010, 0b00000000,
    0b00011100, 0b00111110, 0b00100010, 0b00100010, 0b00100010, 0b00111110, 0b00011100, 0b00000000,
    0b00010010, 0b00111010, 0b00101010, 0b00101010, 0b00101010, 0b00101110, 0b00100100, 0b00000000,
    0b00011100, 0b00111110, 0b00101010, 0b00101010, 0b00101010, 0b00111010, 0b00011000, 0b00000000,
];

/// Shows the eight columns of `glyphs` that begin at `start`: column `j` of
/// the matrix gets `glyphs[start + j]`. Stepping `start` scrolls the text.
pub fn show_window(display: &mut MAX7219, glyphs: &[u8], start: usize)
    requires
        start + 8 <= glyphs@.len(),
    ensures
        final(display).buffer@ == Seq::new(8, |k: int| glyphs@[start + 7 - k]),
        final(display).pending@ == old(display).pending@ + Seq::new(
            8,
            |j: int| frame((8 - j) as u8, glyphs@[start + j]),
        ),
{
    let ghost expected = Seq::new(8, |j: int| frame((8 - j) as u8, glyphs@[start + j]));
    let len = glyphs.len();
    let mut j: u8 = 0;
    while j < 8
        invariant
            j <= 8,
            len == glyphs@.len(),
            expected == Seq::new(8, |i: int| frame((8 - i) as u8, glyphs@[start + i])),
            start + 8 <= glyphs@.len(),
            display.buffer@.len() == 8,
            forall|k: int| 8 - j <= k < 8 ==> #[trigger] display.buffer@[k] == glyphs@[start + 7 - k],
            display.pending@ == old(display).pending@ + expected.take(j as int),
        decreases 8 - j,
    {
        display.write_row(j, glyphs[start + j as usize]);
        assert(expected.take(j + 1) =~= expected.take(j as int).push(expected[j as int]));
        j = j + 1;
    }
    assert(expected.take(8) =~= expected);
    assert(display.buffer@ =~= Seq::new(8, |k: int| glyphs@[start + 7 - k]));
}

} // verus!
