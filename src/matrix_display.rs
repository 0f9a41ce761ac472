use vstd::prelude::*;

verus! {

/// Registers of the MAX7219 LED matrix controller.
#[derive(Debug, Clone, Copy, PartialEq, Eq, Structural)]
pub enum Command {
    Noop,
    Digit0,
    Digit1,
    Digit2,
    Digit3,
    Digit4,
    Digit5,
    Digit6,
    Digit7,
    DecodeMode,
    Intensity,
    ScanLimit,
    Power,
    DisplayTest,
}

/// Values of the decode-mode register.
#[derive(Debug, Clone, Copy, PartialEq, Eq, Structural)]
pub enum DecodeMode {
    NoDecode,
    CodeBDigit0,
    CodeBDigits3_0,
    CodeBDigits7_0,
}

/// Register address of a command, as the controller's datasheet numbers it.
pub open spec fn command_code(c: Command) -> u8 {
    match c {
        Command::Noop => 0x00,
        Command::Digit0 => 0x01,
        Command::Digit1 => 0x02,
        Command::Digit2 => 0x03,
        Command::Digit3 => 0x04,
        Command::Digit4 => 0x05,
        Command::Digit5 => 0x06,
        Command::Digit6 => 0x07,
        Command::Digit7 => 0x08,
        Command::DecodeMode => 0x09,
        Command::Intensity => 0x0A,
        Command::ScanLimit => 0x0B,
        Command::Power => 0x0C,
        Command::DisplayTest => 0x0F,
    }
}

/// Register value of a decode mode.
pub open spec fn decode_code(m: DecodeMode) -> u8 {
    match m {
        DecodeMode::NoDecode => 0x00,
        DecodeMode::CodeBDigit0 => 0x01,
        DecodeMode::CodeBDigits3_0 => 0x0F,
        DecodeMode::CodeBDigits7_0 => 0xFF,
    }
}

/// The 16-bit word sent for one register write: address in the high byte,
/// value in the low byte.
pub open spec fn frame(header: u8, data: u8) -> u16 {
    (header * 256 + data) as u16
}

/// Bit `k` (0 is the least significant) of `value`.
pub open spec fn bit_of(value: u16, k: int) -> bool {
    (value as int / vstd::arithmetic::power2::pow2(k as nat) as int) % 2 == 1
}

/// The row images after a write to register `header`: registers 1 to 8 hold
/// rows 0 to 7, the others hold no pixels.
pub open spec fn rows_after(rows: Seq<u8>, header: u8, data: u8) -> Seq<u8> {
    if 0 < header < 9 {
        rows.update(header - 1, data)
    } else {
        rows
    }
}

/// Frames that blank every row, first row first.
pub open spec fn clear_frames() -> Seq<u16> {
    Seq::new(8, |k: int| frame((k + 1) as u8, 0))
}

/// Frames that set every row to `state`, from register 8 down to 1.
pub open spec fn flash_frames(state: u8) -> Seq<u16> {
    Seq::new(8, |k: int| frame((8 - k) as u8, state))
}

/// Frames that bring the controller to a known, blank, powered-down state.
pub open spec fn init_frames() -> Seq<u16> {
    seq![frame(0x0F, 0), frame(0x0B, 0x07), frame(0x09, 0x00)] + clear_frames() + seq![
        frame(0x0C, 0x00),
    ]
}

impl Command {
    pub fn code(&self) -> (r: u8)
        ensures
            r == command_code(*self),
    {
        match self {
            Command::Noop => 0x00,
            Command::Digit0 => 0x01,
            Command::Digit1 => 0x02,
            Command::Digit2 => 0x03,
            Command::Digit3 => 0x04,
            Command::Digit4 => 0x05,
            Command::Digit5 => 0x06,
            Command::Digit6 => 0x07,
            Command::Digit7 => 0x08,
            Command::DecodeMode => 0x09,
            Command::Intensity => 0x0A,
            Command::ScanLimit => 0x0B,
            Command::Power => 0x0C,
            Command::DisplayTest => 0x0F,
        }
    }
}

impl DecodeMode {
    pub fn code(&self) -> (r: u8)
        ensures
            r == decode_code(*self),
    {
        match self {
            DecodeMode::NoDecode => 0x00,
            DecodeMode::CodeBDigit0 => 0x01,
            DecodeMode::CodeBDigits3_0 => 0x0F,
            DecodeMode::CodeBDigits7_0 => 0xFF,
        }
    }
}

/// Model of a MAX7219 driving an 8x8 matrix: the image of each row as last
/// written, and the register writes that still have to be clocked out to the
/// chip, oldest first.
#[derive(Debug)]
pub struct MAX7219 {
    pub buffer: [u8; 8],
    pub pending: Vec<u16>,
}

impl MAX7219 {
    /// A driver for a freshly powered chip, with the start-up sequence queued.
    pub fn new() -> (r: Self)
        ensures
            r.buffer@ == Seq::new(8, |k: int| 0u8),
            r.pending@ == init_frames(),
    {
        let mut max7219 = MAX7219 { buffer: [0;8], pending: Vec::new() };
        max7219.init();
        proof {
            assert(max7219.pending@ =~= init_frames());
            assert(max7219.buffer@ =~= Seq::new(8, |k: int| 0u8));
        }
        max7219
    }

    /// Leaves test mode, scans all eight rows, turns decoding off, blanks the
    /// rows and powers the display down.
    pub fn init(&mut self)
        ensures
            final(self).buffer@ == Seq::new(8, |k: int| 0u8),
            final(self).pending@ == old(self).pending@ + init_frames(),
    {
        self.write_command(Command::DisplayTest);
        self.write_data(Command::ScanLimit, 0x07);
        self.set_decode_mode(DecodeMode::NoDecode);
        self.clear_display();
        self.power_off();
        assert(final(self).buffer@ =~= Seq::new(8, |k: int| 0u8));
        assert(self.pending@ =~= old(self).pending@ + init_frames());
    }

    pub fn set_decode_mode(&mut self, mode: DecodeMode)
        ensures
            final(self).buffer@ == old(self).buffer@,
            final(self).pending@ == old(self).pending@.push(frame(0x09, decode_code(mode))),
    {
        self.write_data(Command::DecodeMode, mode.code());
    }

    pub fn power_on(&mut self)
        ensures
            final(self).buffer@ == old(self).buffer@,
            final(self).pending@ == old(self).pending@.push(frame(0x0C, 0x01)),
    {
        self.write_data(Command::Power, 0x01);
    }

    pub fn power_off(&mut self)
        ensures
            final(self).buffer@ == old(self).buffer@,
            final(self).pending@ == old(self).pending@.push(frame(0x0C, 0x00)),
    {
        self.write_data(Command::Power, 0x00);
    }

    /// Writes zero to the register of `command`.
    pub fn write_command(&mut self, command: Command)
        ensures
            final(self).buffer@ == rows_after(old(self).buffer@, command_code(command), 0),
            final(self).pending@ == old(self).pending@.push(frame(command_code(command), 0)),
    {
        self.write_data(command, 0x00);
    }

    pub fn write_data(&mut self, command: Command, data: u8)
        ensures
            final(self).buffer@ == rows_after(old(self).buffer@, command_code(command), data),
            final(self).pending@ == old(self).pending@.push(frame(command_code(command), data)),
    {
        self.write_raw(command.code(), data);
    }

    /// Lights (`state`) or darkens the pixel in column `x`, row `y`; both are
    /// taken modulo 8. Column `x` is held by register `8 - x`.
    pub fn write_pos(&mut self, x: u8, y: u8, state: bool)
        ensures
            ({
                let xr = (x % 8) as int;
                let bit = (1u8 << (y % 8)) as u8;
                let row = old(self).buffer@[7 - xr];
                let new_row = if state {
                    row | bit
                } else {
                    row & !bit
                };
                &&& final(self).buffer@ == old(self).buffer@.update(7 - xr, new_row)
                &&& final(self).pending@ == old(self).pending@.push(frame((8 - xr) as u8, new_row))
            }),
    {
        let xm = x & 0x07;
        let ym = y & 0x07;
        proof {
            lemma_and7_is_mod8(x);
            lemma_and7_is_mod8(y);
        }
        let row = self.buffer[7 - xm as usize];
        let row = if state {
            row | (1 << ym)
        } else {
            row & !(1 << ym)
        };
        self.write_row(xm, row);
    }

    /// Sets the whole of column `x` (taken modulo 8) to the bit pattern `row`.
    pub fn write_row(&mut self, x: u8, row: u8)
        ensures
            final(self).buffer@ == old(self).buffer@.update(7 - (x % 8) as int, row),
            final(self).pending@ == old(self).pending@.push(frame((8 - x % 8) as u8, row)),
    {
        let xm = x & 0x07;
        proof {
            lemma_and7_is_mod8(x);
        }
        self.write_raw(8 - xm, row);
    }

    /// Queues the word for register `header` and value `data`; a write to a
    /// row register also updates that row's image.
    pub fn write_raw(&mut self, header: u8, data: u8)
        ensures
            final(self).buffer@ == rows_after(old(self).buffer@, header, data),
            final(self).pending@ == old(self).pending@.push(frame(header, data)),
    {
        if 0 < header && header < 9 {
            self.buffer[header as usize - 1] = data;
        }
        let word = (data as u16) | ((header as u16) << 8);
        proof {
            let h = header as u16;
            let d = data as u16;
            assert(d | (h << 8u16) == h * 256 + d) by (bit_vector)
                requires
                    h < 256,
                    d < 256,
            ;
        }
        self.pending.push(word);
        assert(self.buffer@ =~= rows_after(old(self).buffer@, header, data));
    }

    pub fn set_intensity(&mut self, intensity: u8)
        ensures
            final(self).buffer@ == old(self).buffer@,
            final(self).pending@ == old(self).pending@.push(frame(0x0A, intensity)),
    {
        self.write_data(Command::Intensity, intensity);
    }

    /// The bits of `value` in the order they are clocked out: most significant
    /// first.
    pub fn shift_out(value: u16) -> (r: Vec<bool>)
        ensures
            r@.len() == 16,
            forall|i: int| 0 <= i < 16 ==> #[trigger] r@[i] == bit_of(value, 15 - i),
    {
        let mut bits: Vec<bool> = Vec::new();
        let mut i: u16 = 0;
        while i < 16
            invariant
                i <= 16,
                bits@.len() == i,
                forall|k: int| 0 <= k < i ==> #[trigger] bits@[k] == bit_of(value, 15 - k),
            decreases 16 - i,
        {
            let bit = value & (1 << (15 - i)) > 0;
            proof {
                lemma_mask_is_bit(value, (15 - i) as u16);
            }
            bits.push(bit);
            i = i + 1;
        }
        bits
    }

    /// Hands over the queued words, oldest first, and empties the queue.
    pub fn take_pending(&mut self) -> (r: Vec<u16>)
        ensures
            r@ == old(self).pending@,
            final(self).pending@ == Seq::<u16>::empty(),
            final(self).buffer@ == old(self).buffer@,
    {
        let mut taken: Vec<u16> = Vec::new();
        std::mem::swap(&mut taken, &mut self.pending);
        taken
    }

    /// Blanks every row.
    pub fn clear_display(&mut self)
        ensures
            final(self).buffer@ == Seq::new(8, |k: int| 0u8),
            final(self).pending@ == old(self).pending@ + clear_frames(),
    {
        let mut i: u8 = 1;
        while i < 9
            invariant
                1 <= i <= 9,
                self.buffer@.len() == 8,
                forall|k: int| 0 <= k < i - 1 ==> #[trigger] self.buffer@[k] == 0u8,
                self.pending@ == old(self).pending@ + clear_frames().take(i - 1),
            decreases 9 - i,
        {
            self.write_raw(i, 0x00);
            assert(clear_frames().take(i as int) =~= clear_frames().take(i - 1).push(frame(i, 0)));
            i = i + 1;
        }
        assert(clear_frames().take(8) =~= clear_frames());
        assert(self.buffer@ =~= Seq::new(8, |k: int| 0u8));
    }

    /// Lights (`is_on`) or darkens the first row's lowest pixel.
    pub fn test(&mut self, is_on: bool)
        ensures
            final(self).buffer@ == old(self).buffer@.update(0, if is_on { 1u8 } else { 0u8 }),
            final(self).pending@ == old(self).pending@.push(
                frame(0x01, if is_on { 1u8 } else { 0u8 }),
            ),
    {
        if is_on {
            self.write_raw(0x01, 0x01);
        } else {
            self.write_raw(0x01, 0x00);
        }
    }

    /// Lights every pixel (`on`) or darkens them all.
    pub fn flash(&mut self, on: bool)
        ensures
            final(self).buffer@ == Seq::new(8, |k: int| if on { 0xFFu8 } else { 0u8 }),
            final(self).pending@ == old(self).pending@ + flash_frames(if on { 0xFFu8 } else { 0u8 }),
    {
        let state: u8 = if on {
            0xFF
        } else {
            0x00
        };
        let mut i: u8 = 0;
        while i < 8
            invariant
                i <= 8,
                self.buffer@.len() == 8,
                state == if on { 0xFFu8 } else { 0u8 },
                forall|k: int| 8 - i <= k < 8 ==> #[trigger] self.buffer@[k] == state,
                self.pending@ == old(self).pending@ + flash_frames(state).take(i as int),
            decreases 8 - i,
        {
            self.write_row(i, state);
            assert(flash_frames(state).take(i + 1) =~= flash_frames(state).take(i as int).push(
                frame((8 - i) as u8, state),
            ));
            i = i + 1;
        }
        assert(flash_frames(state).take(8) =~= flash_frames(state));
        assert(self.buffer@ =~= Seq::new(8, |k: int| state));
    }
}

proof fn lemma_and7_is_mod8(x: u8)
    ensures
        x & 0x07u8 == x % 8,
{
    assert(x & 0x07u8 == x % 8) by (bit_vector);
}

proof fn lemma_mask_is_bit(value: u16, k: u16)
    requires
        k < 16,
    ensures
        (value & (1u16 << k) > 0) == bit_of(value, k as int),
{
    assert((value & (1u16 << k) > 0) == ((value >> k) & 1u16 == 1u16)) by (bit_vector)
        requires
            k < 16,
    ;
    vstd::bits::lemma_u16_shr_is_div(value, k);
    vstd::bits::lemma_u16_pow2_no_overflow(k as nat);
    assert((value >> k) & 1u16 == (value >> k) % 2) by (bit_vector);
}

} // verus!
