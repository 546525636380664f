//! The 64 x 32 monochrome display and its XOR sprite blit.

use bitvec::vec::BitVec;
use vstd::prelude::*;

verus! {

/// The number of pixels in a row.
pub const DISPLAY_WIDTH: usize = 64;

/// The number of rows.
pub const DISPLAY_HEIGHT: usize = 32;

/// The number of pixels.
pub const DISPLAY_BUFFER_SIZE: usize = DISPLAY_WIDTH * DISPLAY_HEIGHT;

/// The display's pixels, row by row, one bit each.
///
/// The bits lie in a `bitvec::vec::BitVec`, into which the verifier does not
/// look. What a buffer holds is known to it as `bits` only, and of `bits`
/// only what the contracts of the five functions below say. Those contracts
/// are not proved: they restate what `bitvec` documents of its methods.
#[verifier::external_body]
pub struct PixelBuffer {
    packed: BitVec,
}

/// The bits that a pixel buffer holds, in order.
pub uninterp spec fn bits(buffer: PixelBuffer) -> Seq<bool>;

impl View for PixelBuffer {
    type V = Seq<bool>;

    open spec fn view(&self) -> Seq<bool> {
        bits(*self)
    }
}

/// Calls `BitVec::repeat`, which makes a bit vector by repeating one bit for
/// the length asked for. Taken on trust: the vector holds `len` bits, each
/// equal to `bit`. Lengths that `bitvec` cannot encode make it panic and are
/// left out.
#[verifier::external_body]
fn bits_repeat(bit: bool, len: usize) -> (buffer: PixelBuffer)
    requires
        len <= 0xFFFF,
    ensures
        bits(buffer) == Seq::new(len as nat, |i: int| bit),
{
    PixelBuffer { packed: BitVec::repeat(bit, len) }
}

/// Calls `BitSlice::get` with one index, which hands out the bit at the
/// index and `None` where the index departs the bounds. Taken on trust: the
/// result is the bit that `bits` has at `index`, or `None` from the length
/// on.
#[verifier::external_body]
fn bits_get(buffer: &PixelBuffer, index: usize) -> (bit: Option<bool>)
    ensures
        bit == if index < bits(*buffer).len() {
            Some(bits(*buffer)[index as int])
        } else {
            None
        },
{
    buffer.packed.get(index).map(|b| *b)
}

/// Calls `BitSlice::set`, which writes a new value into a single bit and
/// panics where the index is out of bounds; such indices are left out. Taken
/// on trust: the bit at `index` is `value` afterwards, every other bit is as
/// it was, and the call does not panic.
#[verifier::external_body]
fn bits_set(buffer: &mut PixelBuffer, index: usize, value: bool)
    requires
        index < bits(*old(buffer)).len(),
    ensures
        bits(*final(buffer)) == bits(*old(buffer)).update(index as int, value),
    no_unwind
{
    buffer.packed.set(index, value)
}

/// Calls `BitVec::clone`. Taken on trust: the copy holds the same bits.
#[verifier::external_body]
fn bits_clone(buffer: &PixelBuffer) -> (copy: PixelBuffer)
    ensures
        bits(copy) == bits(*buffer),
{
    PixelBuffer { packed: buffer.packed.clone() }
}

/// Calls `BitVec::len`. Taken on trust: the result is the number of bits.
#[verifier::external_body]
fn bits_len(buffer: &PixelBuffer) -> (len: usize)
    ensures
        len == bits(*buffer).len(),
{
    buffer.packed.len()
}

impl Clone for PixelBuffer {
    fn clone(&self) -> (copy: PixelBuffer)
        ensures
            copy@ == self@,
    {
        bits_clone(self)
    }
}

impl PixelBuffer {
    /// The number of pixels.
    pub fn len(&self) -> (len: usize)
        ensures
            len == self@.len(),
    {
        bits_len(self)
    }

    /// The pixel at `index`, or `None` past the end.
    pub fn get(&self, index: usize) -> (bit: Option<bool>)
        ensures
            bit == if index < self@.len() {
                Some(self@[index as int])
            } else {
                None
            },
    {
        bits_get(self, index)
    }
}

/// A blank display: 2048 pixels, all off.
pub fn pixel_buffer() -> (buffer: PixelBuffer)
    ensures
        buffer@ == Seq::new(DISPLAY_BUFFER_SIZE as nat, |i: int| false),
{
    bits_repeat(false, DISPLAY_BUFFER_SIZE)
}

/// What the display tells its front-end.
pub enum DisplayMessage {
    /// Every pixel went off.
    Clear,
    /// The pixels are now these.
    Update(PixelBuffer),
}

/// Whether bit `n` of `input` is set, counting from the least significant
/// bit; no bit is set at 8 and beyond.
pub open spec fn bit_set(input: u8, n: u8) -> bool {
    n < 8 && (input & (1u8 << n)) != 0
}

/// Whether bit `n` of `input` is set.
pub fn bit_at(input: u8, n: u8) -> (b: bool)
    ensures
        b == bit_set(input, n),
{
    if n < 8 {
        input & (1u8 << n) != 0
    } else {
        false
    }
}

/// The sprite row that lands on pixel `i` (the pixel in column `i mod 64` of
/// row `i / 64`) when the sprite is drawn from a row origin `y`. Row `r` of
/// the sprite lands on display row `(y + r) mod 32` where `wrap` is set, and
/// on row `y mod 32 + r` otherwise, which may lie past the bottom edge.
#[verifier::opaque]
pub open spec fn sprite_row(y: int, wrap: bool, i: int) -> int {
    if wrap {
        (i / 64 - y % 32) % 32
    } else {
        i / 64 - y % 32
    }
}

/// The sprite column that lands on pixel `i` when the sprite is drawn from a
/// column origin `x`. Bit `b` of a row, counted from the most significant,
/// lands on column `(x + b) mod 64` where `wrap` is set, and on column
/// `x mod 64 + b` otherwise, which may lie past the right edge.
#[verifier::opaque]
pub open spec fn sprite_col(x: int, wrap: bool, i: int) -> int {
    if wrap {
        (i % 64 - x % 64) % 64
    } else {
        i % 64 - x % 64
    }
}

/// Whether a sprite drawn from the origin `(x, y)` has a set bit on pixel `i`,
/// looking only at the part of the sprite that comes before bit `cols` of row
/// `rows`.
pub open spec fn sprite_lights_before(
    x: int,
    y: int,
    sprite: Seq<u8>,
    wrap: bool,
    rows: int,
    cols: int,
    i: int,
) -> bool {
    let row = sprite_row(y, wrap, i);
    let col = sprite_col(x, wrap, i);
    &&& 0 <= row < sprite.len()
    &&& 0 <= col < 8
    &&& (row < rows || (row == rows && col < cols))
    &&& bit_set(sprite[row], (7 - col) as u8)
}

/// Whether a sprite drawn from the origin `(x, y)` has a set bit on pixel `i`.
pub open spec fn sprite_lights(x: int, y: int, sprite: Seq<u8>, wrap: bool, i: int) -> bool {
    sprite_lights_before(x, y, sprite, wrap, sprite.len() as int, 0, i)
}

/// The pixels after a sprite was XORed onto them: a pixel flips exactly where
/// the sprite has a set bit on it.
pub open spec fn blit(pixels: Seq<bool>, x: int, y: int, sprite: Seq<u8>, wrap: bool) -> Seq<bool> {
    Seq::new(
        pixels.len(),
        |i: int| pixels[i] ^ sprite_lights(x, y, sprite, wrap, i),
    )
}

/// Whether drawing the sprite turns a lit pixel off.
pub open spec fn blit_collides(
    pixels: Seq<bool>,
    x: int,
    y: int,
    sprite: Seq<u8>,
    wrap: bool,
) -> bool {
    exists|i: int|
        0 <= i < pixels.len() && #[trigger] pixels[i] && sprite_lights(
            x,
            y,
            sprite,
            wrap, i)
}

/// Drawing the same sprite twice from the same origin restores every pixel.
pub proof fn lemma_blit_twice_restores(
    pixels: Seq<bool>,
    x: int,
    y: int,
    sprite: Seq<u8>,
    wrap: bool,
)
    ensures
        blit(blit(pixels, x, y, sprite, wrap), x, y, sprite, wrap) == pixels,
{
    assert(blit(blit(pixels, x, y, sprite, wrap), x, y, sprite, wrap) =~= pixels);
}

/// The second of two equal draws reports a collision exactly when the sprite
/// has a set bit on a pixel that was off before the first draw; so it does
/// whenever the first draw lit any pixel.
pub proof fn lemma_second_blit_collides(
    pixels: Seq<bool>,
    x: int,
    y: int,
    sprite: Seq<u8>,
    wrap: bool,
)
    ensures
        blit_collides(blit(pixels, x, y, sprite, wrap), x, y, sprite, wrap) <==> exists|i: int|
            0 <= i < pixels.len() && !#[trigger] pixels[i] && sprite_lights(
                x,
                y,
                sprite,
                wrap, i),
{
    let once = blit(pixels, x, y, sprite, wrap);
    if blit_collides(once, x, y, sprite, wrap) {
        let i = choose|i: int|
            0 <= i < once.len() && #[trigger] once[i] && sprite_lights(
                x,
                y,
                sprite,
                wrap, i);
        assert(!pixels[i]);
    }
    if exists|i: int|
        0 <= i < pixels.len() && !#[trigger] pixels[i] && sprite_lights(
            x,
            y,
            sprite,
            wrap, i) {
        let i = choose|i: int|
            0 <= i < pixels.len() && !#[trigger] pixels[i] && sprite_lights(
                x,
                y,
                sprite,
                wrap, i);
        assert(once[i]);
    }
}

/// Sprite row `r` lands on display row `(y0 + r) mod 32` and on no other.
proof fn lemma_target_row(y0: int, r: int, jy: int)
    requires
        0 <= y0 < 32,
        0 <= r < 32,
        0 <= jy < 32,
    ensures
        ((jy - y0) % 32 == r) <==> jy == (y0 + r) % 32,
{
    if y0 + r < 32 {
        assert((y0 + r) % 32 == y0 + r);
    } else {
        assert((y0 + r) % 32 == y0 + r - 32);
    }
    if jy - y0 >= 0 {
        assert((jy - y0) % 32 == jy - y0);
    } else {
        assert((jy - y0) % 32 == jy - y0 + 32);
    }
}

/// With wrapping, sprite column `b` lands on display column `(x0 + b) mod 64`
/// and on no other.
proof fn lemma_target_col(x0: int, b: int, jx: int)
    requires
        0 <= x0 < 64,
        0 <= b < 8,
        0 <= jx < 64,
    ensures
        ((jx - x0) % 64 == b) <==> jx == (x0 + b) % 64,
{
    if x0 + b < 64 {
        assert((x0 + b) % 64 == x0 + b);
    } else {
        assert((x0 + b) % 64 == x0 + b - 64);
    }
    if jx - x0 >= 0 {
        assert((jx - x0) % 64 == jx - x0);
    } else {
        assert((jx - x0) % 64 == jx - x0 + 64);
    }
}

/// Bit `b` of sprite row `r` lands on one pixel only, the one the blit writes.
proof fn lemma_target(x: int, y: int, wrap: bool, r: int, b: int, j: int)
    requires
        0 <= r < 32,
        0 <= b < 8,
        0 <= j < 2048,
        wrap || (x % 64 + b < 64 && y % 32 + r < 32),
    ensures
        (sprite_row(y, wrap, j) == r && sprite_col(x, wrap, j) == b) <==> j == 64 * ((y % 32 + r)
            % 32) + (x % 64 + b) % 64,
{
    reveal(sprite_row);
    reveal(sprite_col);
    let x0 = x % 64;
    let y0 = y % 32;
    let jx = j % 64;
    let jy = j / 64;
    let px = (x0 + b) % 64;
    let py = (y0 + r) % 32;
    assert(j == 64 * jy + jx);
    if wrap {
        lemma_target_row(y0, r, jy);
        lemma_target_col(x0, b, jx);
    } else {
        assert(px == x0 + b);
        assert(py == y0 + r);
    }
    assert((sprite_row(y, wrap, j) == r && sprite_col(x, wrap, j) == b) <==> (jy == py && jx
        == px));
    if j == 64 * py + px {
        vstd::arithmetic::div_mod::lemma_fundamental_div_mod_converse(j, 64, py, px);
    }
}

/// Without wrapping, a bit past the right or the bottom edge lands on no
/// pixel.
proof fn lemma_clipped(x: int, y: int, r: int, b: int, j: int)
    requires
        0 <= r < 32,
        0 <= b < 8,
        0 <= j < 2048,
        x % 64 + b >= 64 || y % 32 + r >= 32,
    ensures
        !(sprite_row(y, false, j) == r && sprite_col(x, false, j) == b),
{
    reveal(sprite_row);
    reveal(sprite_col);
}

/// The display: 2048 pixels, 64 to a row.
pub struct DisplayBuffer {
    pixels: PixelBuffer,
}

impl View for DisplayBuffer {
    type V = Seq<bool>;

    closed spec fn view(&self) -> Seq<bool> {
        self.pixels@
    }
}

impl DisplayBuffer {
    #[verifier::type_invariant]
    spec fn sized(self) -> bool {
        self.pixels@.len() == DISPLAY_BUFFER_SIZE
    }

    /// A display with every pixel off.
    pub fn new() -> (d: DisplayBuffer)
        ensures
            d@ == Seq::new(DISPLAY_BUFFER_SIZE as nat, |i: int| false),
    {
        DisplayBuffer { pixels: pixel_buffer() }
    }

    /// Turns every pixel off.
    pub fn clear(&mut self)
        ensures
            final(self)@ == Seq::new(DISPLAY_BUFFER_SIZE as nat, |i: int| false),
    {
        self.pixels = pixel_buffer();
    }

    /// Whether the pixel in column `x` of row `y` is lit; no pixel is lit
    /// outside the display.
    pub fn pixel(&self, x: usize, y: usize) -> (lit: bool)
        ensures
            self@.len() == DISPLAY_BUFFER_SIZE,
            lit == (x < DISPLAY_WIDTH && y < DISPLAY_HEIGHT && self@[DISPLAY_WIDTH * y + x]),
    {
        proof {
            use_type_invariant(self);
        }
        if x < DISPLAY_WIDTH && y < DISPLAY_HEIGHT {
            match bits_get(&self.pixels, DISPLAY_WIDTH * y + x) {
                Some(b) => b,
                None => false,
            }
        } else {
            false
        }
    }

    /// A copy of the pixels as they are now, as a message for the front-end.
    pub fn output(&self) -> (m: DisplayMessage)
        ensures
            m matches DisplayMessage::Update(buffer) && buffer@ == self@,
    {
        DisplayMessage::Update(bits_clone(&self.pixels))
    }

    /// XORs `sprite` onto the display from the origin `pos` and says whether
    /// that turned a lit pixel off. With `wrap`, what sticks out on the right
    /// or at the bottom comes back in on the left or at the top; without, it
    /// is left out.
    pub fn draw_sprite(&mut self, pos: (u8, u8), sprite: &[u8], wrap: bool) -> (collision: bool)
        requires
            sprite@.len() <= 15,
        ensures
            final(self)@ == blit(old(self)@, pos.0 as int, pos.1 as int, sprite@, wrap),
            collision == blit_collides(old(self)@, pos.0 as int, pos.1 as int, sprite@, wrap),
    {
        proof {
            use_type_invariant(&*self);
        }
        let (x, y) = pos;
        let x0 = x as usize % DISPLAY_WIDTH;
        let y0 = y as usize % DISPLAY_HEIGHT;
        let ghost before = self@;
        let ghost gx = x as int;
        let ghost gy = y as int;
        let ghost rows = sprite@;
        let mut collision = false;
        let mut row: usize = 0;
        while row < sprite.len()
            invariant
                row <= sprite@.len() <= 15,
                rows == sprite@,
                x0 == gx % 64,
                y0 == gy % 32,
                before.len() == DISPLAY_BUFFER_SIZE,
                self.pixels@.len() == DISPLAY_BUFFER_SIZE,
                forall|i: int|
                    0 <= i < DISPLAY_BUFFER_SIZE ==> self.pixels@[i] == (before[i]
                        ^ sprite_lights_before(gx, gy, rows, wrap, row as int, 0, i)),
                collision <==> exists|i: int|
                    0 <= i < DISPLAY_BUFFER_SIZE && #[trigger] before[i] && sprite_lights_before(
                        gx,
                        gy,
                        rows,
                        wrap,
                        row as int,
                        0,
                        i,
                    ),
            decreases sprite@.len() - row,
        {
            let data = sprite[row];
            let line = y0 + row;
            let mut bit: u8 = 0;
            while bit < 8
                invariant
                    row < sprite@.len() <= 15,
                    rows == sprite@,
                    bit <= 8,
                    data == rows[row as int],
                    line == y0 + row,
                    x0 == gx % 64,
                    y0 == gy % 32,
                    before.len() == DISPLAY_BUFFER_SIZE,
                    self.pixels@.len() == DISPLAY_BUFFER_SIZE,
                    forall|i: int|
                        0 <= i < DISPLAY_BUFFER_SIZE ==> self.pixels@[i] == (before[i]
                            ^ sprite_lights_before(gx, gy, rows, wrap, row as int, bit as int, i)),
                    collision <==> exists|i: int|
                        0 <= i < DISPLAY_BUFFER_SIZE && #[trigger] before[i]
                            && sprite_lights_before(gx, gy, rows, wrap, row as int, bit as int, i),
                decreases 8 - bit,
            {
                let column = x0 + bit as usize;
                let ghost was = self.pixels@;
                if wrap || (column < DISPLAY_WIDTH && line < DISPLAY_HEIGHT) {
                    let px = column % DISPLAY_WIDTH;
                    let py = line % DISPLAY_HEIGHT;
                    let i = DISPLAY_WIDTH * py + px;
                    let prev = match bits_get(&self.pixels, i) {
                        Some(b) => b,
                        None => false,
                    };
                    let lit = bit_at(data, 7u8 - bit);
                    let new = prev ^ lit;
                    bits_set(&mut self.pixels, i, new);
                    if prev && !new {
                        collision = true;
                    }
                    proof {
                        let (r, b) = (row as int, bit as int);
                        assert forall|j: int| 0 <= j < DISPLAY_BUFFER_SIZE implies (
                        #[trigger] sprite_lights_before(gx, gy, rows, wrap, r, b + 1, j)) == (if j
                            == i {
                            lit
                        } else {
                            sprite_lights_before(gx, gy, rows, wrap, r, b, j)
                        }) by {
                            lemma_target(gx, gy, wrap, r, b, j);
                        }
                        lemma_target(gx, gy, wrap, r, b, i as int);
                        assert(!sprite_lights_before(gx, gy, rows, wrap, r, b, i as int));
                        assert(prev == was[i as int]);
                        assert(prev == before[i as int]);
                        assert forall|j: int| 0 <= j < DISPLAY_BUFFER_SIZE implies self.pixels@[j]
                            == (before[j] ^ sprite_lights_before(
                            gx,
                            gy,
                            rows,
                            wrap,
                            r,
                            b + 1,
                            j,
                        )) by {
                            if j != i {
                                assert(self.pixels@[j] == was[j]);
                            }
                        }
                    }
                } else {
                    proof {
                        let (r, b) = (row as int, bit as int);
                        assert forall|j: int| 0 <= j < DISPLAY_BUFFER_SIZE implies (
                        #[trigger] sprite_lights_before(gx, gy, rows, wrap, r, b + 1, j))
                            == sprite_lights_before(gx, gy, rows, wrap, r, b, j) by {
                            lemma_clipped(gx, gy, r, b, j);
                        }
                    }
                }
                bit += 1;
            }
            proof {
                let r = row as int;
                assert forall|j: int| 0 <= j < DISPLAY_BUFFER_SIZE implies sprite_lights_before(
                    gx,
                    gy,
                    rows,
                    wrap,
                    r,
                    8,
                    j,
                ) == sprite_lights_before(gx, gy, rows, wrap, r + 1, 0, j) by {}
            }
            row += 1;
        }
        proof {
            assert(self@ =~= blit(before, gx, gy, sprite@, wrap));
        }
        collision
    }

    /// Draws with what sticks out past the right or the bottom edge left out.
    pub fn draw_sprite_clipped(&mut self, pos: (u8, u8), sprite: &[u8]) -> (collision: bool)
        requires
            sprite@.len() <= 15,
        ensures
            final(self)@ == blit(old(self)@, pos.0 as int, pos.1 as int, sprite@, false),
            collision == blit_collides(old(self)@, pos.0 as int, pos.1 as int, sprite@, false),
    {
        self.draw_sprite(pos, sprite, false)
    }

    /// Draws with what sticks out past the right or the bottom edge brought
    /// back in on the left or at the top.
    pub fn draw_sprite_wrapped(&mut self, pos: (u8, u8), sprite: &[u8]) -> (collision: bool)
        requires
            sprite@.len() <= 15,
        ensures
            final(self)@ == blit(old(self)@, pos.0 as int, pos.1 as int, sprite@, true),
            collision == blit_collides(old(self)@, pos.0 as int, pos.1 as int, sprite@, true),
    {
        self.draw_sprite(pos, sprite, true)
    }
}

/// Where the font glyphs lie in memory.
pub const FONT_SPRITES_ADDRESS: u16 = 0;

/// The glyphs of the hexadecimal digits 0 to F: five rows each, the pixels of
/// a row in the high four bits of its byte.
pub const FONT_SPRITES: [u8; 80] = [
    0xF0, 0x90, 0x90, 0x90, 0xF0,
    0x20, 0x60, 0x20, 0x20, 0x70,
    0xF0, 0x10, 0xF0, 0x80, 0xF0,
    0xF0, 0x10, 0xF0, 0x10, 0xF0,
    0x90, 0x90, 0xF0, 0x10, 0x10,
    0xF0, 0x80, 0xF0, 0x10, 0xF0,
    0xF0, 0x80, 0xF0, 0x90, 0xF0,
    0xF0, 0x10, 0x20, 0x40, 0x40,
    0xF0, 0x90, 0xF0, 0x90, 0xF0,
    0xF0, 0x90, 0xF0, 0x10, 0xF0,
    0xF0, 0x90, 0xF0, 0x90, 0x90,
    0xE0, 0x90, 0xE0, 0x90, 0xE0,
    0xF0, 0x80, 0x80, 0x80, 0xF0,
    0xE0, 0x90, 0x90, 0x90, 0xE0,
    0xF0, 0x80, 0xF0, 0x80, 0xF0,
    0xF0, 0x80, 0xF0, 0x80, 0x80,
];

/// The font table as a sequence of bytes.
pub open spec fn font_table() -> Seq<u8> {
    FONT_SPRITES@
}

/// The font table.
pub fn font_sprites() -> (font: &'static [u8])
    ensures
        font@ == font_table(),
        font@.len() == 80,
{
    FONT_SPRITES.as_slice()
}

impl Default for DisplayBuffer {
    fn default() -> (d: DisplayBuffer)
        ensures
            d@ == Seq::new(DISPLAY_BUFFER_SIZE as nat, |i: int| false),
    {
        DisplayBuffer::new()
    }
}

} // verus!
