//! Fixed-size 1-bit-per-pixel bitmap.
//!
//! Pixel `(x, y)` lives at bit `7 - ((x + y*COLS) % 8)` of byte
//! `(x + y*COLS) / 8`, so each row occupies a contiguous, 8-bit-aligned
//! byte range that can be handed to a bulk transfer without copying.

use vstd::prelude::*;

verus! {

/// Number of rows of the panel.
pub const ROWS: usize = 256;

/// Number of pixel columns of the panel.
pub const COLS: usize = 320;

/// Bytes per packed row: eight pixels per byte.
pub const ROW_BYTES: usize = COLS / 8;

/// Total bytes of one packed frame.
pub const FRAME_BYTES: usize = ROWS * ROW_BYTES;

/// True iff bit `k` (counting from the least significant end) of `b` is set.
pub open spec fn bit_of(b: u8, k: u8) -> bool {
    (b >> k) & 1u8 == 1u8
}

/// Linear index of pixel `(x, y)` in scan order.
pub open spec fn pixel_index(x: int, y: int) -> int {
    x + y * (COLS as int)
}

/// Byte that holds pixel `(x, y)`.
pub open spec fn pixel_byte(x: int, y: int) -> int {
    pixel_index(x, y) / 8
}

/// Bit position (within its byte) of pixel `(x, y)`; the most significant
/// bit is transmitted first, so column order runs from bit 7 down to bit 0.
pub open spec fn pixel_bit(x: int, y: int) -> u8 {
    (7 - pixel_index(x, y) % 8) as u8
}

/// True iff pixel `(x, y)` is lit in the packed byte sequence `data`.
pub open spec fn pixel_lit(data: Seq<u8>, x: int, y: int) -> bool {
    bit_of(data[pixel_byte(x, y)], pixel_bit(x, y))
}

/// A packed frame: one bit per pixel, row-major, eight pixels per byte.
pub struct Framebuffer {
    data: Vec<u8>,
}

impl View for Framebuffer {
    type V = Seq<u8>;

    closed spec fn view(&self) -> Seq<u8> {
        self.data@
    }
}

impl Framebuffer {
    /// A framebuffer always holds exactly one frame's worth of bytes.
    pub open spec fn wf(&self) -> bool {
        self@.len() == FRAME_BYTES
    }

    /// A fresh, all-dark frame.
    pub fn new() -> (fb: Framebuffer)
        ensures
            fb.wf(),
            forall|k: int| 0 <= k < FRAME_BYTES ==> fb@[k] == 0u8,
            forall|i: int, j: int|
                0 <= i < COLS && 0 <= j < ROWS ==> !#[trigger] pixel_lit(fb@, i, j),
    {
        let fb = Framebuffer { data: vec![0u8; FRAME_BYTES] };
        proof {
            lemma_uniform_frame(fb@, false);
        }
        fb
    }

    /// Sets or clears one pixel. The caller guarantees the coordinates are
    /// in range; an out-of-range pixel is a logic fault of the caller, not
    /// a runtime condition this driver recovers from.
    pub fn set_pixel(&mut self, x: usize, y: usize, value: bool)
        requires
            old(self).wf(),
            x < COLS,
            y < ROWS,
        ensures
            final(self).wf(),
            forall|i: int, j: int|
                0 <= i < COLS && 0 <= j < ROWS ==> #[trigger] pixel_lit(final(self)@, i, j)
                    == if i == x && j == y { value } else { pixel_lit(old(self)@, i, j) },
            forall|k: int|
                0 <= k < FRAME_BYTES && k != pixel_byte(x as int, y as int)
                    ==> final(self)@[k] == old(self)@[k],
    {
        let index: usize = x + y * COLS;
        let byte_i: usize = index / 8;
        let k: u8 = 7 - ((index % 8) as u8);
        let mask: u8 = 1u8 << k;
        let b: u8 = self.data[byte_i];
        let nb: u8 = if value { b | mask } else { b & !mask };
        self.data.set(byte_i, nb);
        proof {
            assert(index == pixel_index(x as int, y as int));
            assert(byte_i as int == pixel_byte(x as int, y as int));
            assert(k == pixel_bit(x as int, y as int));
            assert(self.data@ == old(self)@.update(pixel_byte(x as int, y as int), nb));
            lemma_pixel_update(old(self)@, self@, x as int, y as int, value);
        }
    }

    /// Sets every pixel of the frame to `value` in one pass.
    pub fn clear(&mut self, value: bool)
        requires
            old(self).wf(),
        ensures
            final(self).wf(),
            forall|k: int|
                0 <= k < FRAME_BYTES
                    ==> final(self)@[k] == (if value { 0xFFu8 } else { 0u8 }),
            forall|i: int, j: int|
                0 <= i < COLS && 0 <= j < ROWS ==> #[trigger] pixel_lit(final(self)@, i, j) == value,
    {
        let fill: u8 = if value { 0xFF } else { 0x00 };
        let mut k: usize = 0;
        while k < FRAME_BYTES
            invariant
                k <= FRAME_BYTES,
                self@.len() == FRAME_BYTES,
                fill == (if value { 0xFFu8 } else { 0u8 }),
                forall|m: int| 0 <= m < k ==> self@[m] == fill,
            decreases FRAME_BYTES - k,
        {
            self.data.set(k, fill);
            k += 1;
        }
        proof {
            lemma_uniform_frame(self@, value);
        }
    }

    /// The exact byte range of row `y`, usable directly as the source of one
    /// bulk transfer; no copy is made.
    pub fn row_slice(&self, y: usize) -> (r: &[u8])
        requires
            self.wf(),
            y < ROWS,
        ensures
            r@.len() == ROW_BYTES,
            r@ == self@.subrange(
                y as int * ROW_BYTES as int,
                (y as int + 1) * ROW_BYTES as int,
            ),
            forall|x: int|
                0 <= x < COLS ==> #[trigger] bit_of(r@[x / 8], (7 - x % 8) as u8)
                    == pixel_lit(self@, x, y as int),
    {
        let r = vstd::slice::slice_subrange(self.data.as_slice(), y * ROW_BYTES, (y + 1) * ROW_BYTES);
        proof {
            assert forall|x: int| 0 <= x < COLS implies
                #[trigger] bit_of(r@[x / 8], (7 - x % 8) as u8) == pixel_lit(self@, x, y as int) by {
                lemma_row_decompose(x, y as int);
                assert(r@[x / 8] == self@[y as int * ROW_BYTES as int + x / 8]);
            }
        }
        r
    }
}

/// In a uniform frame — every byte all-zero or all-one — every pixel reads
/// as the fill value.
pub proof fn lemma_uniform_frame(data: Seq<u8>, value: bool)
    requires
        data.len() == FRAME_BYTES,
        forall|k: int| 0 <= k < FRAME_BYTES ==> data[k] == (if value { 0xFFu8 } else { 0u8 }),
    ensures
        forall|i: int, j: int|
            0 <= i < COLS && 0 <= j < ROWS ==> #[trigger] pixel_lit(data, i, j) == value,
{
    assert forall|i: int, j: int| 0 <= i < COLS && 0 <= j < ROWS implies
        #[trigger] pixel_lit(data, i, j) == value by {
        lemma_pixel_in_frame(i, j);
        lemma_uniform_byte(data[pixel_byte(i, j)], pixel_bit(i, j), value);
    }
}

/// Bit addressing round-trip: a pixel reads as lit exactly when the bit at
/// its computed position is set, whether the byte is inspected directly in
/// the frame or through its row's byte range.
pub proof fn lemma_bit_round_trip(data: Seq<u8>, x: int, y: int)
    requires
        data.len() == FRAME_BYTES,
        0 <= x < COLS,
        0 <= y < ROWS,
    ensures
        pixel_lit(data, x, y) == bit_of(
            data[y * (ROW_BYTES as int) + x / 8],
            (7 - x % 8) as u8,
        ),
        data.subrange(y * (ROW_BYTES as int), (y + 1) * (ROW_BYTES as int))[x / 8]
            == data[y * (ROW_BYTES as int) + x / 8],
{
    lemma_row_decompose(x, y);
    assert(0 <= x / 8 < ROW_BYTES as int);
    assert((y + 1) * (ROW_BYTES as int) == y * (ROW_BYTES as int) + ROW_BYTES as int);
    let row = data.subrange(y * (ROW_BYTES as int), (y + 1) * (ROW_BYTES as int));
    assert(row.len() == ROW_BYTES as int);
    assert(row[x / 8] == data[y * (ROW_BYTES as int) + x / 8]);
}

/// The byte and bit of an in-range pixel lie inside the frame.
proof fn lemma_pixel_in_frame(x: int, y: int)
    requires
        0 <= x < COLS,
        0 <= y < ROWS,
    ensures
        0 <= pixel_byte(x, y) < FRAME_BYTES,
        pixel_bit(x, y) < 8,
{
}

/// The byte of pixel `(x, y)` sits at offset `x / 8` inside row `y`'s byte
/// range, and its bit position depends on `x` alone.
proof fn lemma_row_decompose(x: int, y: int)
    requires
        0 <= x < COLS,
        0 <= y < ROWS,
    ensures
        pixel_byte(x, y) == y * (ROW_BYTES as int) + x / 8,
        pixel_bit(x, y) == (7 - x % 8) as u8,
{
    vstd::arithmetic::div_mod::lemma_hoist_over_denominator(x, y * (ROW_BYTES as int), 8);
    assert(y * (ROW_BYTES as int) * 8 == y * (COLS as int)) by (nonlinear_arith);
    vstd::arithmetic::div_mod::lemma_mod_multiples_vanish(y * (ROW_BYTES as int), x, 8);
    assert(8 * (y * (ROW_BYTES as int)) == y * (COLS as int)) by (nonlinear_arith);
}

/// In a uniform byte every bit agrees with the fill value.
proof fn lemma_uniform_byte(b: u8, k: u8, value: bool)
    requires
        k < 8,
        b == (if value { 0xFFu8 } else { 0u8 }),
    ensures
        bit_of(b, k) == value,
{
    assert(((0xFFu8 >> k) & 1u8 == 1u8)) by (bit_vector)
        requires k < 8;
    assert(((0u8 >> k) & 1u8 != 1u8)) by (bit_vector)
        requires k < 8;
}

/// Setting bit `k` leaves every other bit of the byte unchanged.
proof fn lemma_bit_or(b: u8, k: u8, j: u8)
    requires
        k < 8,
        j < 8,
    ensures
        bit_of(b | (1u8 << k), k),
        j != k ==> bit_of(b | (1u8 << k), j) == bit_of(b, j),
{
    assert(((b | (1u8 << k)) >> k) & 1u8 == 1u8) by (bit_vector)
        requires k < 8;
    assert(j != k ==> ((((b | (1u8 << k)) >> j) & 1u8 == 1u8) <==> ((b >> j) & 1u8 == 1u8)))
        by (bit_vector)
        requires k < 8 && j < 8;
}

/// Clearing bit `k` leaves every other bit of the byte unchanged.
proof fn lemma_bit_and_not(b: u8, k: u8, j: u8)
    requires
        k < 8,
        j < 8,
    ensures
        !bit_of(b & !(1u8 << k), k),
        j != k ==> bit_of(b & !(1u8 << k), j) == bit_of(b, j),
{
    assert(((b & !(1u8 << k)) >> k) & 1u8 != 1u8) by (bit_vector)
        requires k < 8;
    assert(j != k ==> ((((b & !(1u8 << k)) >> j) & 1u8 == 1u8) <==> ((b >> j) & 1u8 == 1u8)))
        by (bit_vector)
        requires k < 8 && j < 8;
}

/// Distinct in-range pixels have distinct linear indices.
proof fn lemma_index_injective(x1: int, y1: int, x2: int, y2: int)
    requires
        0 <= x1 < COLS,
        0 <= y1 < ROWS,
        0 <= x2 < COLS,
        0 <= y2 < ROWS,
        !(x1 == x2 && y1 == y2),
    ensures
        pixel_index(x1, y1) != pixel_index(x2, y2),
{
}

/// Updating the byte of pixel `(x, y)` with its bit set or cleared changes
/// exactly that pixel and no other.
proof fn lemma_pixel_update(data: Seq<u8>, updated: Seq<u8>, x: int, y: int, value: bool)
    requires
        data.len() == FRAME_BYTES,
        0 <= x < COLS,
        0 <= y < ROWS,
        updated == data.update(
            pixel_byte(x, y),
            if value {
                data[pixel_byte(x, y)] | (1u8 << pixel_bit(x, y))
            } else {
                data[pixel_byte(x, y)] & !(1u8 << pixel_bit(x, y))
            },
        ),
    ensures
        forall|i: int, j: int|
            0 <= i < COLS && 0 <= j < ROWS ==> #[trigger] pixel_lit(updated, i, j)
                == if i == x && j == y { value } else { pixel_lit(data, i, j) },
{
    let bi = pixel_byte(x, y);
    let k = pixel_bit(x, y);
    assert(0 <= bi < FRAME_BYTES);
    assert forall|i: int, j: int| 0 <= i < COLS && 0 <= j < ROWS implies
        #[trigger] pixel_lit(updated, i, j)
            == if i == x && j == y { value } else { pixel_lit(data, i, j) } by {
        if i == x && j == y {
            if value {
                lemma_bit_or(data[bi], k, k);
            } else {
                lemma_bit_and_not(data[bi], k, k);
            }
        } else {
            lemma_index_injective(i, j, x, y);
            if pixel_byte(i, j) == bi {
                // Same byte, so the bit positions must differ.
                assert(pixel_bit(i, j) != k);
                if value {
                    lemma_bit_or(data[bi], k, pixel_bit(i, j));
                } else {
                    lemma_bit_and_not(data[bi], k, pixel_bit(i, j));
                }
            } else {
                assert(updated[pixel_byte(i, j)] == data[pixel_byte(i, j)]);
            }
        }
    }
}

} // verus!
