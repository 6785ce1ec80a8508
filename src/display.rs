//! A memory-mapped display whose byte buffer doubles as a framebuffer, one
//! byte per pixel in 3-3-2 red/green/blue bit fields.
use vstd::prelude::*;
use crate::error::EmuError;

verus! {

/// A colour with eight bits per channel.
#[derive(Clone, Copy, Debug, PartialEq, Eq, Structural)]
pub struct Rgb {
    pub red: u8,
    pub green: u8,
    pub blue: u8,
}

/// One painted pixel: its column, its row and its colour.
#[derive(Clone, Copy, Debug, PartialEq, Eq, Structural)]
pub struct Pixel {
    pub x: usize,
    pub y: usize,
    pub color: Rgb,
}

/// The colour that a framebuffer byte encodes: bits 7..5 are red, 4..2 green
/// and 1..0 blue, each moved to the top of its channel.
pub open spec fn pixel_color(byte: u8) -> Rgb {
    Rgb {
        red: byte & 0b11100000u8,
        green: ((byte & 0b00011100u8) << 3u8) as u8,
        blue: ((byte & 0b00000011u8) << 6u8) as u8,
    }
}

/// The pixel that the byte at index `i` of a framebuffer paints.
pub open spec fn pixel_at(buffer: Seq<u8>, width: nat, i: int) -> Pixel {
    Pixel {
        x: (i % width as int) as usize,
        y: (i / width as int) as usize,
        color: pixel_color(buffer[i]),
    }
}

/// One pixel per byte of `buffer`, in index order: the byte at index `i` is
/// painted at column `i % width`, row `i / width`.
pub open spec fn pixels_of(buffer: Seq<u8>, width: nat) -> Seq<Pixel> {
    Seq::new(buffer.len(), |i: int| pixel_at(buffer, width, i))
}

/// Decodes one framebuffer byte into its colour.
pub fn decode_pixel(byte: u8) -> (r: Rgb)
    ensures
        r == pixel_color(byte),
{
    Rgb {
        red: byte & 0b11100000u8,
        green: (byte & 0b00011100u8) << 3u8,
        blue: (byte & 0b00000011u8) << 6u8,
    }
}

/// The number of rows that `size` pixels fill at `width` pixels per row,
/// counting a partly filled last row.
pub fn display_height(size: usize, width: usize) -> (r: usize)
    requires
        width > 0,
    ensures
        r as int == (size as int + width as int - 1) / width as int,
{
    let q = size / width;
    proof {
        vstd::arithmetic::div_mod::lemma_fundamental_div_mod(size as int, width as int);
    }
    if size % width == 0 {
        proof {
            assert((size as int + width as int - 1) / width as int == q) by (nonlinear_arith)
                requires
                    width > 0,
                    size as int == q * width,
            {}
        }
        q
    } else {
        proof {
            assert((size as int + width as int - 1) / width as int == q + 1) by (nonlinear_arith)
                requires
                    width > 0,
                    size as int == q * width + (size as int) % (width as int),
                    0 < (size as int) % (width as int) < (width as int),
            {}
            assert(q as int * 2 <= size as int) by (nonlinear_arith)
                requires
                    size as int == q * width + (size as int) % (width as int),
                    0 < (size as int) % (width as int) < (width as int),
                    q >= 0,
            {}
        }
        q + 1
    }
}

/// A display device: a fixed-length byte buffer that the address space routes
/// reads and writes to, and from which pixels are drawn on demand.
pub struct CanvasDisplay {
    buffer: Vec<u8>,
}

impl CanvasDisplay {
    /// The bytes of the framebuffer.
    pub closed spec fn contents(&self) -> Seq<u8> {
        self.buffer@
    }

    /// A display of `size` pixels, all black.
    pub fn new(size: u16) -> (r: CanvasDisplay)
        ensures
            r.contents() == Seq::new(size as nat, |i: int| 0u8),
    {
        let buffer = vec![0u8; size as usize];
        assert(buffer@ =~= Seq::new(size as nat, |i: int| 0u8));
        CanvasDisplay { buffer }
    }

    /// The number of bytes, and so of pixels.
    pub fn size(&self) -> (r: usize)
        ensures
            r == self.contents().len(),
    {
        self.buffer.len()
    }

    /// The byte at `addr`, counted from the start of the display.
    pub fn read_8(&self, addr: u16) -> (r: Result<u8, EmuError>)
        ensures
            addr < self.contents().len() ==> r == Ok::<u8, EmuError>(self.contents()[addr as int]),
            addr >= self.contents().len() ==> r == Err::<u8, EmuError>(EmuError::OutOfRange),
    {
        if (addr as usize) < self.buffer.len() {
            Ok(self.buffer[addr as usize])
        } else {
            Err(EmuError::OutOfRange)
        }
    }

    /// Stores `data` verbatim at `addr`; nothing is drawn until pixels are asked for.
    pub fn write_8(&mut self, addr: u16, data: u8) -> (r: Result<(), EmuError>)
        ensures
            addr < old(self).contents().len() ==> r == Ok::<(), EmuError>(())
                && final(self).contents() == old(self).contents().update(addr as int, data),
            addr >= old(self).contents().len() ==> r == Err::<(), EmuError>(EmuError::OutOfRange)
                && final(self).contents() == old(self).contents(),
    {
        if (addr as usize) < self.buffer.len() {
            self.buffer.set(addr as usize, data);
            Ok(())
        } else {
            Err(EmuError::OutOfRange)
        }
    }

    /// The same as `write_8`: the display has no protected bytes.
    pub fn write_8_force(&mut self, addr: u16, data: u8) -> (r: Result<(), EmuError>)
        ensures
            addr < old(self).contents().len() ==> r == Ok::<(), EmuError>(())
                && final(self).contents() == old(self).contents().update(addr as int, data),
            addr >= old(self).contents().len() ==> r == Err::<(), EmuError>(EmuError::OutOfRange)
                && final(self).contents() == old(self).contents(),
    {
        self.write_8(addr, data)
    }

    /// Every pixel of the framebuffer at `width` pixels per row: the byte at
    /// index `i` is painted at column `i % width`, row `i / width`. Calling it
    /// again without writes in between gives the same pixels.
    pub fn pixels(&self, width: usize) -> (r: Vec<Pixel>)
        requires
            width > 0,
        ensures
            r@ == pixels_of(self.contents(), width as nat),
    {
        let mut out: Vec<Pixel> = Vec::new();
        let n = self.buffer.len();
        let mut x: usize = 0;
        let mut y: usize = 0;
        let mut i: usize = 0;
        while i < n
            invariant
                n == self.contents().len(),
                width > 0,
                i <= n,
                out@.len() == i,
                x < width,
                i as int == y as int * width as int + x as int,
                forall|k: int|
                    0 <= k < i ==> #[trigger] out@[k] == (Pixel {
                        x: (k % width as int) as usize,
                        y: (k / width as int) as usize,
                        color: pixel_color(self.contents()[k]),
                    }),
            decreases n - i,
        {
            proof {
                vstd::arithmetic::div_mod::lemma_fundamental_div_mod_converse(
                    i as int,
                    width as int,
                    y as int,
                    x as int,
                );
            }
            out.push(Pixel { x, y, color: decode_pixel(self.buffer[i]) });
            i = i + 1;
            if x + 1 == width {
                proof {
                    assert(i as int == (y as int + 1) * width as int) by (nonlinear_arith)
                        requires
                            i as int == y as int * width as int + x as int + 1,
                            x + 1 == width,
                    {}
                    assert(y as int + 1 <= i as int) by (nonlinear_arith)
                        requires
                            i as int == (y as int + 1) * width as int,
                            width > 0,
                    {}
                }
                x = 0;
                y = y + 1;
            } else {
                x = x + 1;
            }
        }
        assert(out@ =~= pixels_of(self.contents(), width as nat));
        out
    }
}

} // verus!
