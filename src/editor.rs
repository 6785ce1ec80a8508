//! The memory editor's window: the address it shows first, which rows
//! follow, and the labels of its columns.
use vstd::prelude::*;
use crate::error::EmuError;
use crate::hex::{hex_min, hex_fixed, hex_text_value, hex_unpadded, hex_word, is_hex_text, parse_hex_u16};

verus! {

/// The window of a memory editor: the address of its first row, which the
/// user types in hexadecimal.
pub struct MemoryWindow {
    address: u16,
}

/// The starts of the rows below the first: from `address + width` on, one
/// row every `width` addresses, at most `rows` of them, none at or past `size`.
pub open spec fn row_starts_ok(address: u16, width: nat, rows: nat, size: nat, r: Seq<usize>) -> bool {
    &&& r.len() <= rows
    &&& forall|k: int| 0 <= k < r.len() ==> #[trigger] r[k] == address + width + k * width
    &&& forall|k: int| 0 <= k < r.len() ==> #[trigger] r[k] < size
    &&& r.len() == rows || address + width + r.len() * width >= size
}

impl MemoryWindow {
    /// The address of the first row.
    pub closed spec fn first(&self) -> u16 {
        self.address
    }

    /// A window from address 0.
    pub fn new() -> (r: MemoryWindow)
        ensures
            r.first() == 0,
    {
        MemoryWindow { address: 0 }
    }

    /// The address of the first row.
    pub fn address(&self) -> (r: u16)
        ensures
            r == self.first(),
    {
        self.address
    }

    /// The first row's address as four hexadecimal digits.
    pub fn address_text(&self) -> (r: String)
        ensures
            r@ == hex_fixed(self.first() as nat, 4),
    {
        hex_word(self.address)
    }

    /// Moves the window to an address typed in hexadecimal. Fails with
    /// `InvalidEncoding`, changing nothing, where the text is no 16-bit value.
    pub fn set_address_text(&mut self, text: &str) -> (r: Result<(), EmuError>)
        ensures
            is_hex_text(text@, 0xFFFF) ==> r == Ok::<(), EmuError>(()) && final(self).first()
                == hex_text_value(text@) as u16,
            !is_hex_text(text@, 0xFFFF) ==> r == Err::<(), EmuError>(EmuError::InvalidEncoding)
                && final(self).first() == old(self).first(),
    {
        match parse_hex_u16(text) {
            Some(v) => {
                self.address = v;
                Ok(())
            },
            None => Err(EmuError::InvalidEncoding),
        }
    }

    /// The start addresses of the rows shown below the first row, in a
    /// memory of `size` bytes.
    pub fn row_starts(&self, width: usize, rows: usize, size: usize) -> (r: Vec<usize>)
        requires
            width > 0,
        ensures
            row_starts_ok(self.first(), width as nat, rows as nat, size as nat, r@),
    {
        let mut out: Vec<usize> = Vec::new();
        let a = self.address as usize;
        if width >= size || a >= size - width {
            return out;
        }
        let mut cur: usize = a + width;
        let mut k: usize = 0;
        let mut done = false;
        while k < rows && !done
            invariant
                width > 0,
                a == self.first(),
                a + width < size,
                k <= rows,
                out@.len() == k,
                forall|j: int| 0 <= j < k ==> #[trigger] out@[j] == a + width + j * width,
                forall|j: int| 0 <= j < k ==> #[trigger] out@[j] < size,
                !done ==> cur == a + width + k * width && cur < size,
                done ==> a + width + k * width >= size,
            decreases rows - k,
        {
            out.push(cur);
            proof {
                assert(a + width + (k + 1) * width == cur + width) by (nonlinear_arith)
                    requires
                        cur == a + width + k * width,
                {}
            }
            k = k + 1;
            if width >= size - cur {
                done = true;
            } else {
                cur = cur + width;
            }
        }
        out
    }

    /// The label of column `offset` of the editor's header: the low byte of
    /// the first address plus the offset, in hexadecimal with as many digits
    /// as the value needs.
    pub fn column_label(&self, offset: u16) -> (r: String)
        requires
            offset <= 0xFF00,
        ensures
            r@ == hex_min((self.first() as nat % 256 + offset) as nat),
    {
        let address = self.address;
        let low = address & 0x00FF;
        proof {
            assert(low == address % 256) by (bit_vector)
                requires
                    low == address & 0x00FF,
            {}
        }
        hex_unpadded((low + offset) as u32)
    }
}

} // verus!
