//! The address space: devices bound to contiguous address ranges from 0 up,
//! the single source of truth for every byte the CPU and the views see.
use vstd::prelude::*;
use crate::display::{CanvasDisplay, Pixel, pixels_of};
use crate::error::EmuError;
use crate::hex::{hex_byte, hex_fixed, hex_text_value, is_hex_text, parse_hex_u8};

verus! {

/// The largest address space that 16-bit addresses reach.
pub const MAX_MEMORY: usize = 0x10000;

/// A device that can be bound into the address space.
pub enum Device {
    /// Read-write memory.
    Ram(Vec<u8>),
    /// Memory that the CPU and the editor cannot write; only a program load fills it.
    Rom(Vec<u8>),
    /// A framebuffer; writable.
    Display(CanvasDisplay),
}

impl Device {
    /// The bytes the device holds, from its first address on.
    pub open spec fn contents(&self) -> Seq<u8> {
        match self {
            Device::Ram(b) => b@,
            Device::Rom(b) => b@,
            Device::Display(d) => d.contents(),
        }
    }

    /// Whether ordinary writes reach the device.
    pub open spec fn writable(&self) -> bool {
        !(self is Rom)
    }

    /// Read-write memory of `size` bytes, all zero.
    pub fn ram(size: usize) -> (r: Device)
        ensures
            r.contents() == Seq::new(size as nat, |i: int| 0u8),
            r.writable(),
    {
        let b = vec![0u8; size];
        assert(b@ =~= Seq::new(size as nat, |i: int| 0u8));
        Device::Ram(b)
    }

    /// Read-only memory holding `bytes`.
    pub fn rom(bytes: Vec<u8>) -> (r: Device)
        ensures
            r.contents() == bytes@,
            !r.writable(),
    {
        Device::Rom(bytes)
    }

    /// The number of addresses the device occupies.
    pub fn size(&self) -> (r: usize)
        ensures
            r == self.contents().len(),
    {
        match self {
            Device::Ram(b) => b.len(),
            Device::Rom(b) => b.len(),
            Device::Display(d) => d.size(),
        }
    }

    fn read_at(&self, offset: usize) -> (r: u8)
        requires
            offset < self.contents().len(),
            offset < MAX_MEMORY,
        ensures
            r == self.contents()[offset as int],
    {
        match self {
            Device::Ram(b) => b[offset],
            Device::Rom(b) => b[offset],
            Device::Display(d) => match d.read_8(offset as u16) {
                Ok(v) => v,
                Err(_) => 0,
            },
        }
    }

    fn store_at(&mut self, offset: usize, v: u8)
        requires
            offset < old(self).contents().len(),
            offset < MAX_MEMORY,
        ensures
            final(self).contents() == old(self).contents().update(offset as int, v),
            final(self).writable() == old(self).writable(),
    {
        match self {
            Device::Ram(b) => b.set(offset, v),
            Device::Rom(b) => b.set(offset, v),
            Device::Display(d) => {
                let _ = d.write_8_force(offset as u16, v);
            },
        }
    }
}

/// The parts of a sequence of sequences, one after another.
pub open spec fn joined<T>(parts: Seq<Seq<T>>) -> Seq<T>
    decreases parts.len(),
{
    if parts.len() == 0 {
        Seq::empty()
    } else {
        joined(parts.drop_last()) + parts.last()
    }
}

/// The bytes of each device, in address order.
pub open spec fn byte_parts(ds: Seq<Device>) -> Seq<Seq<u8>> {
    ds.map_values(|d: Device| d.contents())
}

/// For each device, one flag per address it occupies: whether writes reach it.
pub open spec fn write_parts(ds: Seq<Device>) -> Seq<Seq<bool>> {
    ds.map_values(|d: Device| Seq::new(d.contents().len(), |k: int| d.writable()))
}

proof fn lemma_joined_append<T>(front: Seq<Seq<T>>, back: Seq<Seq<T>>)
    ensures
        joined(front + back) == joined(front) + joined(back),
    decreases back.len(),
{
    if back.len() == 0 {
        assert(front + back =~= front);
        assert(joined(front) + joined(back) =~= joined(front));
    } else {
        lemma_joined_append(front, back.drop_last());
        assert((front + back).drop_last() =~= front + back.drop_last());
        assert(joined(front) + joined(back) =~= joined(front) + joined(back.drop_last()) + back.last());
    }
}

/// The parts before `i`, part `i`, and the parts after it.
proof fn lemma_joined_split<T>(parts: Seq<Seq<T>>, i: int)
    requires
        0 <= i < parts.len(),
    ensures
        joined(parts) == joined(parts.take(i)) + parts[i] + joined(parts.skip(i + 1)),
        joined(parts.take(i + 1)) == joined(parts.take(i)) + parts[i],
{
    let single = seq![parts[i]];
    assert(joined(single) =~= parts[i]) by {
        assert(single.drop_last() =~= Seq::<Seq<T>>::empty());
        assert(joined(single.drop_last()) =~= Seq::<T>::empty());
        assert(Seq::<T>::empty() + parts[i] =~= parts[i]);
    }
    assert(parts =~= parts.take(i) + single + parts.skip(i + 1));
    lemma_joined_append(parts.take(i) + single, parts.skip(i + 1));
    lemma_joined_append(parts.take(i), single);
    assert(parts.take(i + 1) =~= parts.take(i) + single);
}

/// Replacing part `i` by one of the same length replaces its span.
proof fn lemma_joined_update<T>(parts: Seq<Seq<T>>, i: int, x: Seq<T>)
    requires
        0 <= i < parts.len(),
        x.len() == parts[i].len(),
    ensures
        joined(parts.update(i, x)) == joined(parts.take(i)) + x + joined(parts.skip(i + 1)),
{
    let q = parts.update(i, x);
    lemma_joined_split(q, i);
    assert(q.take(i) =~= parts.take(i));
    assert(q.skip(i + 1) =~= parts.skip(i + 1));
}

/// What an address space holds, by address: each byte and whether ordinary
/// writes reach it.
pub struct MemoryView {
    pub bytes: Seq<u8>,
    pub writable: Seq<bool>,
}

impl MemoryView {
    /// The configured memory size.
    pub open spec fn size(self) -> nat {
        self.bytes.len()
    }

    /// What reading `addr` returns.
    pub open spec fn read(self, addr: u16) -> Result<u8, EmuError> {
        if addr < self.size() {
            Ok(self.bytes[addr as int])
        } else {
            Err(EmuError::OutOfRange)
        }
    }

    /// What writing `value` at `addr` returns, and the memory after it: out of
    /// range or read-only, an error and no change.
    pub open spec fn write(self, addr: u16, value: u8) -> (Result<(), EmuError>, MemoryView) {
        if addr >= self.size() {
            (Err(EmuError::OutOfRange), self)
        } else if !self.writable[addr as int] {
            (Err(EmuError::ReadOnly), self)
        } else {
            (Ok(()), MemoryView { bytes: self.bytes.update(addr as int, value), ..self })
        }
    }
}

/// Writing a byte where memory accepts writes and reading it back gives that
/// byte, and no other address changes; where memory is read-only the write
/// fails and every read is as before.
pub proof fn lemma_write_then_read(m: MemoryView, a: u16, v: u8)
    requires
        a < m.size(),
        m.writable.len() == m.size(),
    ensures
        m.writable[a as int] ==> m.write(a, v).0 == Ok::<(), EmuError>(()) && m.write(a, v).1.read(a)
            == Ok::<u8, EmuError>(v),
        !m.writable[a as int] ==> m.write(a, v).0 == Err::<(), EmuError>(EmuError::ReadOnly) && m.write(
            a,
            v,
        ).1.read(a) == m.read(a),
        forall|b: u16| b != a ==> #[trigger] m.write(a, v).1.read(b) == m.read(b),
{
}

/// At or beyond the memory size, reads and writes both fail with
/// `OutOfRange`, and the write changes nothing.
pub proof fn lemma_out_of_range(m: MemoryView, a: u16, v: u8)
    requires
        a >= m.size(),
    ensures
        m.read(a) == Err::<u8, EmuError>(EmuError::OutOfRange),
        m.write(a, v).0 == Err::<(), EmuError>(EmuError::OutOfRange),
        m.write(a, v).1 == m,
{
}

/// The address space: devices bound one after another from address 0.
pub struct AddressSpace {
    devices: Vec<Device>,
    size: usize,
}

impl View for AddressSpace {
    type V = MemoryView;

    open spec fn view(&self) -> MemoryView {
        MemoryView { bytes: self.contents(), writable: self.writable() }
    }
}

impl AddressSpace {
    /// Every byte, by address.
    pub closed spec fn contents(&self) -> Seq<u8> {
        joined(byte_parts(self.devices@))
    }

    /// For every address, whether ordinary writes reach it.
    pub closed spec fn writable(&self) -> Seq<bool> {
        joined(write_parts(self.devices@))
    }

    /// The cached size and the writability flags agree with the devices.
    pub closed spec fn inner_wf(&self) -> bool {
        &&& self.size as nat == self.contents().len()
        &&& self.writable().len() == self.contents().len()
    }

    /// Well-formed: one writability flag per byte, and no more bytes than
    /// 16-bit addresses reach.
    pub open spec fn wf(&self) -> bool {
        &&& self.inner_wf()
        &&& self.contents().len() <= MAX_MEMORY
    }

    proof fn lemma_lengths(ds: Seq<Device>)
        ensures
            joined(write_parts(ds)).len() == joined(byte_parts(ds)).len(),
        decreases ds.len(),
    {
        if ds.len() > 0 {
            Self::lemma_lengths(ds.drop_last());
            assert(write_parts(ds).drop_last() =~= write_parts(ds.drop_last()));
            assert(byte_parts(ds).drop_last() =~= byte_parts(ds.drop_last()));
        }
    }

    /// Where device `i` starts, and that its bytes and flags fill its span.
    proof fn lemma_device_span(ds: Seq<Device>, i: int)
        requires
            0 <= i < ds.len(),
        ensures
            joined(byte_parts(ds.take(i + 1))).len() <= joined(byte_parts(ds)).len(),
            joined(byte_parts(ds.take(i + 1))).len() == joined(byte_parts(ds.take(i))).len()
                + ds[i].contents().len(),
            forall|o: int|
                0 <= o < ds[i].contents().len() ==> {
                    let a = joined(byte_parts(ds.take(i))).len() + o;
                    &&& joined(byte_parts(ds))[a] == #[trigger] ds[i].contents()[o]
                    &&& joined(write_parts(ds))[a] == ds[i].writable()
                },
    {
        let bp = byte_parts(ds);
        let wp = write_parts(ds);
        lemma_joined_split(bp, i);
        lemma_joined_split(wp, i);
        assert(bp.take(i) =~= byte_parts(ds.take(i)));
        assert(bp.take(i + 1) =~= byte_parts(ds.take(i + 1)));
        Self::lemma_lengths(ds.take(i));
        assert(wp.take(i) =~= write_parts(ds.take(i)));
        let base = joined(bp.take(i)).len();
        assert(joined(wp.take(i)).len() == base);
        assert forall|o: int| 0 <= o < ds[i].contents().len() implies {
            let a = joined(byte_parts(ds.take(i))).len() + o;
            &&& joined(bp)[a] == #[trigger] ds[i].contents()[o]
            &&& joined(wp)[a] == ds[i].writable()
        } by {
            assert(wp[i][o] == ds[i].writable());
            assert(joined(wp)[base + o] == wp[i][o]);
        }
    }

    /// An empty address space, to which devices are then added.
    pub fn new() -> (r: AddressSpace)
        ensures
            r.wf(),
            r.contents() == Seq::<u8>::empty(),
    {
        let r = AddressSpace { devices: Vec::new(), size: 0 };
        assert(r.devices@ =~= Seq::<Device>::empty());
        assert(r.writable() =~= Seq::<bool>::empty());
        r
    }

    /// Binds `d` to the addresses right after the last device. Fails with
    /// `OutOfRange`, and changes nothing, where the space would then pass 0x10000 bytes.
    pub fn add_device(&mut self, d: Device) -> (r: Result<(), EmuError>)
        requires
            old(self).wf(),
        ensures
            final(self).wf(),
            old(self).contents().len() + d.contents().len() <= MAX_MEMORY ==> {
                &&& r == Ok::<(), EmuError>(())
                &&& final(self).contents() == old(self).contents() + d.contents()
                &&& final(self).writable() == old(self).writable() + Seq::new(
                    d.contents().len(),
                    |k: int| d.writable(),
                )
            },
            old(self).contents().len() + d.contents().len() > MAX_MEMORY ==> {
                &&& r == Err::<(), EmuError>(EmuError::OutOfRange)
                &&& *final(self) == *old(self)
            },
    {
        let n = d.size();
        if n > MAX_MEMORY - self.size {
            return Err(EmuError::OutOfRange);
        }
        let ghost old_ds = self.devices@;
        self.devices.push(d);
        self.size = self.size + n;
        proof {
            let ds = self.devices@;
            assert(ds.drop_last() =~= old_ds);
            assert(byte_parts(ds).drop_last() =~= byte_parts(old_ds));
            assert(write_parts(ds).drop_last() =~= write_parts(old_ds));
        }
        Ok(())
    }

    /// One read-write memory covering all 0x10000 addresses.
    pub fn new_full_ram() -> (r: AddressSpace)
        ensures
            r.wf(),
            r.contents() == Seq::new(MAX_MEMORY as nat, |i: int| 0u8),
            forall|a: int| 0 <= a < MAX_MEMORY ==> #[trigger] r.writable()[a],
    {
        let mut r = AddressSpace::new();
        let _ = r.add_device(Device::ram(MAX_MEMORY));
        assert(r.contents() =~= Seq::new(MAX_MEMORY as nat, |i: int| 0u8));
        r
    }

    /// The configured memory size: the sum of the devices' sizes.
    pub fn size(&self) -> (r: usize)
        requires
            self.wf(),
        ensures
            r == self.contents().len(),
    {
        self.size
    }

    /// Finds the device that owns `addr` and the offset of `addr` in it.
    fn locate(&self, addr: usize) -> (r: (usize, usize))
        requires
            self.wf(),
            addr < self.contents().len(),
        ensures
            r.0 < self.devices@.len(),
            r.1 < self.devices@[r.0 as int].contents().len(),
            r.1 as int + joined(byte_parts(self.devices@.take(r.0 as int))).len() == addr,
            self.contents()[addr as int] == self.devices@[r.0 as int].contents()[r.1 as int],
            self.writable()[addr as int] == self.devices@[r.0 as int].writable(),
    {
        let ghost ds = self.devices@;
        let mut base: usize = 0;
        let mut i: usize = 0;
        while i < self.devices.len()
            invariant
                self.wf(),
                addr < self.contents().len(),
                ds == self.devices@,
                i <= ds.len(),
                base as nat == joined(byte_parts(ds.take(i as int))).len(),
                base <= addr,
            decreases ds.len() - i,
        {
            let sz = self.devices[i].size();
            proof {
                Self::lemma_device_span(ds, i as int);
            }
            if addr - base < sz {
                return (i, addr - base);
            }
            base = base + sz;
            i = i + 1;
        }
        assert(ds.take(i as int) =~= ds);
        (0, 0)
    }

    /// The byte at `addr`; `OutOfRange` at or beyond the memory size.
    pub fn read(&self, addr: u16) -> (r: Result<u8, EmuError>)
        requires
            self.wf(),
        ensures
            r == self@.read(addr),
    {
        if addr as usize >= self.size {
            return Err(EmuError::OutOfRange);
        }
        let (i, o) = self.locate(addr as usize);
        Ok(self.devices[i].read_at(o))
    }

    fn store(&mut self, addr: usize, v: u8)
        requires
            old(self).wf(),
            addr < old(self).contents().len(),
        ensures
            final(self).wf(),
            final(self).contents() == old(self).contents().update(addr as int, v),
            final(self).writable() == old(self).writable(),
    {
        let (i, o) = self.locate(addr);
        let ghost ds = self.devices@;
        proof {
            Self::lemma_device_span(ds, i as int);
            lemma_joined_split(byte_parts(ds), i as int);
            assert(byte_parts(ds).take(i as int) =~= byte_parts(ds.take(i as int)));
        }
        self.devices[i].store_at(o, v);
        proof {
            let nds = self.devices@;
            assert(nds =~= ds.update(i as int, nds[i as int]));
            assert(byte_parts(nds) =~= byte_parts(ds).update(i as int, nds[i as int].contents()));
            assert(write_parts(nds) =~= write_parts(ds));
            lemma_joined_update(byte_parts(ds), i as int, nds[i as int].contents());
            assert(self.contents() =~= old(self).contents().update(addr as int, v));
        }
    }

    /// Writes `value` at `addr`. Fails with `OutOfRange` at or beyond the memory
    /// size and with `ReadOnly` on a read-only device; a failed write changes nothing.
    pub fn write(&mut self, addr: u16, value: u8) -> (r: Result<(), EmuError>)
        requires
            old(self).wf(),
        ensures
            final(self).wf(),
            (r, final(self)@) == old(self)@.write(addr, value),
    {
        if addr as usize >= self.size {
            return Err(EmuError::OutOfRange);
        }
        let (i, o) = self.locate(addr as usize);
        let writable = match &self.devices[i] {
            Device::Rom(_) => false,
            _ => true,
        };
        if !writable {
            return Err(EmuError::ReadOnly);
        }
        self.store(addr as usize, value);
        Ok(())
    }

    /// Writes `value` at `addr` whatever the device, as a program load does.
    pub fn write_force(&mut self, addr: u16, value: u8) -> (r: Result<(), EmuError>)
        requires
            old(self).wf(),
        ensures
            final(self).wf(),
            final(self).writable() == old(self).writable(),
            addr >= old(self).contents().len() ==> r == Err::<(), EmuError>(EmuError::OutOfRange)
                && final(self).contents() == old(self).contents(),
            addr < old(self).contents().len() ==> r == Ok::<(), EmuError>(())
                && final(self).contents() == old(self).contents().update(addr as int, value),
    {
        if addr as usize >= self.size {
            return Err(EmuError::OutOfRange);
        }
        self.store(addr as usize, value);
        Ok(())
    }

    /// Copies a program image over memory from address 0, read-only devices
    /// included. Fails with `OutOfRange`, and changes nothing, where the image
    /// is longer than the memory.
    pub fn load_program(&mut self, bytes: &[u8]) -> (r: Result<(), EmuError>)
        requires
            old(self).wf(),
        ensures
            final(self).wf(),
            final(self).writable() == old(self).writable(),
            bytes@.len() <= old(self).contents().len() ==> r == Ok::<(), EmuError>(())
                && final(self).contents() == bytes@ + old(self).contents().skip(bytes@.len() as int),
            bytes@.len() > old(self).contents().len() ==> r == Err::<(), EmuError>(EmuError::OutOfRange)
                && final(self).contents() == old(self).contents(),
    {
        let n = bytes.len();
        if n > self.size {
            return Err(EmuError::OutOfRange);
        }
        let mut i: usize = 0;
        while i < n
            invariant
                self.wf(),
                n == bytes@.len(),
                n <= self.contents().len(),
                i <= n,
                self.contents().len() == old(self).contents().len(),
                self.writable() == old(self).writable(),
                self.contents() =~= bytes@.take(i as int) + old(self).contents().skip(i as int),
            decreases n - i,
        {
            self.store(i, bytes[i]);
            i = i + 1;
        }
        Ok(())
    }

    /// The two-digit text of the byte at `index` for the memory editor, or
    /// `??` where `index` lies beyond the memory.
    pub fn cell_text(&self, index: usize) -> (r: String)
        requires
            self.wf(),
        ensures
            index < self.contents().len() ==> r@ == hex_fixed(self.contents()[index as int] as nat, 2),
            index >= self.contents().len() ==> r@ == seq!['?', '?'],
    {
        if index >= self.size {
            let mut s = String::new();
            proof {
                reveal_strlit("??");
            }
            s.append("??");
            return s;
        }
        let (i, o) = self.locate(index);
        hex_byte(self.devices[i].read_at(o))
    }

    /// Stores user-entered hexadecimal text as the byte at `index`. Fails with
    /// `InvalidEncoding` where the text is no byte, else as `write` does; a
    /// failure changes nothing.
    pub fn write_byte_text(&mut self, index: usize, text: &str) -> (r: Result<(), EmuError>)
        requires
            old(self).wf(),
        ensures
            final(self).wf(),
            final(self).writable() == old(self).writable(),
            !is_hex_text(text@, 0xFF) ==> r == Err::<(), EmuError>(EmuError::InvalidEncoding)
                && final(self).contents() == old(self).contents(),
            is_hex_text(text@, 0xFF) && index >= old(self).contents().len() ==> r == Err::<
                (),
                EmuError,
            >(EmuError::OutOfRange) && final(self).contents() == old(self).contents(),
            is_hex_text(text@, 0xFF) && index < old(self).contents().len()
                && !old(self).writable()[index as int] ==> r == Err::<(), EmuError>(
                EmuError::ReadOnly,
            ) && final(self).contents() == old(self).contents(),
            is_hex_text(text@, 0xFF) && index < old(self).contents().len()
                && old(self).writable()[index as int] ==> r == Ok::<(), EmuError>(())
                && final(self).contents() == old(self).contents().update(
                index as int,
                hex_text_value(text@) as u8,
            ),
    {
        let value = match parse_hex_u8(text) {
            Some(v) => v,
            None => {
                return Err(EmuError::InvalidEncoding);
            },
        };
        if index >= self.size {
            return Err(EmuError::OutOfRange);
        }
        self.write(index as u16, value)
    }

    /// The framebuffer of the first display device, if one is bound.
    pub closed spec fn display_contents(&self) -> Option<Seq<u8>> {
        first_display(self.devices@)
    }

    /// The pixels of the first display device at `width` pixels per row, or
    /// `None` where no display is bound.
    pub fn display_pixels(&self, width: usize) -> (r: Option<Vec<Pixel>>)
        requires
            width > 0,
        ensures
            r.is_some() <==> self.display_contents().is_some(),
            r.is_some() ==> r.unwrap()@ == pixels_of(self.display_contents().unwrap(), width as nat),
    {
        let ghost ds = self.devices@;
        let mut i: usize = 0;
        assert(ds.skip(0) =~= ds);
        while i < self.devices.len()
            invariant
                width > 0,
                ds == self.devices@,
                i <= ds.len(),
                first_display(ds) == first_display(ds.skip(i as int)),
            decreases ds.len() - i,
        {
            assert(ds.skip(i as int).drop_first() =~= ds.skip(i + 1));
            match &self.devices[i] {
                Device::Display(d) => {
                    return Some(d.pixels(width));
                },
                _ => {},
            }
            i = i + 1;
        }
        None
    }
}

/// The framebuffer of the first display device among `ds`.
pub open spec fn first_display(ds: Seq<Device>) -> Option<Seq<u8>>
    decreases ds.len(),
{
    if ds.len() == 0 {
        None
    } else if ds[0] is Display {
        Some(ds[0].contents())
    } else {
        first_display(ds.drop_first())
    }
}

} // verus!
