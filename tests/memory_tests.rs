use emu_debugger::display::{decode_pixel, Rgb};
use emu_debugger::error::EmuError;
use emu_debugger::memory::{AddressSpace, Device, MAX_MEMORY};
use emu_debugger::display::CanvasDisplay;

#[test]
fn full_ram_write_then_read_back() {
    let mut m = AddressSpace::new_full_ram();
    assert_eq!(m.size(), 0x10000);
    assert_eq!(m.write(0x1234, 0xAB), Ok(()));
    assert_eq!(m.read(0x1234), Ok(0xAB));
    assert_eq!(m.read(0x1235), Ok(0x00));
}

#[test]
fn out_of_range_read_and_write_fail() {
    let mut m = AddressSpace::new();
    assert_eq!(m.add_device(Device::ram(0x100)), Ok(()));
    assert_eq!(m.size(), 0x100);
    assert_eq!(m.read(0x100), Err(EmuError::OutOfRange));
    assert_eq!(m.write(0x100, 7), Err(EmuError::OutOfRange));
    assert_eq!(m.read(0xFFFF), Err(EmuError::OutOfRange));
    assert_eq!(m.write(0xFFFF, 7), Err(EmuError::OutOfRange));
    assert_eq!(m.read(0xFF), Ok(0));
}

#[test]
fn read_only_device_refuses_writes() {
    let mut m = AddressSpace::new();
    assert_eq!(m.add_device(Device::ram(4)), Ok(()));
    assert_eq!(m.add_device(Device::rom(vec![0x11, 0x22])), Ok(()));
    assert_eq!(m.size(), 6);
    assert_eq!(m.read(4), Ok(0x11));
    assert_eq!(m.read(5), Ok(0x22));
    assert_eq!(m.write(5, 0x99), Err(EmuError::ReadOnly));
    assert_eq!(m.read(5), Ok(0x22));
    assert_eq!(m.write(3, 0x99), Ok(()));
    assert_eq!(m.read(3), Ok(0x99));
}

#[test]
fn devices_are_routed_by_offset() {
    let mut m = AddressSpace::new();
    assert_eq!(m.add_device(Device::ram(2)), Ok(()));
    assert_eq!(m.add_device(Device::Display(CanvasDisplay::new(3))), Ok(()));
    assert_eq!(m.add_device(Device::ram(2)), Ok(()));
    assert_eq!(m.write(2, 0xE0), Ok(()));
    assert_eq!(m.write(4, 0x03), Ok(()));
    assert_eq!(m.write(5, 0x55), Ok(()));
    assert_eq!(m.read(1), Ok(0));
    assert_eq!(m.read(2), Ok(0xE0));
    assert_eq!(m.read(5), Ok(0x55));
    let px = m.display_pixels(2).unwrap();
    assert_eq!(px.len(), 3);
    assert_eq!(px[0].color, Rgb { red: 0xE0, green: 0, blue: 0 });
    assert_eq!((px[2].x, px[2].y), (0, 1));
    assert_eq!(px[2].color, Rgb { red: 0, green: 0, blue: 0xC0 });
}

#[test]
fn space_cannot_pass_sixteen_bit_addresses() {
    let mut m = AddressSpace::new_full_ram();
    assert_eq!(m.add_device(Device::ram(1)), Err(EmuError::OutOfRange));
    assert_eq!(m.size(), MAX_MEMORY);
    let mut e = AddressSpace::new();
    assert_eq!(e.add_device(Device::ram(0x8000)), Ok(()));
    assert_eq!(e.add_device(Device::ram(0x8001)), Err(EmuError::OutOfRange));
    assert_eq!(e.add_device(Device::ram(0x8000)), Ok(()));
    assert_eq!(e.size(), 0x10000);
    assert!(e.display_pixels(4).is_none());
}

#[test]
fn load_program_copies_from_zero() {
    let mut m = AddressSpace::new();
    assert_eq!(m.add_device(Device::rom(vec![9, 9])), Ok(()));
    assert_eq!(m.add_device(Device::ram(3)), Ok(()));
    assert_eq!(m.load_program(&[1, 2, 3]), Ok(()));
    assert_eq!(m.read(0), Ok(1));
    assert_eq!(m.read(1), Ok(2));
    assert_eq!(m.read(2), Ok(3));
    assert_eq!(m.read(3), Ok(0));
    assert_eq!(m.load_program(&[5, 5, 5, 5, 5, 5]), Err(EmuError::OutOfRange));
    assert_eq!(m.read(0), Ok(1));
    assert_eq!(m.read(4), Ok(0));
}

#[test]
fn editor_cells_show_and_take_hex() {
    let mut m = AddressSpace::new();
    assert_eq!(m.add_device(Device::ram(4)), Ok(()));
    assert_eq!(m.add_device(Device::rom(vec![0x5A])), Ok(()));
    assert_eq!(m.write_byte_text(1, "ab"), Ok(()));
    assert_eq!(m.cell_text(1), "AB");
    assert_eq!(m.cell_text(0), "00");
    assert_eq!(m.cell_text(4), "5A");
    assert_eq!(m.cell_text(5), "??");
    assert_eq!(m.write_byte_text(2, "xyz"), Err(EmuError::InvalidEncoding));
    assert_eq!(m.write_byte_text(2, "100"), Err(EmuError::InvalidEncoding));
    assert_eq!(m.write_byte_text(9, "1"), Err(EmuError::OutOfRange));
    assert_eq!(m.write_byte_text(4, "1"), Err(EmuError::ReadOnly));
    assert_eq!(m.cell_text(2), "00");
    assert_eq!(m.cell_text(4), "5A");
}

#[test]
fn display_device_reads_and_writes_its_buffer() {
    let mut d = CanvasDisplay::new(4);
    assert_eq!(d.size(), 4);
    assert_eq!(d.read_8(3), Ok(0));
    assert_eq!(d.write_8(3, 0x1F), Ok(()));
    assert_eq!(d.read_8(3), Ok(0x1F));
    assert_eq!(d.write_8(4, 1), Err(EmuError::OutOfRange));
    assert_eq!(d.read_8(4), Err(EmuError::OutOfRange));
    assert_eq!(d.write_8_force(0, 0xE0), Ok(()));
    let px = d.pixels(2);
    assert_eq!(px.len(), 4);
    assert_eq!(px[3].color, decode_pixel(0x1F));
    assert_eq!((px[3].x, px[3].y), (1, 1));
    assert_eq!(px[0].color, Rgb { red: 0xE0, green: 0, blue: 0 });
    assert_eq!(d.pixels(2), px);
}
