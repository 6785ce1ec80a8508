use emu_debugger::breakpoints::BreakpointSet;
use emu_debugger::control::{ExecutionController, RunRequest, RUN_BATCH_CYCLES};
use emu_debugger::disasm::{listing, listing_row, Instruction, ListingEntry, StartPosition};
use emu_debugger::editor::MemoryWindow;
use emu_debugger::error::EmuError;
use emu_debugger::memory::{AddressSpace, Device};
use emu_debugger::registers::{RegisterName, Registers};

fn addresses(es: &[ListingEntry]) -> Vec<u16> {
    es.iter().map(|e| e.address).collect()
}

fn nop_or_pair(a: u16) -> Result<Instruction, EmuError> {
    if a % 2 == 0 {
        Ok(Instruction::new(vec![0x3E, 0x01], "LD A,0x01".to_string()).unwrap())
    } else {
        Err(EmuError::DecodeFailure)
    }
}

#[test]
fn unknown_bytes_advance_by_one() {
    let es = listing(0x0000, 3, &|_a: u16| -> Result<Instruction, EmuError> { Err(EmuError::DecodeFailure) });
    assert_eq!(addresses(&es), vec![0x0000, 0x0001, 0x0002]);
    assert!(es.iter().all(|e| matches!(e.decoded, Err(EmuError::DecodeFailure))));
}

#[test]
fn decoded_lengths_are_accumulated() {
    let es = listing(0x0001, 4, &nop_or_pair);
    assert_eq!(addresses(&es), vec![0x0001, 0x0002, 0x0004, 0x0006]);
    assert!(es[0].decoded.is_err());
    assert_eq!(es[1].decoded.as_ref().unwrap().length(), 2);
}

#[test]
fn listing_wraps_at_end_of_memory() {
    let es = listing(0xFFFE, 3, &nop_or_pair);
    assert_eq!(addresses(&es), vec![0xFFFE, 0x0000, 0x0002]);
    let none = listing(0x10, 0, &nop_or_pair);
    assert!(none.is_empty());
}

#[test]
fn listing_is_recomputed_identically() {
    let mut m = AddressSpace::new_full_ram();
    assert_eq!(m.load_program(&[0x00, 0x3E, 0x07, 0xFF]), Ok(()));
    let decode = |a: u16| -> Result<Instruction, EmuError> {
        match m.read(a) {
            Ok(0x00) => Ok(Instruction::new(vec![0x00], "NOP".to_string()).unwrap()),
            Ok(0x3E) => Ok(Instruction::new(vec![0x3E, 0x07], "LD A,0x07".to_string()).unwrap()),
            _ => Err(EmuError::DecodeFailure),
        }
    };
    let first = listing(0, 4, &decode);
    let second = listing(0, 4, &decode);
    assert_eq!(addresses(&first), vec![0, 1, 3, 4]);
    assert_eq!(addresses(&first), addresses(&second));
    for (a, b) in first.iter().zip(second.iter()) {
        match (&a.decoded, &b.decoded) {
            (Ok(x), Ok(y)) => {
                assert_eq!(x.bytes(), y.bytes());
                assert_eq!(x.mnemonic(), y.mnemonic());
            }
            (Err(x), Err(y)) => assert_eq!(x, y),
            _ => panic!("listings differ"),
        }
    }
}

#[test]
fn listing_rows_show_text() {
    let mut m = AddressSpace::new_full_ram();
    assert_eq!(m.write(0x0010, 0xED), Ok(()));
    let es = listing(0x000E, 3, &nop_or_pair);
    let r0 = listing_row(&es[0], &m);
    assert_eq!(r0.address, "000E");
    assert_eq!(r0.bytes, "3E01");
    assert_eq!(r0.text, "LD A,0x01");
    let bad = ListingEntry { address: 0x0010, decoded: Err(EmuError::DecodeFailure) };
    let r1 = listing_row(&bad, &m);
    assert_eq!(r1.address, "0010");
    assert_eq!(r1.bytes, "ED");
    assert_eq!(r1.text, "UNKNOWN");
    let mut small = AddressSpace::new();
    assert_eq!(small.add_device(Device::ram(4)), Ok(()));
    let r2 = listing_row(&bad, &small);
    assert_eq!(r2.bytes, "??");
}

#[test]
fn instruction_needs_a_byte() {
    assert!(Instruction::new(vec![], "NOP".to_string()).is_none());
    let i = Instruction::new(vec![0xC3, 0x00, 0x10], "JP 0x1000".to_string()).unwrap();
    assert_eq!(i.length(), 3);
    assert_eq!(i.mnemonic(), "JP 0x1000");
}

#[test]
fn start_position_follows_or_pins() {
    let mut s = StartPosition::new();
    assert_eq!(s.resolve(0x1234), 0x1234);
    assert_eq!(s.pin_text(), None);
    s.toggle(0x0100);
    assert_eq!(s.pin(), Some(0x0100));
    assert_eq!(s.resolve(0x1234), 0x0100);
    assert_eq!(s.pin_text(), Some("0100".to_string()));
    assert_eq!(s.set_from_text("beef"), Ok(()));
    assert_eq!(s.resolve(0), 0xBEEF);
    assert_eq!(s.set_from_text("12345"), Err(EmuError::InvalidEncoding));
    assert_eq!(s.pin(), Some(0xBEEF));
    s.toggle(0x0100);
    assert_eq!(s.pin(), None);
    assert_eq!(s.resolve(0x4321), 0x4321);
}

#[test]
fn breakpoint_toggle_twice_restores() {
    let mut b = BreakpointSet::new();
    assert!(!b.contains(0x10));
    b.toggle(0x10);
    assert!(b.contains(0x10));
    b.toggle(0x20);
    assert_eq!(b.len(), 2);
    b.toggle(0x10);
    assert!(!b.contains(0x10));
    assert!(b.contains(0x20));
    assert_eq!(b.len(), 1);
    b.toggle(0x20);
    b.toggle(0x20);
    assert!(b.contains(0x20));
    assert_eq!(b.len(), 1);
}

#[test]
fn registers_show_and_take_hex() {
    let mut r = Registers::new();
    assert_eq!(r.write_text(RegisterName::PC, "1a2b"), Ok(()));
    assert_eq!(r.pc, 0x1A2B);
    assert_eq!(r.text(RegisterName::PC), "1A2B");
    assert_eq!(r.text(RegisterName::AF), "0000");
    assert_eq!(r.write_text(RegisterName::I, "f"), Ok(()));
    assert_eq!(r.text(RegisterName::I), "0F");
    assert_eq!(r.write_text(RegisterName::R, "100"), Err(EmuError::InvalidEncoding));
    assert_eq!(r.write_text(RegisterName::SP, "zz"), Err(EmuError::InvalidEncoding));
    assert_eq!(r.read(RegisterName::R), 0);
    assert_eq!(r.read(RegisterName::SP), 0);
    assert_eq!(r.write(RegisterName::R, 0x100), Err(EmuError::InvalidEncoding));
    assert_eq!(r.write(RegisterName::HL, 0xFFFF), Ok(()));
    assert_eq!(r.read(RegisterName::HL), 0xFFFF);
    assert_eq!(r.read(RegisterName::PC), 0x1A2B);
}

#[test]
fn run_stops_on_execution_failure() {
    let mut c: ExecutionController<u32> = ExecutionController::new();
    assert!(!c.is_running());
    assert!(matches!(c.toggle_run(), RunRequest::StartTimer));
    assert_eq!(c.timer_started(7), None);
    assert!(c.is_running());
    assert_eq!(c.on_tick(Ok(())), None);
    assert!(c.is_running());
    assert_eq!(c.on_tick(Err(EmuError::ExecutionFailure)), Some(7));
    assert!(!c.is_running());
    assert_eq!(c.last_error(), Some(EmuError::ExecutionFailure));
    assert_eq!(RUN_BATCH_CYCLES, 400000);
}

#[test]
fn run_toggle_and_step_errors() {
    let mut c: ExecutionController<u32> = ExecutionController::new();
    assert!(matches!(c.toggle_run(), RunRequest::StartTimer));
    assert_eq!(c.timer_started(1), None);
    assert_eq!(c.timer_started(2), Some(2));
    assert!(matches!(c.toggle_run(), RunRequest::CancelTimer(1)));
    assert!(!c.is_running());
    assert_eq!(c.on_step(Err(EmuError::ExecutionFailure)), None);
    assert_eq!(c.last_error(), Some(EmuError::ExecutionFailure));
    assert!(matches!(c.toggle_run(), RunRequest::StartTimer));
    assert_eq!(c.timer_started(3), None);
    assert_eq!(c.on_step(Err(EmuError::DecodeFailure)), Some(3));
    assert!(!c.is_running());
    assert!(!c.halted());
    assert!(c.toggle_halt());
    assert!(c.halted());
    assert!(!c.toggle_halt());
}

#[test]
fn memory_window_rows_and_labels() {
    let mut w = MemoryWindow::new();
    assert_eq!(w.row_starts(16, 3, 0x10000), vec![16, 32, 48]);
    assert_eq!(w.set_address_text("FFE0"), Ok(()));
    assert_eq!(w.address_text(), "FFE0");
    assert_eq!(w.row_starts(16, 3, 0x10000), vec![0xFFF0]);
    assert_eq!(w.set_address_text("nope"), Err(EmuError::InvalidEncoding));
    assert_eq!(w.address(), 0xFFE0);
    assert_eq!(w.set_address_text("0"), Ok(()));
    assert_eq!(w.row_starts(16, 10, 40), vec![16, 32]);
    assert_eq!(w.row_starts(64, 10, 40), Vec::<usize>::new());
    assert_eq!(w.column_label(0), "0");
    assert_eq!(w.column_label(15), "F");
    assert_eq!(w.column_label(0x11), "11");
    assert_eq!(w.set_address_text("0008"), Ok(()));
    assert_eq!(w.column_label(0x09), "11");
    assert_eq!(w.column_label(0x07), "F");
    assert_eq!(w.set_address_text("0020"), Ok(()));
    assert_eq!(w.column_label(0x01), "21");
}

#[test]
fn wide_window_labels_keep_every_digit() {
    let mut w = MemoryWindow::new();
    assert_eq!(w.column_label(0x100), "100");
    assert_eq!(w.column_label(0x10), "10");
    assert_eq!(w.set_address_text("00F0"), Ok(()));
    assert_eq!(w.column_label(0x20), "110");
    assert_eq!(w.set_address_text("1234"), Ok(()));
    assert_eq!(w.column_label(0x100), "134");
}
