//! The register file as plain values, with hexadecimal display and editing.
use vstd::prelude::*;
use crate::error::EmuError;
use crate::hex::{hex_byte, hex_fixed, hex_text_value, hex_word, is_hex_text, parse_hex_u16, parse_hex_u8};

verus! {

/// The registers a user can inspect and edit.
#[derive(Clone, Copy, Debug, PartialEq, Eq, Structural)]
pub enum RegisterName {
    AF,
    BC,
    DE,
    HL,
    SP,
    PC,
    IX,
    IY,
    I,
    R,
}

/// The number of hexadecimal digits a register shows: four for the 16-bit
/// registers, two for the 8-bit `I` and `R`.
pub open spec fn digits(name: RegisterName) -> nat {
    match name {
        RegisterName::I | RegisterName::R => 2,
        _ => 4,
    }
}

/// The largest value a register holds.
pub open spec fn max_value(name: RegisterName) -> nat {
    if digits(name) == 2 {
        0xFF
    } else {
        0xFFFF
    }
}

/// The register values of the CPU.
#[derive(Clone, Copy, Debug, PartialEq, Eq, Structural)]
pub struct Registers {
    pub af: u16,
    pub bc: u16,
    pub de: u16,
    pub hl: u16,
    pub sp: u16,
    pub pc: u16,
    pub ix: u16,
    pub iy: u16,
    pub i: u8,
    pub r: u8,
}

impl Registers {
    /// The value of register `name`.
    pub open spec fn get(&self, name: RegisterName) -> nat {
        match name {
            RegisterName::AF => self.af as nat,
            RegisterName::BC => self.bc as nat,
            RegisterName::DE => self.de as nat,
            RegisterName::HL => self.hl as nat,
            RegisterName::SP => self.sp as nat,
            RegisterName::PC => self.pc as nat,
            RegisterName::IX => self.ix as nat,
            RegisterName::IY => self.iy as nat,
            RegisterName::I => self.i as nat,
            RegisterName::R => self.r as nat,
        }
    }

    /// All registers zero.
    pub fn new() -> (r: Registers)
        ensures
            forall|n: RegisterName| #[trigger] r.get(n) == 0,
    {
        Registers { af: 0, bc: 0, de: 0, hl: 0, sp: 0, pc: 0, ix: 0, iy: 0, i: 0, r: 0 }
    }

    /// The value of register `name`.
    pub fn read(&self, name: RegisterName) -> (r: u16)
        ensures
            r as nat == self.get(name),
    {
        match name {
            RegisterName::AF => self.af,
            RegisterName::BC => self.bc,
            RegisterName::DE => self.de,
            RegisterName::HL => self.hl,
            RegisterName::SP => self.sp,
            RegisterName::PC => self.pc,
            RegisterName::IX => self.ix,
            RegisterName::IY => self.iy,
            RegisterName::I => self.i as u16,
            RegisterName::R => self.r as u16,
        }
    }

    /// Sets register `name` to `value`, leaving the others. Fails with
    /// `InvalidEncoding`, changing nothing, where an 8-bit register is given a
    /// value above 0xFF.
    pub fn write(&mut self, name: RegisterName, value: u16) -> (r: Result<(), EmuError>)
        ensures
            value <= max_value(name) ==> r == Ok::<(), EmuError>(()) && forall|n: RegisterName|
                #[trigger] final(self).get(n) == if n == name {
                    value as nat
                } else {
                    old(self).get(n)
                },
            value > max_value(name) ==> r == Err::<(), EmuError>(EmuError::InvalidEncoding)
                && *final(self) == *old(self),
    {
        match name {
            RegisterName::AF => self.af = value,
            RegisterName::BC => self.bc = value,
            RegisterName::DE => self.de = value,
            RegisterName::HL => self.hl = value,
            RegisterName::SP => self.sp = value,
            RegisterName::PC => self.pc = value,
            RegisterName::IX => self.ix = value,
            RegisterName::IY => self.iy = value,
            RegisterName::I => {
                if value > 0xFF {
                    return Err(EmuError::InvalidEncoding);
                }
                self.i = value as u8;
            },
            RegisterName::R => {
                if value > 0xFF {
                    return Err(EmuError::InvalidEncoding);
                }
                self.r = value as u8;
            },
        }
        Ok(())
    }

    /// Register `name` as upper-case hexadecimal, four digits or two.
    pub fn text(&self, name: RegisterName) -> (r: String)
        ensures
            r@ == hex_fixed(self.get(name), digits(name)),
    {
        match name {
            RegisterName::I => hex_byte(self.i),
            RegisterName::R => hex_byte(self.r),
            _ => hex_word(self.read(name)),
        }
    }

    /// Sets register `name` from hexadecimal text. Fails with
    /// `InvalidEncoding`, changing nothing, where the text is no value of the
    /// register's width.
    pub fn write_text(&mut self, name: RegisterName, text: &str) -> (r: Result<(), EmuError>)
        ensures
            is_hex_text(text@, max_value(name)) ==> r == Ok::<(), EmuError>(()) && forall|
                n: RegisterName,
            |
                #[trigger] final(self).get(n) == if n == name {
                    hex_text_value(text@)
                } else {
                    old(self).get(n)
                },
            !is_hex_text(text@, max_value(name)) ==> r == Err::<(), EmuError>(EmuError::InvalidEncoding)
                && *final(self) == *old(self),
    {
        let parsed: Option<u16> = match name {
            RegisterName::I | RegisterName::R => match parse_hex_u8(text) {
                Some(v) => Some(v as u16),
                None => None,
            },
            _ => parse_hex_u16(text),
        };
        match parsed {
            Some(v) => self.write(name, v),
            None => Err(EmuError::InvalidEncoding),
        }
    }
}

} // verus!
