//! Disassembly listings: consecutive decoded instructions from a start
//! address, with exact address accounting, and the choice of that start.
use vstd::prelude::*;
use crate::error::EmuError;
use crate::hex::{hex_byte, hex_bytes, hex_fixed, hex_run, hex_text_value, hex_word, is_hex_text, parse_hex_u16};
use crate::memory::AddressSpace;

verus! {

/// One decoded instruction: its encoding (at least one byte) and its mnemonic text.
pub struct Instruction {
    bytes: Vec<u8>,
    mnemonic: String,
}

impl Instruction {
    /// Every instruction takes at least one byte.
    #[verifier::type_invariant]
    spec fn takes_a_byte(&self) -> bool {
        self.bytes@.len() >= 1
    }

    /// The bytes that encode the instruction.
    pub closed spec fn encoding(&self) -> Seq<u8> {
        self.bytes@
    }

    /// The human-readable text.
    pub closed spec fn text(&self) -> Seq<char> {
        self.mnemonic@
    }

    /// An instruction from its encoding and text; `None` for an empty encoding,
    /// since every instruction takes at least one byte.
    pub fn new(bytes: Vec<u8>, mnemonic: String) -> (r: Option<Instruction>)
        ensures
            r.is_some() <==> bytes@.len() > 0,
            r.is_some() ==> r.unwrap().encoding() == bytes@ && r.unwrap().text() == mnemonic@,
    {
        if bytes.len() == 0 {
            None
        } else {
            Some(Instruction { bytes, mnemonic })
        }
    }

    /// The number of bytes the instruction takes.
    pub fn length(&self) -> (r: usize)
        ensures
            r == self.encoding().len(),
            r >= 1,
    {
        proof {
            use_type_invariant(self);
        }
        self.bytes.len()
    }

    /// The encoding.
    pub fn bytes(&self) -> (r: &Vec<u8>)
        ensures
            r@ == self.encoding(),
    {
        &self.bytes
    }

    /// The mnemonic text.
    pub fn mnemonic(&self) -> (r: &String)
        ensures
            r@ == self.text(),
    {
        &self.mnemonic
    }
}

/// One line of a listing: where decoding happened and what came of it.
pub struct ListingEntry {
    pub address: u16,
    pub decoded: Result<Instruction, EmuError>,
}

/// How far a listing moves on after a decode: the instruction's length, or
/// one byte past anything that did not decode.
pub open spec fn advance(d: Result<Instruction, EmuError>) -> nat {
    match d {
        Ok(i) => i.encoding().len(),
        Err(_) => 1,
    }
}

/// The bytes that the entries of a listing span together.
pub open spec fn span(es: Seq<ListingEntry>) -> nat
    decreases es.len(),
{
    if es.len() == 0 {
        0
    } else {
        span(es.drop_last()) + advance(es.last().decoded)
    }
}

/// The address `offset` bytes past `start`, wrapping at the end of the 16-bit space.
pub open spec fn wrap_address(start: u16, offset: nat) -> u16 {
    ((start as nat + offset) % 0x10000) as u16
}

/// The accounting of a listing from `start`: entry `k` stands at `start` plus
/// the lengths of entries `0..k`, each the decoded length or 1 on failure.
pub open spec fn accounted(start: u16, es: Seq<ListingEntry>) -> bool {
    forall|k: int| 0 <= k < es.len() ==> (#[trigger] es[k]).address == wrap_address(start, span(es.take(k)))
}

/// Whether every entry holds what `decode` yields at its address.
pub open spec fn decoded_by<F: Fn(u16) -> Result<Instruction, EmuError>>(
    es: Seq<ListingEntry>,
    decode: F,
) -> bool {
    forall|k: int| 0 <= k < es.len() ==> decode.ensures(((#[trigger] es[k]).address,), es[k].decoded)
}

/// Decodes `count` consecutive instructions from `start`. Each entry is
/// decoded at the address the previous ones lead to, and a failure moves on
/// by one byte, so a bad byte never stops the listing. Nothing is cached:
/// each call starts afresh.
pub fn listing<F: Fn(u16) -> Result<Instruction, EmuError>>(start: u16, count: usize, decode: &F) -> (r: Vec<ListingEntry>)
    requires
        forall|a: u16| decode.requires((a,)),
    ensures
        r@.len() == count,
        accounted(start, r@),
        forall|k: int| 0 <= k < count ==> advance(#[trigger] r@[k].decoded) >= 1,
        decoded_by(r@, *decode),
{
    let mut out: Vec<ListingEntry> = Vec::new();
    let mut pc: u16 = start;
    let mut i: usize = 0;
    while i < count
        invariant
            forall|a: u16| decode.requires((a,)),
            i <= count,
            out@.len() == i,
            accounted(start, out@),
            forall|k: int| 0 <= k < i ==> advance(#[trigger] out@[k].decoded) >= 1,
            decoded_by(out@, *decode),
            pc == wrap_address(start, span(out@)),
        decreases count - i,
    {
        let decoded = decode(pc);
        let step: u16 = match &decoded {
            Ok(ins) => {
                proof {
                    use_type_invariant(ins);
                }
                (ins.bytes.len() % 0x10000) as u16
            },
            Err(_) => 1,
        };
        let ghost before = out@;
        let next = ((pc as u32 + step as u32) % 0x10000) as u16;
        out.push(ListingEntry { address: pc, decoded });
        proof {
            assert(out@.drop_last() =~= before);
            assert(out@.take(i as int) =~= before);
            assert forall|k: int| 0 <= k < out@.len() implies (#[trigger] out@[k]).address == wrap_address(
                start,
                span(out@.take(k)),
            ) by {
                if k < i {
                    assert(out@.take(k) =~= before.take(k));
                }
            }
            let s0 = span(before);
            let a = advance(out@.last().decoded);
            assert(span(out@) == s0 + a);
            assert(step as nat == a % 0x10000);
            assert(next == wrap_address(start, s0 + a)) by (nonlinear_arith)
                requires
                    pc as nat == (start as nat + s0) % 0x10000,
                    step as nat == a % 0x10000,
                    next as nat == (pc as nat + step as nat) % 0x10000,
            {
                vstd::arithmetic::div_mod::lemma_add_mod_noop(start as int + s0 as int, a as int, 0x10000);
                vstd::arithmetic::div_mod::lemma_add_mod_noop(start as int, s0 as int, 0x10000);
            }
        }
        pc = next;
        i = i + 1;
    }
    out
}

/// A listing depends on nothing but its start and what the decoder yields:
/// two listings of the same length from the same start, each decoded by a
/// decoder that yields one result per address (as one does over a memory
/// snapshot that nothing changes), are identical.
pub proof fn lemma_listing_deterministic<F: Fn(u16) -> Result<Instruction, EmuError>>(
    start: u16,
    e1: Seq<ListingEntry>,
    e2: Seq<ListingEntry>,
    decode: F,
)
    requires
        e1.len() == e2.len(),
        accounted(start, e1),
        accounted(start, e2),
        decoded_by(e1, decode),
        decoded_by(e2, decode),
        forall|a: u16, x: Result<Instruction, EmuError>, y: Result<Instruction, EmuError>|
            decode.ensures((a,), x) && decode.ensures((a,), y) ==> x == y,
    ensures
        e1 == e2,
{
    lemma_prefixes_agree(start, e1, e2, decode, e1.len() as int);
    assert(e1 =~= e1.take(e1.len() as int));
    assert(e2 =~= e2.take(e2.len() as int));
}

proof fn lemma_prefixes_agree<F: Fn(u16) -> Result<Instruction, EmuError>>(
    start: u16,
    e1: Seq<ListingEntry>,
    e2: Seq<ListingEntry>,
    decode: F,
    n: int,
)
    requires
        0 <= n <= e1.len(),
        e1.len() == e2.len(),
        accounted(start, e1),
        accounted(start, e2),
        decoded_by(e1, decode),
        decoded_by(e2, decode),
        forall|a: u16, x: Result<Instruction, EmuError>, y: Result<Instruction, EmuError>|
            decode.ensures((a,), x) && decode.ensures((a,), y) ==> x == y,
    ensures
        e1.take(n) == e2.take(n),
    decreases n,
{
    if n > 0 {
        lemma_prefixes_agree(start, e1, e2, decode, n - 1);
        let k = n - 1;
        assert(e1[k].address == wrap_address(start, span(e1.take(k))));
        assert(e2[k].address == wrap_address(start, span(e2.take(k))));
        assert(decode.ensures((e1[k].address,), e1[k].decoded));
        assert(decode.ensures((e2[k].address,), e2[k].decoded));
        assert(e1[k] == e2[k]);
        assert(e1.take(n) =~= e1.take(k).push(e1[k]));
        assert(e2.take(n) =~= e2.take(k).push(e2[k]));
    } else {
        assert(e1.take(0) =~= e2.take(0));
    }
}

/// The text of one listing line: address, encoding and mnemonic.
pub struct ListingRow {
    pub address: String,
    pub bytes: String,
    pub text: String,
}

/// The encoding column of an entry that did not decode: the byte in memory,
/// or `??` where it cannot be read.
pub open spec fn raw_byte_text(m: Seq<u8>, a: u16) -> Seq<char> {
    if a < m.len() {
        hex_fixed(m[a as int] as nat, 2)
    } else {
        seq!['?', '?']
    }
}

/// The text of a listing line. A decoded entry shows its encoding and
/// mnemonic; one that failed shows the raw byte at its address and `UNKNOWN`.
pub fn listing_row(entry: &ListingEntry, memory: &AddressSpace) -> (r: ListingRow)
    requires
        memory.wf(),
    ensures
        r.address@ == hex_fixed(entry.address as nat, 4),
        entry.decoded matches Ok(ins) ==> r.bytes@ == hex_run(ins.encoding()) && r.text@ == ins.text(),
        entry.decoded is Err ==> r.bytes@ == raw_byte_text(memory@.bytes, entry.address) && r.text@
            == seq!['U', 'N', 'K', 'N', 'O', 'W', 'N'],
{
    let address = hex_word(entry.address);
    match &entry.decoded {
        Ok(ins) => ListingRow { address, bytes: hex_bytes(&ins.bytes), text: ins.mnemonic.clone() },
        Err(_) => {
            let bytes = match memory.read(entry.address) {
                Ok(b) => hex_byte(b),
                Err(_) => {
                    let mut s = String::new();
                    proof {
                        reveal_strlit("??");
                    }
                    s.append("??");
                    s
                },
            };
            let mut text = String::new();
            proof {
                reveal_strlit("UNKNOWN");
            }
            text.append("UNKNOWN");
            ListingRow { address, bytes, text }
        },
    }
}

/// Where a listing starts: pinned at an address the user chose, or, when not
/// pinned, following the live program counter.
pub struct StartPosition {
    pin: Option<u16>,
}

impl StartPosition {
    /// The pinned address, if any.
    pub closed spec fn pinned(&self) -> Option<u16> {
        self.pin
    }

    /// Not pinned: listings follow the program counter.
    pub fn new() -> (r: StartPosition)
        ensures
            r.pinned() is None,
    {
        StartPosition { pin: None }
    }

    /// The pinned address, if any.
    pub fn pin(&self) -> (r: Option<u16>)
        ensures
            r == self.pinned(),
    {
        self.pin
    }

    /// Pins at the current program counter, or unpins.
    pub fn toggle(&mut self, pc: u16)
        ensures
            old(self).pinned() is None ==> final(self).pinned() == Some(pc),
            old(self).pinned() is Some ==> final(self).pinned() is None,
    {
        self.pin = match self.pin {
            None => Some(pc),
            Some(_) => None,
        };
    }

    /// The address a listing starts from: the pin, else the live program counter.
    pub fn resolve(&self, pc: u16) -> (r: u16)
        ensures
            r == match self.pinned() {
                Some(p) => p,
                None => pc,
            },
    {
        match self.pin {
            Some(p) => p,
            None => pc,
        }
    }

    /// Pins at an address typed in hexadecimal. Fails with `InvalidEncoding`,
    /// changing nothing, where the text is no 16-bit value.
    pub fn set_from_text(&mut self, text: &str) -> (r: Result<(), EmuError>)
        ensures
            is_hex_text(text@, 0xFFFF) ==> r == Ok::<(), EmuError>(()) && final(self).pinned() == Some(
                hex_text_value(text@) as u16,
            ),
            !is_hex_text(text@, 0xFFFF) ==> r == Err::<(), EmuError>(EmuError::InvalidEncoding)
                && final(self).pinned() == old(self).pinned(),
    {
        match parse_hex_u16(text) {
            Some(v) => {
                self.pin = Some(v);
                Ok(())
            },
            None => Err(EmuError::InvalidEncoding),
        }
    }

    /// The pinned address as four hexadecimal digits, if pinned.
    pub fn pin_text(&self) -> (r: Option<String>)
        ensures
            r.is_some() <==> self.pinned().is_some(),
            r.is_some() ==> r.unwrap()@ == hex_fixed(self.pinned().unwrap() as nat, 4),
    {
        match self.pin {
            Some(p) => Some(hex_word(p)),
            None => None,
        }
    }
}

} // verus!
