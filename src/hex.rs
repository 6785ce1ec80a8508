//! Hexadecimal text: parsing of user-entered values and fixed-width rendering.
use vstd::prelude::*;

verus! {

/// Whether `c` is an ASCII hexadecimal digit, in either case.
pub open spec fn is_hex_digit(c: char) -> bool {
    ('0' <= c && c <= '9') || ('a' <= c && c <= 'f') || ('A' <= c && c <= 'F')
}

/// The value of a hexadecimal digit.
pub open spec fn digit_value(c: char) -> nat {
    if '0' <= c && c <= '9' {
        (c as nat - '0' as nat) as nat
    } else if 'a' <= c && c <= 'f' {
        (c as nat - 'a' as nat + 10) as nat
    } else {
        (c as nat - 'A' as nat + 10) as nat
    }
}

/// The number that a string of hexadecimal digits denotes, most significant first.
pub open spec fn hex_value(s: Seq<char>) -> nat
    decreases s.len(),
{
    if s.len() == 0 {
        0
    } else {
        hex_value(s.drop_last()) * 16 + digit_value(s.last())
    }
}

/// The digits of an unsigned number's text: a single leading `+` is allowed.
pub open spec fn unsigned_digits(s: Seq<char>) -> Seq<char> {
    if s.len() > 0 && s[0] == '+' {
        s.drop_first()
    } else {
        s
    }
}

/// Whether `s` is the text of an unsigned hexadecimal number no larger than `max`:
/// an optional `+`, then at least one hexadecimal digit.
pub open spec fn is_hex_text(s: Seq<char>, max: nat) -> bool {
    let d = unsigned_digits(s);
    &&& d.len() > 0
    &&& forall|i: int| 0 <= i < d.len() ==> is_hex_digit(#[trigger] d[i])
    &&& hex_value(d) <= max
}

/// The value of hexadecimal text accepted by `is_hex_text`.
pub open spec fn hex_text_value(s: Seq<char>) -> nat {
    hex_value(unsigned_digits(s))
}

/// The upper-case character of a digit value below 16.
pub open spec fn hex_char(d: nat) -> char {
    if d < 10 {
        (('0' as nat) + d) as char
    } else {
        (('A' as nat) + d - 10) as char
    }
}

/// The last `width` hexadecimal digits of `v`, upper case, zero-padded.
pub open spec fn hex_fixed(v: nat, width: nat) -> Seq<char>
    decreases width,
{
    if width == 0 {
        Seq::empty()
    } else {
        hex_fixed(v / 16, (width - 1) as nat).push(hex_char(v % 16))
    }
}

/// The value of a prefix of a digit string is at most that of a longer prefix.
proof fn lemma_hex_value_prefix_grows(s: Seq<char>, j: int, k: int)
    requires
        0 <= j <= k <= s.len(),
    ensures
        hex_value(s.take(j)) <= hex_value(s.take(k)),
    decreases k - j,
{
    if j < k {
        lemma_hex_value_prefix_grows(s, j, k - 1);
        assert(s.take(k).drop_last() =~= s.take(k - 1));
    }
}

fn digit_of(c: char) -> (r: Option<u32>)
    ensures
        is_hex_digit(c) <==> r.is_some(),
        r.is_some() ==> r.unwrap() as nat == digit_value(c) && r.unwrap() < 16,
{
    if '0' <= c && c <= '9' {
        Some(c as u32 - '0' as u32)
    } else if 'a' <= c && c <= 'f' {
        Some(c as u32 - 'a' as u32 + 10)
    } else if 'A' <= c && c <= 'F' {
        Some(c as u32 - 'A' as u32 + 10)
    } else {
        None
    }
}

/// Parses unsigned hexadecimal text no larger than `max`.
fn parse_hex(s: &str, max: u32) -> (r: Option<u32>)
    requires
        max <= 0xFFFF,
    ensures
        r.is_some() <==> is_hex_text(s@, max as nat),
        r.is_some() ==> r.unwrap() as nat == hex_text_value(s@),
{
    let n = s.unicode_len();
    let mut i: usize = 0;
    if n > 0 && s.get_char(0) == '+' {
        i = 1;
    }
    let start = i;
    let ghost d = unsigned_digits(s@);
    assert(d =~= s@.skip(start as int));
    if i == n {
        return None;
    }
    let mut value: u32 = 0;
    while i < n
        invariant
            start <= i <= n,
            n == s@.len(),
            d =~= s@.skip(start as int),
            d == unsigned_digits(s@),
            max <= 0xFFFF,
            value as nat == hex_value(d.take(i - start)),
            value <= max,
            forall|k: int| 0 <= k < i - start ==> is_hex_digit(#[trigger] d[k]),
        decreases n - i,
    {
        let c = s.get_char(i);
        let dv = digit_of(c);
        match dv {
            None => {
                assert(d[i - start] == c);
                assert(!is_hex_digit(d[i - start]));
                return None;
            },
            Some(x) => {
                assert(d.take(i - start + 1).drop_last() =~= d.take(i - start));
                let next = value * 16 + x;
                if next > max {
                    proof {
                        lemma_hex_value_prefix_grows(d, i - start + 1, d.len() as int);
                        assert(d.take(d.len() as int) =~= d);
                    }
                    return None;
                }
                value = next;
                i = i + 1;
            },
        }
    }
    assert(d.take(d.len() as int) =~= d);
    Some(value)
}

/// Parses a byte written in hexadecimal (`u8::from_str_radix(s, 16)`).
pub fn parse_hex_u8(s: &str) -> (r: Option<u8>)
    ensures
        r.is_some() <==> is_hex_text(s@, 0xFF),
        r.is_some() ==> r.unwrap() as nat == hex_text_value(s@),
{
    match parse_hex(s, 0xFF) {
        Some(v) => Some(v as u8),
        None => None,
    }
}

/// Parses a 16-bit word written in hexadecimal (`u16::from_str_radix(s, 16)`).
pub fn parse_hex_u16(s: &str) -> (r: Option<u16>)
    ensures
        r.is_some() <==> is_hex_text(s@, 0xFFFF),
        r.is_some() ==> r.unwrap() as nat == hex_text_value(s@),
{
    match parse_hex(s, 0xFFFF) {
        Some(v) => Some(v as u16),
        None => None,
    }
}

fn digit_str(d: u32) -> (r: &'static str)
    requires
        d < 16,
    ensures
        r@ == seq![hex_char(d as nat)],
{
    let digits: &'static str = "0123456789ABCDEF";
    proof {
        reveal_strlit("0123456789ABCDEF");
    }
    digits.substring_char(d as usize, d as usize + 1)
}

/// Appends the last `width` hexadecimal digits of `v` to `out`.
fn push_hex_fixed(out: &mut String, v: u32, width: usize)
    ensures
        final(out)@ == old(out)@ + hex_fixed(v as nat, width as nat),
    decreases width,
{
    if width > 0 {
        push_hex_fixed(out, v / 16, width - 1);
        out.append(digit_str(v % 16));
    } else {
        assert(old(out)@ + hex_fixed(v as nat, 0) =~= old(out)@);
    }
}

/// Two upper-case hexadecimal digits of a byte (`{:02X}`).
pub fn hex_byte(b: u8) -> (r: String)
    ensures
        r@ == hex_fixed(b as nat, 2),
{
    let mut s = String::new();
    push_hex_fixed(&mut s, b as u32, 2);
    assert(s@ =~= hex_fixed(b as nat, 2));
    s
}

/// Four upper-case hexadecimal digits of a word (`{:04X}`).
pub fn hex_word(w: u16) -> (r: String)
    ensures
        r@ == hex_fixed(w as nat, 4),
{
    let mut s = String::new();
    push_hex_fixed(&mut s, w as u32, 4);
    assert(s@ =~= hex_fixed(w as nat, 4));
    s
}

/// The bytes of an instruction as one run of two-digit groups.
pub fn hex_bytes(bytes: &Vec<u8>) -> (r: String)
    ensures
        r@ == hex_run(bytes@),
{
    let mut s = String::new();
    let mut i: usize = 0;
    while i < bytes.len()
        invariant
            i <= bytes@.len(),
            s@ == hex_run(bytes@.take(i as int)),
        decreases bytes@.len() - i,
    {
        push_hex_fixed(&mut s, bytes[i] as u32, 2);
        assert(bytes@.take(i + 1).drop_last() =~= bytes@.take(i as int));
        i = i + 1;
    }
    assert(bytes@.take(bytes@.len() as int) =~= bytes@);
    s
}

/// Two hexadecimal digits for each byte, in order.
pub open spec fn hex_run(b: Seq<u8>) -> Seq<char>
    decreases b.len(),
{
    if b.len() == 0 {
        Seq::empty()
    } else {
        hex_run(b.drop_last()) + hex_fixed(b.last() as nat, 2)
    }
}

/// The hexadecimal digits of `v` without padding (`{:X}`): one digit below
/// 16, more as needed.
pub open spec fn hex_min(v: nat) -> Seq<char>
    decreases v,
{
    if v < 16 {
        seq![hex_char(v)]
    } else {
        hex_min(v / 16).push(hex_char(v % 16))
    }
}

fn push_hex_min(out: &mut String, v: u32)
    ensures
        final(out)@ == old(out)@ + hex_min(v as nat),
    decreases v,
{
    if v >= 16 {
        push_hex_min(out, v / 16);
    }
    out.append(digit_str(v % 16));
    proof {
        if v < 16 {
            assert(v % 16 == v);
        }
    }
}

/// The digits of `v` in upper-case hexadecimal, without padding (`{:X}`).
pub fn hex_unpadded(v: u32) -> (r: String)
    ensures
        r@ == hex_min(v as nat),
{
    let mut s = String::new();
    push_hex_min(&mut s, v);
    assert(s@ =~= hex_min(v as nat));
    s
}

} // verus!
