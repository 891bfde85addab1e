//! The host's revision: decoding where its text lives, and reading it as a
//! number.
//!
//! The revision function of the host begins, four bytes in, with a
//! `MOV reg, [rip+rel32]` instruction (`48 8B`); the 32-bit displacement
//! that follows its three opcode bytes points, relative to the
//! instruction's end, at the revision text. Reading process memory is the
//! embedding program's job; deciding whether the bytes have that shape,
//! and where they point, is done here, as is parsing the text into a
//! number.

use vstd::prelude::*;

verus! {

/// The number denoted by a big-endian sequence of decimal digits.
pub open spec fn dec_digits_value(d: Seq<char>) -> int
    decreases d.len(),
{
    if d.len() == 0 {
        0
    } else {
        10 * dec_digits_value(d.drop_last()) + (d.last() as int - '0' as int)
    }
}

/// Whether every character is a decimal digit.
pub open spec fn all_dec(d: Seq<char>) -> bool {
    forall|j: int| 0 <= j < d.len() ==> '0' <= d[j] && d[j] <= '9'
}

/// The signed decimal number a text denotes: an optional sign, then at
/// least one digit, with a value that a 32-bit signed integer can hold.
pub open spec fn parse_i32(s: Seq<char>) -> Option<i32> {
    let neg = s.len() > 0 && s[0] == '-';
    let d = if s.len() > 0 && (s[0] == '-' || s[0] == '+') {
        s.skip(1)
    } else {
        s
    };
    if d.len() == 0 || !all_dec(d) {
        None
    } else if neg {
        if dec_digits_value(d) <= 0x8000_0000 {
            Some((-dec_digits_value(d)) as i32)
        } else {
            None
        }
    } else {
        if dec_digits_value(d) <= 0x7FFF_FFFF {
            Some(dec_digits_value(d) as i32)
        } else {
            None
        }
    }
}

/// The value of an all-decimal digit string is never negative.
proof fn lemma_dec_digits_value_nonneg(d: Seq<char>)
    requires
        all_dec(d),
    ensures
        dec_digits_value(d) >= 0,
    decreases d.len(),
{
    if d.len() > 0 {
        assert(all_dec(d.drop_last()));
        lemma_dec_digits_value_nonneg(d.drop_last());
    }
}

/// Read a revision text as a number.
pub fn get_game_revision_int(revision: &str) -> (r: Option<i32>)
    ensures
        r == parse_i32(revision@),
{
    let n = revision.unicode_len();
    let ghost s = revision@;
    let mut neg = false;
    let mut start: usize = 0;
    if n > 0 {
        let c0 = revision.get_char(0);
        if c0 == '-' {
            neg = true;
            start = 1;
        } else if c0 == '+' {
            start = 1;
        }
    }
    let ghost d = if s.len() > 0 && (s[0] == '-' || s[0] == '+') {
        s.skip(1)
    } else {
        s
    };
    proof {
        assert(d =~= s.skip(start as int));
    }
    if n == start {
        return None;
    }
    let mut j: usize = start;
    // `acc` follows the digits' value, saturated just above the 32-bit
    // boundary so that a long text cannot overflow it.
    let mut acc: u64 = 0;
    while j < n
        invariant
            s == revision@,
            n == s.len(),
            start <= j <= n,
            start < n,
            neg == (s.len() > 0 && s[0] == '-'),
            d == (if s.len() > 0 && (s[0] == '-' || s[0] == '+') {
                s.skip(1)
            } else {
                s
            }),
            d == s.skip(start as int),
            all_dec(d.take(j - start)),
            ({
                let v = dec_digits_value(d.take(j - start));
                (v <= 0x8000_0000 && acc == v) || (v > 0x8000_0000 && acc == 0x8000_0001)
            }),
        decreases n - j,
    {
        let c = revision.get_char(j);
        if !('0' <= c && c <= '9') {
            proof {
                assert(d[j - start] == c);
                assert(!all_dec(d));
            }
            return None;
        }
        let dv: u64 = (c as u32 - 48) as u64;
        proof {
            let pre = d.take(j - start);
            let ext = d.take(j + 1 - start);
            assert(ext.drop_last() =~= pre);
            assert(ext.last() == d[j - start]);
            assert(d[j - start] == c);
            lemma_dec_digits_value_nonneg(pre);
        }
        let next: u64 = 10 * acc + dv;
        acc = if next > 0x8000_0001 {
            0x8000_0001
        } else {
            next
        };
        j += 1;
    }
    proof {
        assert(d.take(n - start) =~= d);
        lemma_dec_digits_value_nonneg(d);
    }
    if neg {
        if acc > 0x8000_0000 {
            None
        } else if acc == 0x8000_0000 {
            Some(i32::MIN)
        } else {
            Some(-(acc as i32))
        }
    } else {
        if acc > 0x7FFF_FFFF {
            None
        } else {
            Some(acc as i32)
        }
    }
}

/// The 32-bit two's-complement number held little-endian in four bytes.
pub open spec fn le_i32(b0: u8, b1: u8, b2: u8, b3: u8) -> i32 {
    (b0 + 0x100 * b1 + 0x1_0000 * b2 + 0x100_0000 * b3) as u32 as i32
}

/// Where the revision function's prologue points: when bytes 4 and 5 of
/// the window are the expected opcode, the displacement in bytes 7 to 10,
/// taken relative to the instruction's end (eleven bytes in), names the
/// address of the revision text's pointer.
pub open spec fn revision_source_of(func_addr: u64, window: Seq<u8>) -> Option<u64> {
    if window.len() >= 11 && window[4] == 0x48 && window[5] == 0x8B {
        Some(
            vstd::wrapping::u64_specs::wrapping_add_signed(
                vstd::wrapping::u64_specs::wrapping_add(func_addr, 11),
                le_i32(window[7], window[8], window[9], window[10]) as i64,
            ),
        )
    } else {
        None
    }
}

/// Decode the revision function's prologue. The window holds the first
/// bytes of the function; anything that does not begin with the expected
/// instruction is refused rather than dereferenced.
pub fn decode_revision_source(func_addr: u64, window: &[u8]) -> (r: Option<u64>)
    ensures
        r == revision_source_of(func_addr, window@),
{
    if window.len() < 11 {
        return None;
    }
    if !(window[4] == 0x48 && window[5] == 0x8B) {
        return None;
    }
    let raw: u32 = window[7] as u32 + 0x100 * (window[8] as u32) + 0x1_0000 * (window[9] as u32)
        + 0x100_0000 * (window[10] as u32);
    #[verifier::truncate]
    let rel: i32 = raw as i32;
    proof {
        assert(rel == le_i32(window@[7], window@[8], window@[9], window@[10]));
    }
    Some(func_addr.wrapping_add(11).wrapping_add_signed(rel as i64))
}

} // verus!
