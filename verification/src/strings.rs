//! UTF-16 encoding, for the wide-string calls of the platform layer.

use vstd::prelude::*;

verus! {

/// The UTF-16 code units of one character: code points below `0x10000`
/// are one unit, the rest become a surrogate pair.
pub open spec fn utf16_units(c: char) -> Seq<u16> {
    if (c as int) < 0x10000 {
        seq![c as u16]
    } else {
        seq![
            (0xD800 + (c as int - 0x10000) / 0x400) as u16,
            (0xDC00 + (c as int - 0x10000) % 0x400) as u16,
        ]
    }
}

/// The UTF-16 code units of a whole text, in order.
pub open spec fn utf16_of(s: Seq<char>) -> Seq<u16>
    decreases s.len(),
{
    if s.len() == 0 {
        Seq::empty()
    } else {
        utf16_of(s.drop_last()) + utf16_units(s.last())
    }
}

/// Encode a text as UTF-16 code units, without a terminator.
pub fn to_wstring_bytes(s: &str) -> (r: Vec<u16>)
    ensures
        r@ == utf16_of(s@),
{
    let n = s.unicode_len();
    let mut out: Vec<u16> = Vec::new();
    let mut i: usize = 0;
    while i < n
        invariant
            n == s@.len(),
            i <= n,
            out@ == utf16_of(s@.take(i as int)),
        decreases n - i,
    {
        proof {
            assert(s@.take(i + 1).drop_last() =~= s@.take(i as int));
            assert(s@.take(i + 1).last() == s@[i as int]);
        }
        let c = s.get_char(i);
        let x = c as u32;
        if x < 0x10000 {
            out.push(x as u16);
            proof {
                assert(out@ =~= utf16_of(s@.take(i + 1)));
            }
        } else {
            let v = x - 0x10000;
            out.push((0xD800 + v / 0x400) as u16);
            out.push((0xDC00 + v % 0x400) as u16);
            proof {
                assert(out@ =~= utf16_of(s@.take(i + 1)));
            }
        }
        i += 1;
    }
    proof {
        assert(s@.take(n as int) =~= s@);
    }
    out
}

/// Encode a text as UTF-16 code units, with one terminating zero unit.
pub fn to_wstring_bytes_with_nul(s: &str) -> (r: Vec<u16>)
    ensures
        r@ == utf16_of(s@).push(0),
{
    let mut out = to_wstring_bytes(s);
    out.push(0);
    out
}

} // verus!
