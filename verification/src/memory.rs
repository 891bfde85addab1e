//! Scanning a memory window for a pattern, and the hex helpers around it.
//!
//! The window itself is handed in as a byte slice together with the address
//! of its first byte: obtaining the host image's bounds is the embedding
//! program's job.

use vstd::prelude::*;

use crate::error::MemoryError;
use crate::pattern;
use crate::pattern::{
    is_hex_digit, is_space_char, is_wildcard_text, hex_digit_value, lemma_first_match_props,
    matches_at, pattern_tokens, first_match, PatternError,
};

verus! {

/// A token with its optional leading plus sign removed.
pub open spec fn sign_stripped(t: Seq<char>) -> Seq<char> {
    if t.len() > 0 && t[0] == '+' {
        t.skip(1)
    } else {
        t
    }
}

/// Whether every character is a hex digit.
pub open spec fn all_hex(d: Seq<char>) -> bool {
    forall|j: int| 0 <= j < d.len() ==> is_hex_digit(d[j])
}

/// The number denoted by a big-endian sequence of hex digits.
pub open spec fn hex_digits_value(d: Seq<char>) -> int
    decreases d.len(),
{
    if d.len() == 0 {
        0
    } else {
        16 * hex_digits_value(d.drop_last()) + hex_digit_value(d.last())
    }
}

/// The byte denoted by a hex token: an optional `+`, then at least one hex
/// digit, with a value no larger than one byte can hold.
pub open spec fn hex_byte_of_token(t: Seq<char>) -> Option<u8> {
    let d = sign_stripped(t);
    if d.len() == 0 {
        None
    } else if !all_hex(d) {
        None
    } else if hex_digits_value(d) > 255 {
        None
    } else {
        Some(hex_digits_value(d) as u8)
    }
}

/// The byte a token stands for: any wildcard spelling becomes `0xFF`, and
/// anything else must be a hex byte.
pub open spec fn placeholder_byte_of_token(t: Seq<char>) -> Option<u8> {
    if is_wildcard_text(t) {
        Some(0xFF)
    } else {
        hex_byte_of_token(t)
    }
}

/// One left-to-right pass over a hex text: `cur` holds the characters of
/// the token being read. `None` means some token is malformed. An input
/// with no tokens at all denotes the empty byte sequence.
pub open spec fn space_hex_from(s: Seq<char>, i: int, cur: Seq<char>) -> Option<Seq<u8>>
    decreases s.len() - i,
{
    if i < 0 || i >= s.len() {
        if cur.len() == 0 {
            Some(Seq::empty())
        } else {
            match placeholder_byte_of_token(cur) {
                Option::None => None,
                Option::Some(b) => Some(seq![b]),
            }
        }
    } else if is_space_char(s[i]) {
        if cur.len() == 0 {
            space_hex_from(s, i + 1, Seq::empty())
        } else {
            match placeholder_byte_of_token(cur) {
                Option::None => None,
                Option::Some(b) => match space_hex_from(s, i + 1, Seq::empty()) {
                    Option::None => None,
                    Option::Some(rest) => Some(seq![b] + rest),
                },
            }
        }
    } else {
        space_hex_from(s, i + 1, cur.push(s[i]))
    }
}

/// The byte sequence denoted by a whitespace-separated hex text, with any
/// wildcard token standing for `0xFF`.
pub open spec fn space_hex_bytes(s: Seq<char>) -> Option<Seq<u8>> {
    space_hex_from(s, 0, Seq::empty())
}

/// The value of an all-hex digit string is never negative.
proof fn lemma_hex_digits_value_nonneg(d: Seq<char>)
    requires
        all_hex(d),
    ensures
        hex_digits_value(d) >= 0,
    decreases d.len(),
{
    if d.len() > 0 {
        assert(all_hex(d.drop_last()));
        lemma_hex_digits_value_nonneg(d.drop_last());
    }
}

/// The byte a token stands for, decided.
fn token_placeholder_byte(cur: &Vec<char>) -> (r: Option<u8>)
    ensures
        r == placeholder_byte_of_token(cur@),
{
    let wild: bool = if cur.len() == 1 {
        let c = cur[0];
        c == '?' || c == '*'
    } else if cur.len() == 2 {
        let c0 = cur[0];
        let c1 = cur[1];
        (c0 == '?' && c1 == '?') || (c0 == '*' && c1 == '*')
    } else {
        false
    };
    assert(wild == is_wildcard_text(cur@));
    if wild {
        return Some(0xFF);
    }
    let start: usize = if cur.len() > 0 && cur[0] == '+' {
        1
    } else {
        0
    };
    let ghost d = sign_stripped(cur@);
    proof {
        assert(d =~= cur@.skip(start as int));
    }
    if cur.len() == start {
        return None;
    }
    let n = cur.len();
    let mut j: usize = start;
    // `acc` follows the value of the digits read so far, saturated at 256 so
    // that a long token cannot overflow it.
    let mut acc: u32 = 0;
    while j < n
        invariant
            n == cur@.len(),
            start <= j <= n,
            start < n,
            !is_wildcard_text(cur@),
            d == sign_stripped(cur@),
            d == cur@.skip(start as int),
            all_hex(d.take(j - start)),
            ({
                let v = hex_digits_value(d.take(j - start));
                (v <= 255 && acc == v) || (v > 255 && acc == 256)
            }),
        decreases n - j,
    {
        let c = cur[j];
        if !(('0' <= c && c <= '9') || ('a' <= c && c <= 'f') || ('A' <= c && c <= 'F')) {
            proof {
                assert(d[j - start] == c);
                assert(!all_hex(d));
            }
            return None;
        }
        let dv: u32 = {
            let x = c as u32;
            if '0' <= c && c <= '9' {
                x - 48
            } else if 'a' <= c && c <= 'f' {
                x - 97 + 10
            } else {
                x - 65 + 10
            }
        };
        proof {
            let pre = d.take(j - start);
            let ext = d.take(j + 1 - start);
            assert(ext.drop_last() =~= pre);
            assert(ext.last() == d[j - start]);
            assert(d[j - start] == c);
            lemma_hex_digits_value_nonneg(pre);
        }
        let next: u32 = 16 * acc + dv;
        acc = if next > 256 {
            256
        } else {
            next
        };
        j += 1;
    }
    proof {
        assert(d.take(n - start) =~= d);
        lemma_hex_digits_value_nonneg(d);
    }
    if acc > 255 {
        None
    } else {
        Some(acc as u8)
    }
}

/// Turn a whitespace-separated hex text into bytes, with every wildcard
/// token (`?`, `??`, `*`, `**`) standing for the byte `0xFF`.
pub fn space_hex_to_bytes(text_hex: &str) -> (r: Result<Vec<u8>, String>)
    ensures
        match r {
            Result::Ok(v) => space_hex_bytes(text_hex@) == Some(v@),
            Result::Err(m) => space_hex_bytes(text_hex@) is None && m@ == "failed to parse hex byte"@,
        },
{
    let n = text_hex.unicode_len();
    let mut i: usize = 0;
    let mut cur: Vec<char> = Vec::new();
    let mut out: Vec<u8> = Vec::new();
    while i < n
        invariant
            n == text_hex@.len(),
            i <= n,
            match space_hex_from(text_hex@, i as int, cur@) {
                Option::None => space_hex_bytes(text_hex@) is None,
                Option::Some(rest) => space_hex_bytes(text_hex@) == Some(out@ + rest),
            },
        decreases n - i,
    {
        let c = text_hex.get_char(i);
        if c == ' ' || c == '\t' || c == '\n' || c == '\r' {
            proof {
                if cur@.len() == 0 {
                    assert(cur@ =~= Seq::<char>::empty());
                }
            }
            if cur.len() > 0 {
                match token_placeholder_byte(&cur) {
                    Option::None => {
                        return Err(String::from_str("failed to parse hex byte"));
                    },
                    Option::Some(b) => {
                        proof {
                            if space_hex_from(text_hex@, i as int + 1, Seq::<char>::empty())
                                is Some {
                                let rest2 = space_hex_from(
                                    text_hex@,
                                    i as int + 1,
                                    Seq::<char>::empty(),
                                )->Some_0;
                                assert(out@ + (seq![b] + rest2) =~= out@.push(b) + rest2);
                            }
                        }
                        out.push(b);
                        cur = Vec::new();
                    },
                }
            }
        } else {
            cur.push(c);
        }
        i += 1;
    }
    proof {
        if cur@.len() == 0 {
            assert(cur@ =~= Seq::<char>::empty());
        }
    }
    if cur.len() > 0 {
        match token_placeholder_byte(&cur) {
            Option::None => {
                return Err(String::from_str("failed to parse hex byte"));
            },
            Option::Some(b) => {
                proof {
                    assert(out@ + seq![b] =~= out@.push(b));
                }
                out.push(b);
            },
        }
    }
    proof {
        assert(out@ + Seq::<u8>::empty() =~= out@);
    }
    Ok(out)
}

/// Scan the window for the earliest match of the pattern and return its
/// address: the window's base address plus the match offset.
pub fn scan_first(buffer: &[u8], base: u64, pattern_text: &str) -> (r: Result<u64, MemoryError>)
    requires
        base + buffer@.len() <= u64::MAX,
    ensures
        match r {
            Result::Ok(addr) => {
                &&& pattern_tokens(pattern_text@) is Some
                &&& first_match(buffer@, pattern_tokens(pattern_text@)->Some_0) is Some
                &&& addr == base + first_match(buffer@, pattern_tokens(pattern_text@)->Some_0)->Some_0
            },
            Result::Err(e) => match e {
                MemoryError::NotFound => pattern_tokens(pattern_text@) is Some && first_match(
                    buffer@,
                    pattern_tokens(pattern_text@)->Some_0,
                ) is None,
                MemoryError::PatternScan(pe) => match pe {
                    PatternError::EmptyPattern => pattern_tokens(pattern_text@) == Some(
                        Seq::<pattern::PatternToken>::empty(),
                    ),
                    PatternError::MalformedToken => pattern_tokens(pattern_text@) is None,
                },
                _ => false,
            },
        },
{
    match pattern::scan_first_match(buffer, pattern_text) {
        Result::Err(e) => Err(MemoryError::PatternScan(e)),
        Result::Ok(opt) => match opt {
            Option::Some(off) => {
                proof {
                    lemma_first_match_props(buffer@, pattern_tokens(pattern_text@)->Some_0);
                }
                Ok(base + (off as u64))
            },
            Option::None => Err(MemoryError::NotFound),
        },
    }
}

/// Scan the window for every match of the pattern and return their
/// addresses in ascending order. Finding nothing is an error, as with
/// [`scan_first`].
pub fn scan_all(buffer: &[u8], base: u64, pattern_text: &str) -> (r: Result<Vec<u64>, MemoryError>)
    requires
        base + buffer@.len() <= u64::MAX,
    ensures
        match r {
            Result::Ok(v) => {
                &&& pattern_tokens(pattern_text@) is Some
                &&& v@.len() > 0
                &&& forall|k: int|
                    0 <= k < v@.len() ==> v@[k] >= base && matches_at(
                        buffer@,
                        pattern_tokens(pattern_text@)->Some_0,
                        v@[k] - base,
                    )
                &&& forall|k1: int, k2: int| 0 <= k1 < k2 < v@.len() ==> v@[k1] < v@[k2]
                &&& forall|i: int|
                    matches_at(buffer@, pattern_tokens(pattern_text@)->Some_0, i) ==> v@.contains(
                        (base + i) as u64,
                    )
            },
            Result::Err(e) => match e {
                MemoryError::NotFound => pattern_tokens(pattern_text@) is Some && forall|i: int|
                    !matches_at(buffer@, pattern_tokens(pattern_text@)->Some_0, i),
                MemoryError::PatternScan(pe) => match pe {
                    PatternError::EmptyPattern => pattern_tokens(pattern_text@) == Some(
                        Seq::<pattern::PatternToken>::empty(),
                    ),
                    PatternError::MalformedToken => pattern_tokens(pattern_text@) is None,
                },
                _ => false,
            },
        },
{
    let offsets = match pattern::scan(buffer, pattern_text) {
        Result::Err(e) => {
            return Err(MemoryError::PatternScan(e));
        },
        Result::Ok(v) => v,
    };
    if offsets.len() == 0 {
        return Err(MemoryError::NotFound);
    }
    let window_len = buffer.len();
    let mut result: Vec<u64> = Vec::new();
    let n = offsets.len();
    let mut k: usize = 0;
    while k < n
        invariant
            n == offsets@.len(),
            k <= n,
            base + buffer@.len() <= u64::MAX,
            window_len == buffer@.len(),
            forall|j: int| 0 <= j < n ==> offsets@[j] <= buffer@.len(),
            result@.len() == k,
            forall|j: int| 0 <= j < k ==> result@[j] == base + offsets@[j],
        decreases n - k,
    {
        result.push(base + (offsets[k] as u64));
        k += 1;
    }
    proof {
        let toks = pattern_tokens(pattern_text@)->Some_0;
        assert forall|i: int| matches_at(buffer@, toks, i) implies result@.contains(
            (base + i) as u64,
        ) by {
            assert(0 <= i && i <= buffer@.len());
            assert(buffer@.len() <= usize::MAX);
            assert(offsets@.contains(i as usize));
            let j = choose|j: int| 0 <= j < offsets@.len() && offsets@[j] == i as usize;
            assert(offsets@[j] == i);
            assert(result@[j] == (base + i) as u64);
        }
    }
    Ok(result)
}

} // verus!
