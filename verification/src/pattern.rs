//! Byte-pattern parsing and scanning.
//!
//! A pattern is a whitespace-separated list of tokens. A token is either a
//! literal byte written as one or two hex digits, or a wildcard (`?`, `??`,
//! `*` or `**`), which matches any one byte. Scanning slides the token list
//! over a byte buffer and reports every offset at which all tokens match.

use vstd::prelude::*;

verus! {

/// One token of a byte pattern: a literal byte that must match exactly, or a
/// wildcard that matches any one byte.
#[derive(Debug, Clone, Copy, PartialEq, Eq, Structural)]
pub enum PatternToken {
    Literal(u8),
    Wildcard,
}

/// How a pattern text can be rejected. An empty pattern and a malformed
/// token are both distinct from a scan that merely finds nothing.
#[derive(Debug, Clone, Copy, PartialEq, Eq, Structural)]
pub enum PatternError {
    EmptyPattern,
    MalformedToken,
}

/// Whether one token accepts one byte.
pub open spec fn token_matches(t: PatternToken, b: u8) -> bool {
    match t {
        PatternToken::Literal(v) => v == b,
        PatternToken::Wildcard => true,
    }
}

/// Whether the whole token list matches the buffer at offset `i`.
pub open spec fn matches_at(buf: Seq<u8>, pat: Seq<PatternToken>, i: int) -> bool {
    &&& 0 <= i
    &&& i + pat.len() <= buf.len()
    &&& forall|j: int| 0 <= j < pat.len() ==> token_matches(pat[j], buf[i + j])
}

/// The earliest offset at or after `i` where the pattern matches.
pub open spec fn first_match_from(buf: Seq<u8>, pat: Seq<PatternToken>, i: int) -> Option<int>
    decreases buf.len() - i,
{
    if i < 0 || i + pat.len() > buf.len() {
        None
    } else if matches_at(buf, pat, i) {
        Some(i)
    } else {
        first_match_from(buf, pat, i + 1)
    }
}

/// The earliest offset where the pattern matches, if any.
pub open spec fn first_match(buf: Seq<u8>, pat: Seq<PatternToken>) -> Option<int> {
    first_match_from(buf, pat, 0)
}

/// The characters treated as token separators.
pub open spec fn is_space_char(c: char) -> bool {
    c == ' ' || c == '\t' || c == '\n' || c == '\r'
}

/// Whether `c` is a hex digit.
pub open spec fn is_hex_digit(c: char) -> bool {
    ('0' <= c && c <= '9') || ('a' <= c && c <= 'f') || ('A' <= c && c <= 'F')
}

/// Numeric value of a hex digit.
pub open spec fn hex_digit_value(c: char) -> int {
    if '0' <= c && c <= '9' {
        c as int - '0' as int
    } else if 'a' <= c && c <= 'f' {
        c as int - 'a' as int + 10
    } else {
        c as int - 'A' as int + 10
    }
}

/// The wildcard spellings. All of them stand for the same token.
pub open spec fn is_wildcard_text(t: Seq<char>) -> bool {
    ||| (t.len() == 1 && (t[0] == '?' || t[0] == '*'))
    ||| (t.len() == 2 && ((t[0] == '?' && t[1] == '?') || (t[0] == '*' && t[1] == '*')))
}

/// A literal byte is written as one or two hex digits.
pub open spec fn is_literal_text(t: Seq<char>) -> bool {
    ||| (t.len() == 1 && is_hex_digit(t[0]))
    ||| (t.len() == 2 && is_hex_digit(t[0]) && is_hex_digit(t[1]))
}

/// The byte value of a literal token text.
pub open spec fn literal_text_value(t: Seq<char>) -> int {
    if t.len() == 1 {
        hex_digit_value(t[0])
    } else {
        16 * hex_digit_value(t[0]) + hex_digit_value(t[1])
    }
}

/// The token denoted by one separator-free token text, if it is well formed.
pub open spec fn token_of_text(t: Seq<char>) -> Option<PatternToken> {
    if is_wildcard_text(t) {
        Some(PatternToken::Wildcard)
    } else if is_literal_text(t) {
        Some(PatternToken::Literal(literal_text_value(t) as u8))
    } else {
        None
    }
}

/// One left-to-right pass over the pattern text: `cur` holds the characters
/// of the token being read. `None` means some token is malformed.
pub open spec fn parse_from(s: Seq<char>, i: int, cur: Seq<char>) -> Option<Seq<PatternToken>>
    decreases s.len() - i,
{
    if i < 0 || i >= s.len() {
        if cur.len() == 0 {
            Some(Seq::empty())
        } else {
            match token_of_text(cur) {
                Option::None => None,
                Option::Some(t) => Some(seq![t]),
            }
        }
    } else if is_space_char(s[i]) {
        if cur.len() == 0 {
            parse_from(s, i + 1, Seq::empty())
        } else {
            match token_of_text(cur) {
                Option::None => None,
                Option::Some(t) => match parse_from(s, i + 1, Seq::empty()) {
                    Option::None => None,
                    Option::Some(rest) => Some(seq![t] + rest),
                },
            }
        }
    } else {
        parse_from(s, i + 1, cur.push(s[i]))
    }
}

/// The token list denoted by a pattern text, or `None` if a token is
/// malformed. An empty list is rejected separately by [`parse_pattern`].
pub open spec fn pattern_tokens(s: Seq<char>) -> Option<Seq<PatternToken>> {
    parse_from(s, 0, Seq::empty())
}

/// Decide whether one token accepts one byte.
pub fn token_matches_byte(t: PatternToken, b: u8) -> (r: bool)
    ensures
        r == token_matches(t, b),
{
    match t {
        PatternToken::Literal(v) => v == b,
        PatternToken::Wildcard => true,
    }
}

/// Decide whether `c` separates tokens.
fn is_space_char_exec(c: char) -> (r: bool)
    ensures
        r == is_space_char(c),
{
    c == ' ' || c == '\t' || c == '\n' || c == '\r'
}

/// Decide whether `c` is a hex digit.
fn is_hex_digit_exec(c: char) -> (r: bool)
    ensures
        r == is_hex_digit(c),
{
    ('0' <= c && c <= '9') || ('a' <= c && c <= 'f') || ('A' <= c && c <= 'F')
}

/// Numeric value of a hex digit.
fn hex_digit_value_exec(c: char) -> (v: u8)
    requires
        is_hex_digit(c),
    ensures
        v as int == hex_digit_value(c),
        v < 16,
{
    let x = c as u32;
    if '0' <= c && c <= '9' {
        (x - 48) as u8
    } else if 'a' <= c && c <= 'f' {
        (x - 97 + 10) as u8
    } else {
        (x - 65 + 10) as u8
    }
}

/// The token denoted by one separator-free token text, if it is well formed.
fn classify_token(cur: &Vec<char>) -> (r: Option<PatternToken>)
    ensures
        r == token_of_text(cur@),
{
    if cur.len() == 1 {
        let c = cur[0];
        if c == '?' || c == '*' {
            Some(PatternToken::Wildcard)
        } else if is_hex_digit_exec(c) {
            Some(PatternToken::Literal(hex_digit_value_exec(c)))
        } else {
            None
        }
    } else if cur.len() == 2 {
        let c0 = cur[0];
        let c1 = cur[1];
        if (c0 == '?' && c1 == '?') || (c0 == '*' && c1 == '*') {
            Some(PatternToken::Wildcard)
        } else if is_hex_digit_exec(c0) && is_hex_digit_exec(c1) {
            let v: u32 = 16 * (hex_digit_value_exec(c0) as u32) + hex_digit_value_exec(c1) as u32;
            Some(PatternToken::Literal(v as u8))
        } else {
            None
        }
    } else {
        None
    }
}

/// Parse a pattern text into its token list. An empty pattern (no tokens at
/// all) and a malformed token are rejected, each with its own error.
pub fn parse_pattern(s: &str) -> (r: Result<Vec<PatternToken>, PatternError>)
    ensures
        match r {
            Result::Ok(v) => pattern_tokens(s@) == Some(v@) && v@.len() > 0,
            Result::Err(e) => match e {
                PatternError::EmptyPattern => pattern_tokens(s@) == Some(Seq::<PatternToken>::empty()),
                PatternError::MalformedToken => pattern_tokens(s@) is None,
            },
        },
{
    let n = s.unicode_len();
    let mut i: usize = 0;
    let mut cur: Vec<char> = Vec::new();
    let mut out: Vec<PatternToken> = Vec::new();
    while i < n
        invariant
            n == s@.len(),
            i <= n,
            match parse_from(s@, i as int, cur@) {
                Option::None => pattern_tokens(s@) is None,
                Option::Some(rest) => pattern_tokens(s@) == Some(out@ + rest),
            },
        decreases n - i,
    {
        let c = s.get_char(i);
        if is_space_char_exec(c) {
            proof {
                if cur@.len() == 0 {
                    assert(cur@ =~= Seq::<char>::empty());
                }
            }
            if cur.len() > 0 {
                match classify_token(&cur) {
                    Option::None => {
                        return Err(PatternError::MalformedToken);
                    },
                    Option::Some(t) => {
                        proof {
                            if parse_from(s@, i as int + 1, Seq::<char>::empty()) is Some {
                                let rest2 = parse_from(s@, i as int + 1, Seq::<char>::empty())->Some_0;
                                assert(out@ + (seq![t] + rest2) =~= out@.push(t) + rest2);
                            }
                        }
                        out.push(t);
                        cur = Vec::new();
                    },
                }
            }
        } else {
            cur.push(c);
        }
        i += 1;
    }
    proof {
        if cur@.len() == 0 {
            assert(cur@ =~= Seq::<char>::empty());
        }
    }
    if cur.len() > 0 {
        match classify_token(&cur) {
            Option::None => {
                return Err(PatternError::MalformedToken);
            },
            Option::Some(t) => {
                proof {
                    assert(out@ + seq![t] =~= out@.push(t));
                }
                out.push(t);
            },
        }
    }
    proof {
        assert(out@ + Seq::<PatternToken>::empty() =~= out@);
    }
    if out.len() == 0 {
        return Err(PatternError::EmptyPattern);
    }
    Ok(out)
}

/// Decide whether the token list matches the buffer at offset `i`.
fn match_here(buf: &[u8], pat: &Vec<PatternToken>, i: usize) -> (b: bool)
    requires
        i + pat@.len() <= buf@.len(),
    ensures
        b == matches_at(buf@, pat@, i as int),
{
    let m = pat.len();
    let blen = buf.len();
    let mut j: usize = 0;
    while j < m
        invariant
            m == pat@.len(),
            blen == buf@.len(),
            i + m <= blen,
            j <= m,
            forall|jj: int| 0 <= jj < j ==> token_matches(pat@[jj], buf@[i + jj]),
        decreases m - j,
    {
        if !token_matches_byte(pat[j], buf[i + j]) {
            return false;
        }
        j += 1;
    }
    true
}

/// Every offset at which the token list matches the buffer, in ascending
/// order, with nothing else.
pub fn scan_tokens(buf: &[u8], pat: &Vec<PatternToken>) -> (r: Vec<usize>)
    requires
        pat@.len() > 0,
    ensures
        forall|k: int| 0 <= k < r@.len() ==> matches_at(buf@, pat@, r@[k] as int),
        forall|k1: int, k2: int| 0 <= k1 < k2 < r@.len() ==> r@[k1] < r@[k2],
        forall|i: int| matches_at(buf@, pat@, i) ==> r@.contains(i as usize),
{
    let mut r: Vec<usize> = Vec::new();
    if pat.len() > buf.len() {
        return r;
    }
    let last = buf.len() - pat.len();
    let mut i: usize = 0;
    while i <= last
        invariant
            pat@.len() > 0,
            buf@.len() <= usize::MAX,
            last == buf@.len() - pat@.len(),
            i <= last + 1,
            forall|k: int| 0 <= k < r@.len() ==> matches_at(buf@, pat@, r@[k] as int),
            forall|k1: int, k2: int| 0 <= k1 < k2 < r@.len() ==> r@[k1] < r@[k2],
            forall|k: int| 0 <= k < r@.len() ==> r@[k] < i,
            forall|ii: int| 0 <= ii < i && matches_at(buf@, pat@, ii) ==> r@.contains(ii as usize),
        decreases last + 1 - i,
    {
        if match_here(buf, pat, i) {
            let ghost old_r = r@;
            r.push(i);
            proof {
                assert forall|ii: int|
                    0 <= ii < i + 1 && matches_at(buf@, pat@, ii) implies r@.contains(
                    ii as usize,
                ) by {
                    if ii < i {
                        let k = choose|k: int|
                            0 <= k < old_r.len() && old_r[k] == ii as usize;
                        assert(r@[k] == ii as usize);
                    } else {
                        assert(r@[r@.len() - 1] == i);
                    }
                }
            }
        }
        i += 1;
    }
    proof {
        assert forall|ii: int| matches_at(buf@, pat@, ii) implies r@.contains(ii as usize) by {
            assert(0 <= ii && ii + pat@.len() <= buf@.len());
        }
    }
    r
}

/// The earliest offset at which the token list matches the buffer, if any.
pub fn scan_first_tokens(buf: &[u8], pat: &Vec<PatternToken>) -> (r: Option<usize>)
    requires
        pat@.len() > 0,
    ensures
        match r {
            Option::Some(i) => first_match(buf@, pat@) == Some(i as int),
            Option::None => first_match(buf@, pat@) is None,
        },
{
    if pat.len() > buf.len() {
        return None;
    }
    let last = buf.len() - pat.len();
    let mut i: usize = 0;
    while i <= last
        invariant
            pat@.len() > 0,
            buf@.len() <= usize::MAX,
            last == buf@.len() - pat@.len(),
            i <= last + 1,
            first_match(buf@, pat@) == first_match_from(buf@, pat@, i as int),
        decreases last + 1 - i,
    {
        if match_here(buf, pat, i) {
            return Some(i);
        }
        i += 1;
    }
    None
}

/// What `first_match_from` returns: a match, earliest at or after `i`, or
/// the guarantee that nothing at or after `i` matches.
pub proof fn lemma_first_match_from_props(buf: Seq<u8>, pat: Seq<PatternToken>, i: int)
    requires
        0 <= i,
    ensures
        match first_match_from(buf, pat, i) {
            Option::Some(k) => i <= k && matches_at(buf, pat, k) && forall|j: int|
                i <= j < k ==> !matches_at(buf, pat, j),
            Option::None => forall|j: int| i <= j ==> !matches_at(buf, pat, j),
        },
    decreases buf.len() - i,
{
    if i + pat.len() > buf.len() {
    } else if !matches_at(buf, pat, i) {
        lemma_first_match_from_props(buf, pat, i + 1);
    }
}

/// What `first_match` returns: the earliest match, or the guarantee that
/// nothing matches.
pub proof fn lemma_first_match_props(buf: Seq<u8>, pat: Seq<PatternToken>)
    ensures
        match first_match(buf, pat) {
            Option::Some(k) => 0 <= k && matches_at(buf, pat, k) && forall|j: int|
                j < k ==> !matches_at(buf, pat, j),
            Option::None => forall|j: int| !matches_at(buf, pat, j),
        },
{
    lemma_first_match_from_props(buf, pat, 0);
}

/// Parse a pattern text and report every match offset in the buffer.
pub fn scan(buf: &[u8], pattern: &str) -> (r: Result<Vec<usize>, PatternError>)
    ensures
        match r {
            Result::Ok(v) => {
                &&& pattern_tokens(pattern@) is Some
                &&& pattern_tokens(pattern@)->Some_0.len() > 0
                &&& forall|k: int|
                    0 <= k < v@.len() ==> matches_at(
                        buf@,
                        pattern_tokens(pattern@)->Some_0,
                        v@[k] as int,
                    )
                &&& forall|k1: int, k2: int| 0 <= k1 < k2 < v@.len() ==> v@[k1] < v@[k2]
                &&& forall|i: int|
                    matches_at(buf@, pattern_tokens(pattern@)->Some_0, i) ==> v@.contains(
                        i as usize,
                    )
            },
            Result::Err(e) => match e {
                PatternError::EmptyPattern => pattern_tokens(pattern@) == Some(
                    Seq::<PatternToken>::empty(),
                ),
                PatternError::MalformedToken => pattern_tokens(pattern@) is None,
            },
        },
{
    let pat = parse_pattern(pattern)?;
    Ok(scan_tokens(buf, &pat))
}

/// Whether every token of the pattern is a literal byte.
pub open spec fn all_literals(pat: Seq<PatternToken>) -> bool {
    forall|j: int| 0 <= j < pat.len() ==> pat[j] is Literal
}

/// The byte sequence spelled out by an all-literal pattern.
pub open spec fn literal_bytes(pat: Seq<PatternToken>) -> Seq<u8> {
    pat.map(|j: int, t: PatternToken| t->Literal_0)
}

/// An all-literal pattern matches at an offset exactly when the buffer holds
/// the pattern's own byte sequence there.
pub proof fn lemma_literal_pattern_matches(buf: Seq<u8>, pat: Seq<PatternToken>, i: int)
    requires
        all_literals(pat),
        0 <= i,
        i + pat.len() <= buf.len(),
    ensures
        matches_at(buf, pat, i) <==> buf.subrange(i, i + pat.len()) == literal_bytes(pat),
{
    if matches_at(buf, pat, i) {
        assert(buf.subrange(i, i + pat.len()) =~= literal_bytes(pat)) by {
            assert forall|j: int|
                0 <= j < pat.len() implies buf.subrange(i, i + pat.len())[j] == literal_bytes(
                pat,
            )[j] by {
                assert(token_matches(pat[j], buf[i + j]));
            }
        }
    }
    if buf.subrange(i, i + pat.len()) == literal_bytes(pat) {
        assert forall|j: int| 0 <= j < pat.len() implies token_matches(pat[j], buf[i + j]) by {
            assert(literal_bytes(pat)[j] == pat[j]->Literal_0);
            assert(buf.subrange(i, i + pat.len())[j] == buf[i + j]);
        }
    }
}

/// If the byte sequence of an all-literal pattern occurs in the buffer at
/// offset `i` and nowhere else, then `i` is the one offset at which the
/// pattern matches.
pub proof fn lemma_literal_pattern_unique(buf: Seq<u8>, pat: Seq<PatternToken>, i: int)
    requires
        all_literals(pat),
        0 <= i,
        i + pat.len() <= buf.len(),
        buf.subrange(i, i + pat.len()) == literal_bytes(pat),
        forall|j: int|
            0 <= j && j != i && j + pat.len() <= buf.len() ==> #[trigger] buf.subrange(
                j,
                j + pat.len(),
            ) != literal_bytes(pat),
    ensures
        forall|j: int| matches_at(buf, pat, j) <==> j == i,
{
    assert forall|j: int| matches_at(buf, pat, j) <==> j == i by {
        if matches_at(buf, pat, j) {
            lemma_literal_pattern_matches(buf, pat, j);
        }
        if j == i {
            lemma_literal_pattern_matches(buf, pat, i);
        }
    }
}

/// When exactly one offset matches, any scan result that is sound,
/// complete and ascending — as [`scan_tokens`] promises — is exactly that
/// one offset; with [`lemma_literal_pattern_unique`], a buffer holding an
/// all-literal pattern's bytes once yields exactly one match.
pub proof fn lemma_single_match_scan_result(
    buf: Seq<u8>,
    pat: Seq<PatternToken>,
    r: Seq<usize>,
    i: int,
)
    requires
        forall|j: int| matches_at(buf, pat, j) <==> j == i,
        forall|k: int| 0 <= k < r.len() ==> matches_at(buf, pat, #[trigger] r[k] as int),
        forall|k1: int, k2: int| 0 <= k1 < k2 < r.len() ==> r[k1] < r[k2],
        forall|j: int| matches_at(buf, pat, j) ==> r.contains(j as usize),
        buf.len() <= usize::MAX,
    ensures
        r == seq![i as usize],
{
    assert(matches_at(buf, pat, i));
    assert(r.contains(i as usize));
    assert forall|k: int| 0 <= k < r.len() implies r[k] == i as usize by {
        assert(matches_at(buf, pat, r[k] as int));
    }
    if r.len() > 1 {
        assert(r[0] < r[1]);
        assert(false);
    }
    assert(r =~= seq![i as usize]);
}

/// Every wildcard spelling denotes the same token, and that token accepts
/// every byte, so one wildcard spelling can replace another anywhere in a
/// pattern without changing what the pattern matches.
pub proof fn lemma_wildcards_interchangeable(t1: Seq<char>, t2: Seq<char>, b: u8)
    requires
        is_wildcard_text(t1),
        is_wildcard_text(t2),
    ensures
        token_of_text(t1) == token_of_text(t2),
        token_of_text(t1) == Some(PatternToken::Wildcard),
        token_matches(PatternToken::Wildcard, b),
{
}

/// A pattern longer than the buffer matches nowhere: every candidate offset
/// is rejected by the length test alone, before any byte is read.
pub proof fn lemma_pattern_longer_than_buffer(buf: Seq<u8>, pat: Seq<PatternToken>)
    requires
        pat.len() > buf.len(),
    ensures
        forall|i: int| !matches_at(buf, pat, i),
        first_match(buf, pat) is None,
{
}

/// Parse a pattern text and report the earliest match offset in the buffer,
/// or `None` if the pattern appears nowhere.
pub fn scan_first_match(buf: &[u8], pattern: &str) -> (r: Result<Option<usize>, PatternError>)
    ensures
        match r {
            Result::Ok(opt) => {
                &&& pattern_tokens(pattern@) is Some
                &&& pattern_tokens(pattern@)->Some_0.len() > 0
                &&& match opt {
                    Option::Some(i) => first_match(buf@, pattern_tokens(pattern@)->Some_0) == Some(
                        i as int,
                    ),
                    Option::None => first_match(buf@, pattern_tokens(pattern@)->Some_0) is None,
                }
            },
            Result::Err(e) => match e {
                PatternError::EmptyPattern => pattern_tokens(pattern@) == Some(
                    Seq::<PatternToken>::empty(),
                ),
                PatternError::MalformedToken => pattern_tokens(pattern@) is None,
            },
        },
{
    let pat = parse_pattern(pattern)?;
    Ok(scan_first_tokens(buf, &pat))
}

} // verus!
