//! The version triple of the loader's plugin contract.

use vstd::prelude::*;

verus! {

/// Major version of the plugin contract offered by this runtime. A module
/// that reports a different nonzero major version is rejected at load time.
pub const REQUIRED_MAJOR: i32 = 1;

/// Minor version of the plugin contract; informational only.
pub const RUNTIME_MINOR: i32 = 0;

/// Patch version of the plugin contract; informational only.
pub const RUNTIME_PATCH: i32 = 0;

/// A `{major, minor, patch}` version triple, exchanged with dynamic modules
/// over a stable native layout. Breaking changes bump `major`; `minor` and
/// `patch` are informational.
#[derive(Debug, Clone, Copy, PartialEq, Eq, Structural)]
pub struct LoaderVersion {
    pub major: i32,
    pub minor: i32,
    pub patch: i32,
}

impl Default for LoaderVersion {
    /// The all-zero triple, which also stands for "no version reported".
    fn default() -> (r: Self)
        ensures
            r == (LoaderVersion { major: 0, minor: 0, patch: 0 }),
    {
        LoaderVersion { major: 0, minor: 0, patch: 0 }
    }
}

/// The version of the loader runtime itself.
pub fn get_version() -> (v: LoaderVersion)
    ensures
        v == (LoaderVersion { major: REQUIRED_MAJOR, minor: RUNTIME_MINOR, patch: RUNTIME_PATCH }),
{
    LoaderVersion { major: REQUIRED_MAJOR, minor: RUNTIME_MINOR, patch: RUNTIME_PATCH }
}

/// The character of one decimal digit.
pub open spec fn digit_char(d: int) -> char {
    if d == 0 {
        '0'
    } else if d == 1 {
        '1'
    } else if d == 2 {
        '2'
    } else if d == 3 {
        '3'
    } else if d == 4 {
        '4'
    } else if d == 5 {
        '5'
    } else if d == 6 {
        '6'
    } else if d == 7 {
        '7'
    } else if d == 8 {
        '8'
    } else {
        '9'
    }
}

/// The decimal spelling of a nonnegative number.
pub open spec fn dec_chars(n: int) -> Seq<char>
    decreases n,
{
    if n < 10 {
        seq![digit_char(n)]
    } else {
        dec_chars(n / 10).push(digit_char(n % 10))
    }
}

/// The decimal spelling of a signed number.
pub open spec fn dec_chars_signed(n: int) -> Seq<char> {
    if n >= 0 {
        dec_chars(n)
    } else {
        seq!['-'] + dec_chars(-n)
    }
}

/// One decimal digit as text.
fn digit_str(d: u32) -> (r: &'static str)
    requires
        d < 10,
    ensures
        r@ == seq![digit_char(d as int)],
{
    proof {
        reveal_strlit("0");
        reveal_strlit("1");
        reveal_strlit("2");
        reveal_strlit("3");
        reveal_strlit("4");
        reveal_strlit("5");
        reveal_strlit("6");
        reveal_strlit("7");
        reveal_strlit("8");
        reveal_strlit("9");
    }
    let r = match d {
        0 => "0",
        1 => "1",
        2 => "2",
        3 => "3",
        4 => "4",
        5 => "5",
        6 => "6",
        7 => "7",
        8 => "8",
        _ => "9",
    };
    proof {
        assert(r@ =~= seq![digit_char(d as int)]);
    }
    r
}

/// The decimal spelling of a nonnegative number, built.
fn u32_dec_string(n: u32) -> (s: String)
    ensures
        s@ == dec_chars(n as int),
    decreases n,
{
    if n < 10 {
        digit_str(n).to_owned()
    } else {
        let s = u32_dec_string(n / 10).concat(digit_str(n % 10));
        proof {
            assert(dec_chars(n as int / 10) + seq![digit_char(n as int % 10)] =~= dec_chars(
                n as int,
            ));
        }
        s
    }
}

/// The decimal spelling of a signed number, built.
fn i32_dec_string(n: i32) -> (s: String)
    ensures
        s@ == dec_chars_signed(n as int),
{
    if n >= 0 {
        u32_dec_string(n as u32)
    } else {
        let magnitude: u32 = if n == i32::MIN {
            0x8000_0000
        } else {
            (-n) as u32
        };
        let s = String::from_str("-").concat(u32_dec_string(magnitude).as_str());
        proof {
            reveal_strlit("-");
            assert("-"@ =~= seq!['-']);
        }
        s
    }
}

impl LoaderVersion {
    /// The version as text: the three parts in decimal, dot-separated.
    pub fn version_string(&self) -> (s: String)
        ensures
            s@ == dec_chars_signed(self.major as int) + seq!['.'] + dec_chars_signed(
                self.minor as int,
            ) + seq!['.'] + dec_chars_signed(self.patch as int),
    {
        proof {
            reveal_strlit(".");
            assert("."@ =~= seq!['.']);
        }
        i32_dec_string(self.major).concat(".").concat(i32_dec_string(self.minor).as_str()).concat(
            ".",
        ).concat(i32_dec_string(self.patch).as_str())
    }
}

} // verus!
