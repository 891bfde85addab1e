//! The surface shared with dynamic modules: result codes, well-known
//! names, and the fixed-capacity result semantics of the scan calls.

use vstd::prelude::*;

use crate::error::MemoryError;

verus! {

/// Result codes of the native interface exposed to modules.
#[derive(Debug, Clone, Copy, PartialEq, Eq, Structural)]
pub enum Code {
    Success,
    InvalidUtf8String,
    NotFound,
    BadPattern,
}

/// The number each code crosses the native boundary as.
pub open spec fn code_value(c: Code) -> int {
    match c {
        Code::Success => 0,
        Code::InvalidUtf8String => 1,
        Code::NotFound => 2,
        Code::BadPattern => 3,
    }
}

impl Code {
    /// The number this code crosses the native boundary as.
    pub fn as_i32(&self) -> (v: i32)
        ensures
            v == code_value(*self),
    {
        match self {
            Code::Success => 0,
            Code::InvalidUtf8String => 1,
            Code::NotFound => 2,
            Code::BadPattern => 3,
        }
    }
}

/// The code a failed scan reports: a malformed pattern is `BadPattern`,
/// everything else is `NotFound`.
pub fn code_of_scan_error(e: &MemoryError) -> (c: Code)
    ensures
        match *e {
            MemoryError::PatternScan(_) => c == Code::BadPattern,
            _ => c == Code::NotFound,
        },
{
    match e {
        MemoryError::PatternScan(_) => Code::BadPattern,
        _ => Code::NotFound,
    }
}

/// Fit scan results into a caller's fixed-capacity buffer: at most
/// `capacity` of the earliest matches are handed over, and the true match
/// count is always reported, even beyond capacity, so the caller can tell
/// that it was truncated and retry with a larger buffer — truncation is
/// explicit, never silent.
pub fn truncate_matches(matches: &Vec<u64>, capacity: usize) -> (r: (Vec<u64>, usize))
    ensures
        r.1 == matches@.len(),
        r.0@ == if capacity < matches@.len() {
            matches@.take(capacity as int)
        } else {
            matches@
        },
{
    let n = matches.len();
    let limit: usize = if capacity < n {
        capacity
    } else {
        n
    };
    let mut out: Vec<u64> = Vec::new();
    let mut i: usize = 0;
    while i < limit
        invariant
            limit <= n,
            n == matches@.len(),
            i <= limit,
            out@.len() == i,
            forall|j: int| 0 <= j < i ==> out@[j] == matches@[j],
        decreases limit - i,
    {
        out.push(matches[i]);
        i += 1;
    }
    proof {
        if capacity < matches@.len() {
            assert(out@ =~= matches@.take(capacity as int));
        } else {
            assert(out@ =~= matches@);
        }
    }
    (out, n)
}

/// A managed address name: a key of the symbol table.
#[derive(Debug, Clone, Copy)]
pub struct AddressName(pub &'static str);

impl AddressName {
    /// The name as text.
    pub fn as_str(&self) -> (r: &'static str)
        ensures
            r@ == self.0@,
    {
        self.0
    }
}

impl AddressName {
    /// The chat subsystem's message-sent entry point.
    pub fn chat_message_sent() -> (r: AddressName)
        ensures
            r.0@ == "Chat:MessageSent"@,
    {
        AddressName("Chat:MessageSent")
    }

    /// The chat subsystem's system-message call.
    pub fn chat_system_message() -> (r: AddressName)
        ensures
            r.0@ == "Chat:SystemMessage"@,
    {
        AddressName("Chat:SystemMessage")
    }

    /// The point reached right after the main object's construction.
    pub fn core_after_mh_main_ctor() -> (r: AddressName)
        ensures
            r.0@ == "Core:AfterMhMainCtor"@,
    {
        AddressName("Core:AfterMhMainCtor")
    }

    /// The function whose prologue points at the host's revision text.
    pub fn core_game_revision() -> (r: AddressName)
        ensures
            r.0@ == "Core:GameRevision"@,
    {
        AddressName("Core:GameRevision")
    }

    /// The main object's constructor.
    pub fn core_mh_main_ctor() -> (r: AddressName)
        ensures
            r.0@ == "Core:MhMainCtor"@,
    {
        AddressName("Core:MhMainCtor")
    }

    /// The common object constructor that every singleton passes through.
    pub fn c_system_ctor() -> (r: AddressName)
        ensures
            r.0@ == "cSystem:Ctor"@,
    {
        AddressName("cSystem:Ctor")
    }
}

/// A well-known type name under which the host keeps a singleton.
#[derive(Debug, Clone, Copy)]
pub struct SingletonName(pub &'static str);

impl SingletonName {
    /// The name as text.
    pub fn as_str(&self) -> (r: &'static str)
        ensures
            r@ == self.0@,
    {
        self.0
    }

    /// The quest subsystem.
    pub fn quest() -> (r: SingletonName)
        ensures
            r.0@ == "sQuest"@,
    {
        SingletonName("sQuest")
    }

    /// The player subsystem.
    pub fn player() -> (r: SingletonName)
        ensures
            r.0@ == "sPlayer"@,
    {
        SingletonName("sPlayer")
    }

    /// The chat subsystem.
    pub fn chat() -> (r: SingletonName)
        ensures
            r.0@ == "sChat"@,
    {
        SingletonName("sChat")
    }

    /// The background-music manager.
    pub fn wwise_bgm_manager() -> (r: SingletonName)
        ensures
            r.0@ == "sWwiseBgmManager"@,
    {
        SingletonName("sWwiseBgmManager")
    }
}

} // verus!
