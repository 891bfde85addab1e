//! The chat command handler.
//!
//! A chat message addressed to the loader starts with `~`. Its first
//! whitespace-separated word, leading tildes stripped, names one of two
//! fixed verbs — `load` and `unload`, each taking a module name — or
//! `ping`. Anything else, including a verb without its name, is ignored.
//! The handler only decides; acting on the decision (loading, unloading,
//! showing a message) is its caller's business.

use vstd::prelude::*;

use crate::pattern::is_space_char;
use crate::plugin::{
    accepted_model, find_named, load_verdict, remove_named, ModuleObservation, PluginLoader,
    UnloadOutcome,
};

verus! {

/// The first position at or after `i` that ends a word: the end of the
/// text or a whitespace character.
pub open spec fn run_end(s: Seq<char>, i: int) -> int
    decreases s.len() - i,
{
    if i < 0 || i >= s.len() || is_space_char(s[i]) {
        i
    } else {
        run_end(s, i + 1)
    }
}

/// The first position at or after `i` holding a non-space character.
pub open spec fn skip_spaces(s: Seq<char>, i: int) -> int
    decreases s.len() - i,
{
    if i < 0 || i >= s.len() || !is_space_char(s[i]) {
        i
    } else {
        skip_spaces(s, i + 1)
    }
}

/// The first position in `[i, end)` holding no tilde.
pub open spec fn skip_tildes(s: Seq<char>, i: int, end: int) -> int
    decreases end - i,
{
    if i < end && 0 <= i < s.len() && s[i] == '~' {
        skip_tildes(s, i + 1, end)
    } else {
        i
    }
}

/// What a message asks for.
pub ghost enum CommandModel {
    Ignored,
    Ping,
    Load(Seq<char>),
    Unload(Seq<char>),
}

/// The command a message denotes. The message must start with `~`; its
/// first word, tildes stripped, picks the verb; `load` and `unload` take
/// the second word as the module name and are ignored without one.
pub open spec fn command_of(s: Seq<char>) -> CommandModel {
    if s.len() == 0 || s[0] != '~' {
        CommandModel::Ignored
    } else {
        let e1 = run_end(s, 0);
        let p = skip_tildes(s, 0, e1);
        let prog = s.subrange(p, e1);
        let s2 = skip_spaces(s, e1);
        let e2 = run_end(s, s2);
        if prog == seq!['p', 'i', 'n', 'g'] {
            CommandModel::Ping
        } else if prog == seq!['l', 'o', 'a', 'd'] {
            if s2 < s.len() {
                CommandModel::Load(s.subrange(s2, e2))
            } else {
                CommandModel::Ignored
            }
        } else if prog == seq!['u', 'n', 'l', 'o', 'a', 'd'] {
            if s2 < s.len() {
                CommandModel::Unload(s.subrange(s2, e2))
            } else {
                CommandModel::Ignored
            }
        } else {
            CommandModel::Ignored
        }
    }
}

/// What a message asks for, with the module name carried along.
#[derive(Debug)]
pub enum Command {
    Ignored,
    Ping,
    Load(String),
    Unload(String),
}

/// The first word's end, found.
fn run_end_exec(msg: &str, from: usize) -> (r: usize)
    requires
        from <= msg@.len(),
    ensures
        from <= r <= msg@.len(),
        r == run_end(msg@, from as int),
{
    let n = msg.unicode_len();
    let mut j: usize = from;
    while j < n
        invariant
            from <= j <= n,
            n == msg@.len(),
            run_end(msg@, from as int) == run_end(msg@, j as int),
        decreases n - j,
    {
        let c = msg.get_char(j);
        if c == ' ' || c == '\t' || c == '\n' || c == '\r' {
            return j;
        }
        j += 1;
    }
    j
}

/// The next word's start, found.
fn skip_spaces_exec(msg: &str, from: usize) -> (r: usize)
    requires
        from <= msg@.len(),
    ensures
        from <= r <= msg@.len(),
        r == skip_spaces(msg@, from as int),
{
    let n = msg.unicode_len();
    let mut j: usize = from;
    while j < n
        invariant
            from <= j <= n,
            n == msg@.len(),
            skip_spaces(msg@, from as int) == skip_spaces(msg@, j as int),
        decreases n - j,
    {
        let c = msg.get_char(j);
        if !(c == ' ' || c == '\t' || c == '\n' || c == '\r') {
            return j;
        }
        j += 1;
    }
    j
}

/// The first non-tilde position of the first word, found.
fn skip_tildes_exec(msg: &str, from: usize, end: usize) -> (r: usize)
    requires
        from <= end <= msg@.len(),
    ensures
        from <= r <= end,
        r == skip_tildes(msg@, from as int, end as int),
{
    let mut j: usize = from;
    while j < end
        invariant
            from <= j <= end,
            end <= msg@.len(),
            skip_tildes(msg@, from as int, end as int) == skip_tildes(msg@, j as int, end as int),
        decreases end - j,
    {
        let c = msg.get_char(j);
        if !(c == '~') {
            return j;
        }
        j += 1;
    }
    j
}

/// The loader's command handler for chat messages.
pub struct CommandHandler {}

impl CommandHandler {
    /// Decide what a chat message asks for.
    pub fn on_message(msg: &str) -> (c: Command)
        ensures
            match command_of(msg@) {
                CommandModel::Ignored => c is Ignored,
                CommandModel::Ping => c is Ping,
                CommandModel::Load(name) => c is Load && c->Load_0@ == name,
                CommandModel::Unload(name) => c is Unload && c->Unload_0@ == name,
            },
    {
        let n = msg.unicode_len();
        if n == 0 {
            return Command::Ignored;
        }
        if !(msg.get_char(0) == '~') {
            return Command::Ignored;
        }
        let e1 = run_end_exec(msg, 0);
        let p = skip_tildes_exec(msg, 0, e1);
        let ghost prog = msg@.subrange(p as int, e1 as int);
        let s2 = skip_spaces_exec(msg, e1);
        let word_len = e1 - p;
        if word_len == 4 && msg.get_char(p) == 'p' && msg.get_char(p + 1) == 'i' && msg.get_char(
            p + 2,
        ) == 'n' && msg.get_char(p + 3) == 'g' {
            proof {
                assert(prog =~= seq!['p', 'i', 'n', 'g']);
            }
            return Command::Ping;
        }
        if word_len == 4 && msg.get_char(p) == 'l' && msg.get_char(p + 1) == 'o' && msg.get_char(
            p + 2,
        ) == 'a' && msg.get_char(p + 3) == 'd' {
            proof {
                assert(prog =~= seq!['l', 'o', 'a', 'd']);
                assert(prog != seq!['p', 'i', 'n', 'g']);
            }
            if s2 == n {
                return Command::Ignored;
            }
            let e2 = run_end_exec(msg, s2);
            let name = msg.substring_char(s2, e2).to_owned();
            return Command::Load(name);
        }
        if word_len == 6 && msg.get_char(p) == 'u' && msg.get_char(p + 1) == 'n' && msg.get_char(
            p + 2,
        ) == 'l' && msg.get_char(p + 3) == 'o' && msg.get_char(p + 4) == 'a' && msg.get_char(
            p + 5,
        ) == 'd' {
            proof {
                assert(prog =~= seq!['u', 'n', 'l', 'o', 'a', 'd']);
                assert(prog != seq!['p', 'i', 'n', 'g']);
                assert(prog != seq!['l', 'o', 'a', 'd']);
            }
            if s2 == n {
                return Command::Ignored;
            }
            let e2 = run_end_exec(msg, s2);
            let name = msg.substring_char(s2, e2).to_owned();
            return Command::Unload(name);
        }
        proof {
            if prog == seq!['p', 'i', 'n', 'g'] {
                assert(prog.len() == 4 && prog[0] == 'p' && prog[1] == 'i' && prog[2] == 'n'
                    && prog[3] == 'g');
                assert(false);
            }
            if prog == seq!['l', 'o', 'a', 'd'] {
                assert(prog.len() == 4 && prog[0] == 'l' && prog[1] == 'o' && prog[2] == 'a'
                    && prog[3] == 'd');
                assert(false);
            }
            if prog == seq!['u', 'n', 'l', 'o', 'a', 'd'] {
                assert(prog.len() == 6 && prog[0] == 'u' && prog[1] == 'n' && prog[2] == 'l'
                    && prog[3] == 'o' && prog[4] == 'a' && prog[5] == 'd');
                assert(false);
            }
        }
        Command::Ignored
    }
}

/// Load a module and word the chat reply: the module's name after
/// "Loaded plugin: " on success, after "Failed to load plugin: " on any
/// rejection, with the active set changed exactly as [`PluginLoader::load`]
/// says.
pub fn do_load(loader: &mut PluginLoader, name: &str, obs: &ModuleObservation) -> (m: String)
    ensures
        load_verdict(*obs) is Accepted ==> final(loader)@ == old(loader)@.push(
            accepted_model(name@, *obs),
        ) && m@ == "Loaded plugin: "@ + name@,
        !(load_verdict(*obs) is Accepted) ==> final(loader)@ == old(loader)@ && m@
            == "Failed to load plugin: "@ + name@,
{
    match loader.load(name, obs) {
        Result::Ok(_) => String::from_str("Loaded plugin: ").concat(name),
        Result::Err(_) => String::from_str("Failed to load plugin: ").concat(name),
    }
}

/// Unload a module and word the chat reply: the module's name after
/// "Unloaded plugin: " on success, after "Failed to unload plugin: "
/// otherwise, with the active set changed exactly as
/// [`PluginLoader::unload`] says.
pub fn do_unload(loader: &mut PluginLoader, name: &str, outcome: &UnloadOutcome) -> (m: String)
    ensures
        ({
            let ok = find_named(old(loader)@, name@) is Some && *outcome
                == UnloadOutcome::Unloaded;
            &&& ok ==> final(loader)@ == remove_named(old(loader)@, name@) && m@
                == "Unloaded plugin: "@ + name@
            &&& !ok ==> final(loader)@ == old(loader)@ && m@ == "Failed to unload plugin: "@
                + name@
        }),
{
    match loader.unload(name, outcome) {
        Result::Ok(_) => String::from_str("Unloaded plugin: ").concat(name),
        Result::Err(_) => String::from_str("Failed to unload plugin: ").concat(name),
    }
}

} // verus!
