//! The command grammar shared by the REPL and the terminal frontend's `:` line: a subcommand
//! name, its positional arguments in order (the trailing ones optional), `-f`/`--force` where
//! the subcommand takes it, `-h`/`--help` anywhere, and `--` to end the options.

use vstd::prelude::*;
use crate::text::{chars_eq, chars_of, string_of};

verus! {

/// Why a command line does not name a command.
#[derive(Debug, Clone, PartialEq, Eq)]
pub enum ParseError {
    /// No subcommand was given.
    MissingSubcommand,
    /// The first word names no subcommand.
    UnknownSubcommand(String),
    /// An option the subcommand does not take, or a positional argument too many.
    UnexpectedArgument(String),
    /// A required positional argument is missing.
    MissingArgument,
    /// A flag was given twice.
    RepeatedFlag(String),
    /// Help was asked for.
    Help,
    /// The version was asked for.
    Version,
}

/// What a scan of a subcommand's arguments can stop on.
pub enum ScanError {
    /// An option not taken, or a positional argument beyond the last.
    Unexpected(Seq<char>),
    /// A flag given twice.
    Repeated(Seq<char>),
    /// `-h` or `--help`.
    Help,
    /// `-V` or `--version`.
    Version,
}

/// The scan so far: positional arguments, whether `--force` was seen, whether `--` was seen.
pub type ScanState = (Seq<Seq<char>>, bool, bool);

/// Whether `t` is an option word: `-` followed by anything.
pub open spec fn is_option(t: Seq<char>) -> bool {
    t.len() > 1 && t[0] == '-'
}

/// One word of a subcommand's arguments, given the state before it.
pub open spec fn scan_step(st: Result<ScanState, ScanError>, t: Seq<char>, max: nat, force_ok: bool, version_ok: bool) -> Result<ScanState, ScanError> {
    match st {
        Err(e) => Err(e),
        Ok((pos, force, dashdash)) => {
            if !dashdash && t == "--"@ {
                Ok((pos, force, true))
            } else if !dashdash && (t == "-h"@ || t == "--help"@) {
                Err(ScanError::Help)
            } else if !dashdash && version_ok && (t == "-V"@ || t == "--version"@) {
                Err(ScanError::Version)
            } else if !dashdash && force_ok && (t == "-f"@ || t == "--force"@) {
                if force {
                    Err(ScanError::Repeated(t))
                } else {
                    Ok((pos, true, dashdash))
                }
            } else if !dashdash && is_option(t) {
                Err(ScanError::Unexpected(t))
            } else if pos.len() >= max {
                Err(ScanError::Unexpected(t))
            } else {
                Ok((pos.push(t), force, dashdash))
            }
        },
    }
}

/// The scan of the words `ts`, left to right.
pub open spec fn scan(ts: Seq<Seq<char>>, max: nat, force_ok: bool, version_ok: bool) -> Result<ScanState, ScanError>
    decreases ts.len(),
{
    if ts.len() == 0 {
        Ok((Seq::empty(), false, false))
    } else {
        scan_step(scan(ts.drop_last(), max, force_ok, version_ok), ts.last(), max, force_ok, version_ok)
    }
}

/// The views of a list of strings.
pub open spec fn word_views(v: Seq<String>) -> Seq<Seq<char>> {
    v.map_values(|s: String| s@)
}

/// Whether `t` is the literal `lit`.
fn is_word(t: &Vec<char>, lit: &str) -> (b: bool)
    ensures
        b == (t@ == lit@),
{
    let l = chars_of(lit);
    chars_eq(t, &l)
}

/// A scan that has stopped stays stopped: the words after do not change its outcome.
proof fn lemma_scan_stops(ts: Seq<Seq<char>>, k: int, max: nat, force_ok: bool, version_ok: bool)
    requires
        0 <= k <= ts.len(),
        scan(ts.subrange(0, k), max, force_ok, version_ok) is Err,
    ensures
        scan(ts, max, force_ok, version_ok) == scan(ts.subrange(0, k), max, force_ok, version_ok),
    decreases ts.len() - k,
{
    if k < ts.len() {
        assert(ts.subrange(0, k + 1).drop_last() =~= ts.subrange(0, k));
        lemma_scan_stops(ts, k + 1, max, force_ok, version_ok);
    } else {
        assert(ts.subrange(0, k) =~= ts);
    }
}

/// A scan never takes more positional arguments than allowed.
proof fn lemma_scan_bound(ts: Seq<Seq<char>>, max: nat, force_ok: bool, version_ok: bool)
    ensures
        scan(ts, max, force_ok, version_ok) matches Ok((pos, _, _)) ==> pos.len() <= max,
    decreases ts.len(),
{
    if ts.len() > 0 {
        lemma_scan_bound(ts.drop_last(), max, force_ok, version_ok);
    }
}

/// Scans `words[start..]` as a subcommand's arguments, taking at most `max` positionals.
pub fn scan_args(words: &Vec<String>, start: usize, max: usize, force_ok: bool, version_ok: bool) -> (r: Result<(Vec<String>, bool), ParseError>)
    requires
        start <= words@.len(),
    ensures
        match scan(word_views(words@).subrange(start as int, words@.len() as int), max as nat, force_ok, version_ok) {
            Ok((pos, force, _)) => r matches Ok((p, f)) && word_views(p@) == pos && f == force,
            Err(ScanError::Help) => r == Err::<(Vec<String>, bool), ParseError>(ParseError::Help),
            Err(ScanError::Version) => r == Err::<(Vec<String>, bool), ParseError>(ParseError::Version),
            Err(ScanError::Unexpected(t)) => r matches Err(ParseError::UnexpectedArgument(s)) && s@ == t,
            Err(ScanError::Repeated(t)) => r matches Err(ParseError::RepeatedFlag(s)) && s@ == t,
        },
{
    let ghost ws = word_views(words@).subrange(start as int, words@.len() as int);
    let mut pos: Vec<String> = Vec::new();
    let mut force = false;
    let mut dashdash = false;
    let mut i = start;
    assert(ws.subrange(0, 0) =~= Seq::<Seq<char>>::empty());
    assert(word_views(pos@) =~= Seq::<Seq<char>>::empty());
    while i < words.len()
        invariant
            start <= i <= words@.len(),
            ws == word_views(words@).subrange(start as int, words@.len() as int),
            scan(ws.subrange(0, i - start), max as nat, force_ok, version_ok) == Ok::<ScanState, ScanError>((word_views(pos@), force, dashdash)),
        decreases words.len() - i,
    {
        let ghost prefix = ws.subrange(0, i - start);
        assert(ws.subrange(0, i + 1 - start).drop_last() =~= prefix);
        assert(ws[i - start] == words@[i as int]@);
        let t = chars_of(words[i].as_str());
        if !dashdash && is_word(&t, "--") {
            dashdash = true;
        } else if !dashdash && (is_word(&t, "-h") || is_word(&t, "--help")) {
            proof {
                lemma_scan_stops(ws, i + 1 - start, max as nat, force_ok, version_ok);
            }
            return Err(ParseError::Help);
        } else if !dashdash && version_ok && (is_word(&t, "-V") || is_word(&t, "--version")) {
            proof {
                lemma_scan_stops(ws, i + 1 - start, max as nat, force_ok, version_ok);
            }
            return Err(ParseError::Version);
        } else if !dashdash && force_ok && (is_word(&t, "-f") || is_word(&t, "--force")) {
            if force {
                proof {
                lemma_scan_stops(ws, i + 1 - start, max as nat, force_ok, version_ok);
            }
            return Err(ParseError::RepeatedFlag(words[i].clone()));
            }
            force = true;
        } else if !dashdash && t.len() > 1 && t[0] == '-' {
            proof {
                lemma_scan_stops(ws, i + 1 - start, max as nat, force_ok, version_ok);
            }
            return Err(ParseError::UnexpectedArgument(words[i].clone()));
        } else if pos.len() >= max {
            proof {
                lemma_scan_stops(ws, i + 1 - start, max as nat, force_ok, version_ok);
            }
            return Err(ParseError::UnexpectedArgument(words[i].clone()));
        } else {
            let ghost before = word_views(pos@);
            pos.push(words[i].clone());
            assert(word_views(pos@) =~= before.push(t@));
        }
        i = i + 1;
    }
    assert(ws.subrange(0, i - start) =~= ws);
    Ok((pos, force))
}

/// The `k`-th positional argument, if given.
fn nth(pos: &Vec<String>, k: usize) -> (r: Option<String>)
    ensures
        match r {
            Some(s) => k < pos@.len() && s@ == pos@[k as int]@,
            None => k >= pos@.len(),
        },
{
    if k < pos.len() {
        Some(pos[k].clone())
    } else {
        None
    }
}

/// The optional view of an optional string.
pub open spec fn opt_word(o: Option<String>) -> Option<Seq<char>> {
    match o {
        Some(s) => Some(s@),
        None => None,
    }
}

/// The `k`-th of `pos`, if there is one.
pub open spec fn nth_word(pos: Seq<Seq<char>>, k: int) -> Option<Seq<char>> {
    if 0 <= k < pos.len() {
        Some(pos[k])
    } else {
        None
    }
}

/// A subcommand of the REPL.
#[derive(Debug, Clone, PartialEq, Eq)]
pub enum Commands {
    /// List the working directory, or the vaults at the top level.
    Ls,
    /// List the vaults.
    Vaults,
    /// Make a vault the working vault, at its root.
    Select { vault: String },
    /// Register a vault; without a path, launch the creation wizard.
    New { path: Option<String> },
    /// Change the working directory; at the top level, select the working vault.
    Cd { path: Option<String> },
    /// Put a file inside a vault.
    Put { path: String, vault: Option<String>, dest: Option<String> },
    /// Get an object out of a vault.
    Get { path: String, vault: Option<String>, dest: Option<String> },
    /// Delete an object.
    Delete { path: String, vault: Option<String>, force: bool },
    /// Copy an object.
    Cp { path: String, destination: String, vault: Option<String> },
    /// Move an object.
    Mv { path: String, destination: String, vault: Option<String> },
    /// Push the local vault into a vault.
    Push { vault: Option<String> },
    /// Pull from an origin onto the local vault.
    Pull { vault: Option<String> },
    /// Leave the REPL.
    Exit,
}

/// The positional arguments a REPL subcommand takes (required, optional) and whether it takes
/// `--force`; `None` for a name that is no subcommand.
pub open spec fn cli_shape(name: Seq<char>) -> Option<(nat, nat, bool)> {
    if name == "ls"@ || name == "vaults"@ || name == "exit"@ {
        Some((0, 0, false))
    } else if name == "select"@ {
        Some((1, 0, false))
    } else if name == "new"@ || name == "cd"@ || name == "push"@ || name == "pull"@ {
        Some((0, 1, false))
    } else if name == "put"@ || name == "get"@ {
        Some((1, 2, false))
    } else if name == "delete"@ {
        Some((1, 1, true))
    } else if name == "cp"@ || name == "mv"@ {
        Some((2, 1, false))
    } else {
        None
    }
}

/// Whether `c` is the REPL command `name` applied to the positional arguments `pos` (with
/// `force` for `delete`).
pub open spec fn cli_command_is(c: Commands, name: Seq<char>, pos: Seq<Seq<char>>, force: bool) -> bool {
    match c {
        Commands::Ls => name == "ls"@,
        Commands::Vaults => name == "vaults"@,
        Commands::Exit => name == "exit"@,
        Commands::Select { vault } => name == "select"@ && vault@ == pos[0],
        Commands::New { path } => name == "new"@ && opt_word(path) == nth_word(pos, 0),
        Commands::Cd { path } => name == "cd"@ && opt_word(path) == nth_word(pos, 0),
        Commands::Push { vault } => name == "push"@ && opt_word(vault) == nth_word(pos, 0),
        Commands::Pull { vault } => name == "pull"@ && opt_word(vault) == nth_word(pos, 0),
        Commands::Put { path, vault, dest } => name == "put"@ && path@ == pos[0] && opt_word(vault) == nth_word(pos, 1)
            && opt_word(dest) == nth_word(pos, 2),
        Commands::Get { path, vault, dest } => name == "get"@ && path@ == pos[0] && opt_word(vault) == nth_word(pos, 1)
            && opt_word(dest) == nth_word(pos, 2),
        Commands::Delete { path, vault, force: f } => name == "delete"@ && path@ == pos[0] && opt_word(vault) == nth_word(pos, 1)
            && f == force,
        Commands::Cp { path, destination, vault } => name == "cp"@ && path@ == pos[0] && destination@ == pos[1]
            && opt_word(vault) == nth_word(pos, 2),
        Commands::Mv { path, destination, vault } => name == "mv"@ && path@ == pos[0] && destination@ == pos[1]
            && opt_word(vault) == nth_word(pos, 2),
    }
}

/// The outcome of parsing the words of a line in which the subcommand's name is `words[0]`:
/// the subcommand and its scanned arguments, or the error.
pub open spec fn parse_outcome(
    words: Seq<Seq<char>>,
    shape: Option<(nat, nat, bool)>,
    version_ok: bool,
) -> Result<(Seq<Seq<char>>, bool), ParseError> {
    if words.len() == 0 {
        Err(ParseError::MissingSubcommand)
    } else {
        let name = words[0];
        if name == "-h"@ || name == "--help"@ || name == "help"@ {
            Err(ParseError::Help)
        } else if version_ok && (name == "-V"@ || name == "--version"@) {
            Err(ParseError::Version)
        } else {
            match shape {
                None => if is_option(name) || name == "--"@ {
                    Err(ParseError::UnexpectedArgument(arbitrary()))
                } else {
                    Err(ParseError::UnknownSubcommand(arbitrary()))
                },
                Some((req, opt, force_ok)) => match scan(words.subrange(1, words.len() as int), req + opt, force_ok, version_ok) {
                    Ok((pos, force, _)) => if pos.len() < req {
                        Err(ParseError::MissingArgument)
                    } else {
                        Ok((pos, force))
                    },
                    Err(ScanError::Help) => Err(ParseError::Help),
                    Err(ScanError::Version) => Err(ParseError::Version),
                    Err(_) => Err(ParseError::UnexpectedArgument(arbitrary())),
                },
            }
        }
    }
}

/// Which error variant `e` is, ignoring its text.
pub open spec fn same_kind(e: ParseError, f: ParseError) -> bool {
    match (e, f) {
        (ParseError::MissingSubcommand, ParseError::MissingSubcommand) => true,
        (ParseError::UnknownSubcommand(_), ParseError::UnknownSubcommand(_)) => true,
        (ParseError::UnexpectedArgument(_), ParseError::UnexpectedArgument(_)) => true,
        (ParseError::UnexpectedArgument(_), ParseError::RepeatedFlag(_)) => true,
        (ParseError::RepeatedFlag(_), ParseError::UnexpectedArgument(_)) => true,
        (ParseError::RepeatedFlag(_), ParseError::RepeatedFlag(_)) => true,
        (ParseError::MissingArgument, ParseError::MissingArgument) => true,
        (ParseError::Help, ParseError::Help) => true,
        (ParseError::Version, ParseError::Version) => true,
        _ => false,
    }
}

/// A parsed REPL line.
#[derive(Debug, Clone, PartialEq, Eq)]
pub struct Cli {
    /// The subcommand.
    pub command: Commands,
}

/// The shape of the REPL subcommand called `name`.
fn cli_shape_of(name: &Vec<char>) -> (r: Option<(usize, usize, bool)>)
    ensures
        match r {
            Some((a, b, f)) => cli_shape(name@) == Some((a as nat, b as nat, f)),
            None => cli_shape(name@) is None,
        },
{
    if is_word(name, "ls") || is_word(name, "vaults") || is_word(name, "exit") {
        Some((0, 0, false))
    } else if is_word(name, "select") {
        Some((1, 0, false))
    } else if is_word(name, "new") || is_word(name, "cd") || is_word(name, "push") || is_word(name, "pull") {
        Some((0, 1, false))
    } else if is_word(name, "put") || is_word(name, "get") {
        Some((1, 2, false))
    } else if is_word(name, "delete") {
        Some((1, 1, true))
    } else if is_word(name, "cp") || is_word(name, "mv") {
        Some((2, 1, false))
    } else {
        None
    }
}

/// The subcommand and scanned arguments of `words` (the binary's name already dropped).
fn parse_words(
    words: &Vec<String>,
    shape: Option<(usize, usize, bool)>,
    version_ok: bool,
) -> (r: Result<(Vec<String>, bool), ParseError>)
    requires
        words@.len() > 0 ==> match shape {
            Some((a, b, _)) => a + b <= usize::MAX,
            None => true,
        },
    ensures
        match parse_outcome(word_views(words@), match shape {
            Some((a, b, f)) => Some((a as nat, b as nat, f)),
            None => None,
        }, version_ok) {
            Ok((pos, force)) => r matches Ok((p, f)) && word_views(p@) == pos && f == force,
            Err(e) => r matches Err(g) && same_kind(g, e),
        },
        r matches Ok((p, _)) ==> (shape matches Some((a, b, _)) && a <= p@.len() <= a + b),
{
    if words.len() == 0 {
        return Err(ParseError::MissingSubcommand);
    }
    let name = chars_of(words[0].as_str());
    assert(word_views(words@)[0] == words@[0]@);
    if is_word(&name, "-h") || is_word(&name, "--help") || is_word(&name, "help") {
        return Err(ParseError::Help);
    }
    if version_ok && (is_word(&name, "-V") || is_word(&name, "--version")) {
        return Err(ParseError::Version);
    }
    match shape {
        None => {
            if (name.len() > 1 && name[0] == '-') || is_word(&name, "--") {
                Err(ParseError::UnexpectedArgument(words[0].clone()))
            } else {
                Err(ParseError::UnknownSubcommand(words[0].clone()))
            }
        },
        Some((req, opt, force_ok)) => {
            assert(word_views(words@).subrange(1, words@.len() as int) =~= word_views(words@).subrange(1, words@.len() as int));
            proof {
                lemma_scan_bound(word_views(words@).subrange(1, words@.len() as int), (req + opt) as nat, force_ok, version_ok);
            }
            match scan_args(words, 1, req + opt, force_ok, version_ok) {
                Ok((pos, force)) => {
                    if pos.len() < req {
                        Err(ParseError::MissingArgument)
                    } else {
                        Ok((pos, force))
                    }
                },
                Err(e) => Err(e),
            }
        },
    }
}

impl Cli {
    /// Parses a REPL line's words, the first being the binary's name.
    pub fn try_parse_from(args: Vec<&str>) -> (r: Result<Cli, ParseError>)
        ensures
            args@.len() == 0 ==> r == Err::<Cli, ParseError>(ParseError::MissingSubcommand),
            args@.len() > 0 ==> {
                let words = args@.subrange(1, args@.len() as int).map_values(|a: &str| a@);
                match parse_outcome(words, if words.len() > 0 { cli_shape(words[0]) } else { None }, true) {
                    Ok((pos, force)) => r matches Ok(c) && cli_command_is(c.command, words[0], pos, force),
                    Err(e) => r matches Err(g) && same_kind(g, e),
                }
            },
    {
        if args.len() == 0 {
            return Err(ParseError::MissingSubcommand);
        }
        let mut words: Vec<String> = Vec::new();
        let mut i: usize = 1;
        while i < args.len()
            invariant
                1 <= i <= args@.len(),
                word_views(words@) == args@.subrange(1, i as int).map_values(|a: &str| a@),
            decreases args.len() - i,
        {
            let ghost before = word_views(words@);
            words.push(String::from_str(args[i]));
            assert(word_views(words@) =~= before.push(args@[i as int]@));
            i = i + 1;
            assert(args@.subrange(1, i as int).map_values(|a: &str| a@) =~= args@.subrange(1, i - 1).map_values(|a: &str| a@).push(args@[i - 1]@));
        }
        let ghost wv = word_views(words@);
        let shape = if words.len() > 0 {
            let name = chars_of(words[0].as_str());
            assert(wv[0] == words@[0]@);
            cli_shape_of(&name)
        } else {
            None
        };
        let (pos, force) = match parse_words(&words, shape, true) {
            Ok(x) => x,
            Err(e) => return Err(e),
        };
        let name = chars_of(words[0].as_str());
        assert(wv[0] == name@);
        let command = build_cli_command(&name, &pos, force);
        Ok(Cli { command })
    }
}

/// The REPL command `name` applied to its positional arguments.
fn build_cli_command(name: &Vec<char>, pos: &Vec<String>, force: bool) -> (c: Commands)
    requires
        cli_shape(name@) matches Some((req, opt, _)) && req <= pos@.len() <= req + opt,
    ensures
        cli_command_is(c, name@, word_views(pos@), force),
{
    proof {
        reveal_strlit("ls");
        reveal_strlit("vaults");
        reveal_strlit("exit");
        reveal_strlit("select");
        reveal_strlit("new");
        reveal_strlit("cd");
        reveal_strlit("push");
        reveal_strlit("pull");
        reveal_strlit("put");
        reveal_strlit("get");
        reveal_strlit("delete");
        reveal_strlit("cp");
        reveal_strlit("mv");
    }
    if is_word(name, "ls") {
        Commands::Ls
    } else if is_word(name, "vaults") {
        Commands::Vaults
    } else if is_word(name, "exit") {
        Commands::Exit
    } else if is_word(name, "select") {
        Commands::Select { vault: pos[0].clone() }
    } else if is_word(name, "new") {
        Commands::New { path: nth(pos, 0) }
    } else if is_word(name, "cd") {
        Commands::Cd { path: nth(pos, 0) }
    } else if is_word(name, "push") {
        Commands::Push { vault: nth(pos, 0) }
    } else if is_word(name, "pull") {
        Commands::Pull { vault: nth(pos, 0) }
    } else if is_word(name, "put") {
        Commands::Put { path: pos[0].clone(), vault: nth(pos, 1), dest: nth(pos, 2) }
    } else if is_word(name, "get") {
        Commands::Get { path: pos[0].clone(), vault: nth(pos, 1), dest: nth(pos, 2) }
    } else if is_word(name, "delete") {
        Commands::Delete { path: pos[0].clone(), vault: nth(pos, 1), force }
    } else if is_word(name, "cp") {
        Commands::Cp { path: pos[0].clone(), destination: pos[1].clone(), vault: nth(pos, 2) }
    } else {
        Commands::Mv { path: pos[0].clone(), destination: pos[1].clone(), vault: nth(pos, 2) }
    }
}

impl ParseError {
    /// The message shown for the error.
    pub open spec fn message_spec(&self) -> Seq<char> {
        match self {
            ParseError::MissingSubcommand => "error: a subcommand is required but one was not provided"@,
            ParseError::UnknownSubcommand(s) => "error: unrecognized subcommand '"@ + s@ + "'"@,
            ParseError::UnexpectedArgument(s) => "error: unexpected argument '"@ + s@ + "' found"@,
            ParseError::MissingArgument => "error: the following required arguments were not provided"@,
            ParseError::RepeatedFlag(s) => "error: the argument '"@ + s@ + "' cannot be used multiple times"@,
            ParseError::Help => "type `help` for the list of commands"@,
            ParseError::Version => "nimbus "@ + crate::VERSION@,
        }
    }

    /// The message shown for the error.
    pub fn message(&self) -> (r: String)
        ensures
            r@ == self.message_spec(),
    {
        match self {
            ParseError::MissingSubcommand => String::from_str("error: a subcommand is required but one was not provided"),
            ParseError::UnknownSubcommand(s) => crate::text::cat3("error: unrecognized subcommand '", s.as_str(), "'"),
            ParseError::UnexpectedArgument(s) => crate::text::cat3("error: unexpected argument '", s.as_str(), "' found"),
            ParseError::MissingArgument => String::from_str("error: the following required arguments were not provided"),
            ParseError::RepeatedFlag(s) => crate::text::cat3("error: the argument '", s.as_str(), "' cannot be used multiple times"),
            ParseError::Help => String::from_str("type `help` for the list of commands"),
            ParseError::Version => crate::text::cat("nimbus ", crate::VERSION),
        }
    }
}

/// An operation of the terminal frontend, as its `:` line names it and its key bindings send.
#[derive(Debug, Clone, PartialEq, Eq)]
pub enum AppEvent {
    /// List the working directory, or the vaults at the top level.
    Ls,
    /// List the vaults.
    Vaults,
    /// Make a vault the working vault, at its root.
    Select { vault: String },
    /// Register a vault; without a path, launch the creation wizard.
    New { path: Option<String> },
    /// Change the working directory; at the top level, select the working vault.
    Cd { path: Option<String> },
    /// Put a file inside a vault.
    Put { path: String, vault: Option<String>, dest: Option<String> },
    /// Get an object out of a vault.
    Get { path: String, vault: Option<String>, dest: Option<String> },
    /// Create a directory.
    Mkdir { path: String, vault: Option<String> },
    /// Create an empty file.
    Touch { path: String, vault: Option<String> },
    /// Stop tracking a vault.
    Forget { vault: String },
    /// Rename an object in place.
    Rename { path: String, new_name: String, vault: Option<String> },
    /// Delete an object.
    Delete { path: String, vault: Option<String>, force: bool },
    /// Copy an object.
    Cp { path: String, destination: String, vault: Option<String> },
    /// Move an object.
    Mv { path: String, destination: String, vault: Option<String> },
    /// Push the local vault into a vault.
    Push { vault: Option<String> },
    /// Pull from an origin onto the local vault.
    Pull { vault: Option<String> },
    /// Quit the application (also `exit`).
    Quit,
}

/// The positional arguments a `:` command takes (required, optional) and whether it takes
/// `--force`; `None` for a name that is no command.
pub open spec fn event_shape(name: Seq<char>) -> Option<(nat, nat, bool)> {
    if name == "ls"@ || name == "vaults"@ || name == "quit"@ || name == "exit"@ {
        Some((0, 0, false))
    } else if name == "select"@ || name == "forget"@ {
        Some((1, 0, false))
    } else if name == "new"@ || name == "cd"@ || name == "push"@ || name == "pull"@ {
        Some((0, 1, false))
    } else if name == "put"@ || name == "get"@ {
        Some((1, 2, false))
    } else if name == "mkdir"@ || name == "touch"@ {
        Some((1, 1, false))
    } else if name == "delete"@ {
        Some((1, 1, true))
    } else if name == "rename"@ || name == "cp"@ || name == "mv"@ {
        Some((2, 1, false))
    } else {
        None
    }
}

/// Whether `e` is the `:` command `name` applied to `pos` (with `force` for `delete`).
pub open spec fn event_is(e: AppEvent, name: Seq<char>, pos: Seq<Seq<char>>, force: bool) -> bool {
    match e {
        AppEvent::Ls => name == "ls"@,
        AppEvent::Vaults => name == "vaults"@,
        AppEvent::Quit => name == "quit"@ || name == "exit"@,
        AppEvent::Select { vault } => name == "select"@ && vault@ == pos[0],
        AppEvent::Forget { vault } => name == "forget"@ && vault@ == pos[0],
        AppEvent::New { path } => name == "new"@ && opt_word(path) == nth_word(pos, 0),
        AppEvent::Cd { path } => name == "cd"@ && opt_word(path) == nth_word(pos, 0),
        AppEvent::Push { vault } => name == "push"@ && opt_word(vault) == nth_word(pos, 0),
        AppEvent::Pull { vault } => name == "pull"@ && opt_word(vault) == nth_word(pos, 0),
        AppEvent::Put { path, vault, dest } => name == "put"@ && path@ == pos[0] && opt_word(vault) == nth_word(pos, 1)
            && opt_word(dest) == nth_word(pos, 2),
        AppEvent::Get { path, vault, dest } => name == "get"@ && path@ == pos[0] && opt_word(vault) == nth_word(pos, 1)
            && opt_word(dest) == nth_word(pos, 2),
        AppEvent::Mkdir { path, vault } => name == "mkdir"@ && path@ == pos[0] && opt_word(vault) == nth_word(pos, 1),
        AppEvent::Touch { path, vault } => name == "touch"@ && path@ == pos[0] && opt_word(vault) == nth_word(pos, 1),
        AppEvent::Delete { path, vault, force: f } => name == "delete"@ && path@ == pos[0] && opt_word(vault) == nth_word(pos, 1)
            && f == force,
        AppEvent::Rename { path, new_name, vault } => name == "rename"@ && path@ == pos[0] && new_name@ == pos[1]
            && opt_word(vault) == nth_word(pos, 2),
        AppEvent::Cp { path, destination, vault } => name == "cp"@ && path@ == pos[0] && destination@ == pos[1]
            && opt_word(vault) == nth_word(pos, 2),
        AppEvent::Mv { path, destination, vault } => name == "mv"@ && path@ == pos[0] && destination@ == pos[1]
            && opt_word(vault) == nth_word(pos, 2),
    }
}

/// The shape of the `:` command called `name`.
fn event_shape_of(name: &Vec<char>) -> (r: Option<(usize, usize, bool)>)
    ensures
        match r {
            Some((a, b, f)) => event_shape(name@) == Some((a as nat, b as nat, f)),
            None => event_shape(name@) is None,
        },
{
    if is_word(name, "ls") || is_word(name, "vaults") || is_word(name, "quit") || is_word(name, "exit") {
        Some((0, 0, false))
    } else if is_word(name, "select") || is_word(name, "forget") {
        Some((1, 0, false))
    } else if is_word(name, "new") || is_word(name, "cd") || is_word(name, "push") || is_word(name, "pull") {
        Some((0, 1, false))
    } else if is_word(name, "put") || is_word(name, "get") {
        Some((1, 2, false))
    } else if is_word(name, "mkdir") || is_word(name, "touch") {
        Some((1, 1, false))
    } else if is_word(name, "delete") {
        Some((1, 1, true))
    } else if is_word(name, "rename") || is_word(name, "cp") || is_word(name, "mv") {
        Some((2, 1, false))
    } else {
        None
    }
}

/// The `:` command `name` applied to its positional arguments.
fn build_event(name: &Vec<char>, pos: &Vec<String>, force: bool) -> (e: AppEvent)
    requires
        event_shape(name@) matches Some((req, opt, _)) && req <= pos@.len() <= req + opt,
    ensures
        event_is(e, name@, word_views(pos@), force),
{
    if is_word(name, "ls") {
        AppEvent::Ls
    } else if is_word(name, "vaults") {
        AppEvent::Vaults
    } else if is_word(name, "quit") || is_word(name, "exit") {
        AppEvent::Quit
    } else if is_word(name, "select") {
        AppEvent::Select { vault: pos[0].clone() }
    } else if is_word(name, "forget") {
        AppEvent::Forget { vault: pos[0].clone() }
    } else if is_word(name, "new") {
        AppEvent::New { path: nth(pos, 0) }
    } else if is_word(name, "cd") {
        AppEvent::Cd { path: nth(pos, 0) }
    } else if is_word(name, "push") {
        AppEvent::Push { vault: nth(pos, 0) }
    } else if is_word(name, "pull") {
        AppEvent::Pull { vault: nth(pos, 0) }
    } else if is_word(name, "put") {
        AppEvent::Put { path: pos[0].clone(), vault: nth(pos, 1), dest: nth(pos, 2) }
    } else if is_word(name, "get") {
        AppEvent::Get { path: pos[0].clone(), vault: nth(pos, 1), dest: nth(pos, 2) }
    } else if is_word(name, "mkdir") {
        AppEvent::Mkdir { path: pos[0].clone(), vault: nth(pos, 1) }
    } else if is_word(name, "touch") {
        AppEvent::Touch { path: pos[0].clone(), vault: nth(pos, 1) }
    } else if is_word(name, "delete") {
        AppEvent::Delete { path: pos[0].clone(), vault: nth(pos, 1), force }
    } else if is_word(name, "rename") {
        AppEvent::Rename { path: pos[0].clone(), new_name: pos[1].clone(), vault: nth(pos, 2) }
    } else if is_word(name, "cp") {
        AppEvent::Cp { path: pos[0].clone(), destination: pos[1].clone(), vault: nth(pos, 2) }
    } else {
        AppEvent::Mv { path: pos[0].clone(), destination: pos[1].clone(), vault: nth(pos, 2) }
    }
}

/// Parses a `:` line's text, split on white space, into the event it names, or the message of
/// why it names none.
pub fn parse(line: &str) -> (r: Result<AppEvent, String>)
    ensures
        ({
            let words = crate::wrap::words(line@);
            match parse_outcome(words, if words.len() > 0 { event_shape(words[0]) } else { None }, false) {
                Ok((pos, force)) => r matches Ok(e) && event_is(e, words[0], pos, force),
                Err(e) => r matches Err(m) && exists|g: ParseError| same_kind(g, e) && m@ == g.message_spec(),
            }
        }),
{
    let chars = chars_of(line);
    let ws = crate::wrap::split_words(&chars);
    let mut words: Vec<String> = Vec::new();
    let mut i: usize = 0;
    while i < ws.len()
        invariant
            i <= ws@.len(),
            chars@ == line@,
            ws@.len() == crate::wrap::words(chars@).len(),
            forall|j: int| 0 <= j < ws@.len() ==> #[trigger] ws@[j]@ == crate::wrap::words(chars@)[j],
            word_views(words@) == crate::wrap::words(chars@).subrange(0, i as int),
        decreases ws.len() - i,
    {
        let ghost before = word_views(words@);
        words.push(string_of(&ws[i]));
        assert(word_views(words@) =~= before.push(ws@[i as int]@));
        i = i + 1;
        assert(word_views(words@) =~= crate::wrap::words(chars@).subrange(0, i as int));
    }
    assert(crate::wrap::words(chars@).subrange(0, i as int) =~= crate::wrap::words(chars@));
    let ghost wv = word_views(words@);
    let shape = if words.len() > 0 {
        let name = chars_of(words[0].as_str());
        assert(wv[0] == words@[0]@);
        event_shape_of(&name)
    } else {
        None
    };
    match parse_words(&words, shape, false) {
        Ok((pos, force)) => {
            let name = chars_of(words[0].as_str());
            assert(wv[0] == name@);
            Ok(build_event(&name, &pos, force))
        },
        Err(e) => {
            let m = e.message();
            Err(m)
        },
    }
}

/// One `usage — description` pair per `:` command, in the order the commands are declared.
pub open spec fn summaries() -> Seq<(Seq<char>, Seq<char>)> {
    seq![
        ("ls"@, "list directory objects, if in root, list all available vaults"@),
        ("vaults"@, "lists vaults"@),
        ("select <VAULT>"@, "makes a vault the working vault, at its root"@),
        ("new [PATH]"@, "registers a vault; without a path, launches an interactive wizard to build one"@),
        ("cd [PATH]"@, "changes current working directory, if in root, selects working vault"@),
        ("put <PATH> [VAULT] [DEST]"@, "puts file inside vault"@),
        ("get <PATH> [VAULT] [DEST]"@, "gets object inside vault; without a destination it lands in the local vault's root"@),
        ("mkdir <PATH> [VAULT]"@, "creates a directory"@),
        ("touch <PATH> [VAULT]"@, "creates an empty file; refuses to overwrite an existing one"@),
        ("forget <VAULT>"@, "stops tracking a vault; its config file and data are left alone"@),
        ("rename <PATH> <NEW_NAME> [VAULT]"@, "renames an object in place; takes a name, not a path (use mv to relocate)"@),
        ("delete [OPTIONS] <PATH> [VAULT]"@, "deletes an object; a non-empty directory needs --force. Paths are relative to the cwd, or prefix one with `vault:` to address another vault from its root"@),
        ("cp <PATH> <DESTINATION> [VAULT]"@, "copies an object; paths are relative to the cwd, or prefix one with `vault:` to address another vault from its root. The destination may be an existing directory, or a new path to copy it under that name (e.g. `cp notes.txt backup:/inbox/copy.txt`)"@),
        ("mv <PATH> <DESTINATION> [VAULT]"@, "moves an object; paths are relative to the cwd, or prefix one with `vault:` to address another vault from its root. The destination may be an existing directory, or a new path to move it under that name (e.g. `mv notes.txt backup:/inbox/copy.txt`)"@),
        ("push [VAULT]"@, "push local vault into vault"@),
        ("pull [VAULT]"@, "pulls from origin onto local vault"@),
        ("quit"@, "Quit the application"@)
    ]
}

/// One `usage — description` pair per `:` command, for the help overlay.
pub fn command_summaries() -> (r: Vec<(String, String)>)
    ensures
        r@.map_values(|p: (String, String)| (p.0@, p.1@)) == summaries(),
{
    let mut out: Vec<(String, String)> = Vec::new();
    out.push((String::from_str("ls"), String::from_str("list directory objects, if in root, list all available vaults")));
    out.push((String::from_str("vaults"), String::from_str("lists vaults")));
    out.push((String::from_str("select <VAULT>"), String::from_str("makes a vault the working vault, at its root")));
    out.push((String::from_str("new [PATH]"), String::from_str("registers a vault; without a path, launches an interactive wizard to build one")));
    out.push((String::from_str("cd [PATH]"), String::from_str("changes current working directory, if in root, selects working vault")));
    out.push((String::from_str("put <PATH> [VAULT] [DEST]"), String::from_str("puts file inside vault")));
    out.push((String::from_str("get <PATH> [VAULT] [DEST]"), String::from_str("gets object inside vault; without a destination it lands in the local vault's root")));
    out.push((String::from_str("mkdir <PATH> [VAULT]"), String::from_str("creates a directory")));
    out.push((String::from_str("touch <PATH> [VAULT]"), String::from_str("creates an empty file; refuses to overwrite an existing one")));
    out.push((String::from_str("forget <VAULT>"), String::from_str("stops tracking a vault; its config file and data are left alone")));
    out.push((String::from_str("rename <PATH> <NEW_NAME> [VAULT]"), String::from_str("renames an object in place; takes a name, not a path (use mv to relocate)")));
    out.push((String::from_str("delete [OPTIONS] <PATH> [VAULT]"), String::from_str("deletes an object; a non-empty directory needs --force. Paths are relative to the cwd, or prefix one with `vault:` to address another vault from its root")));
    out.push((String::from_str("cp <PATH> <DESTINATION> [VAULT]"), String::from_str("copies an object; paths are relative to the cwd, or prefix one with `vault:` to address another vault from its root. The destination may be an existing directory, or a new path to copy it under that name (e.g. `cp notes.txt backup:/inbox/copy.txt`)")));
    out.push((String::from_str("mv <PATH> <DESTINATION> [VAULT]"), String::from_str("moves an object; paths are relative to the cwd, or prefix one with `vault:` to address another vault from its root. The destination may be an existing directory, or a new path to move it under that name (e.g. `mv notes.txt backup:/inbox/copy.txt`)")));
    out.push((String::from_str("push [VAULT]"), String::from_str("push local vault into vault")));
    out.push((String::from_str("pull [VAULT]"), String::from_str("pulls from origin onto local vault")));
    out.push((String::from_str("quit"), String::from_str("Quit the application")));
    assert(out@.map_values(|p: (String, String)| (p.0@, p.1@)) =~= summaries());
    out
}

} // verus!
