//! Capturing the rustc invocations that Cargo makes, and running them again.

use crate::names::texts;
use crate::response_file::{
    content_links, decoded, file_links, is_link_argument, names_link_step,
};
use crate::text::{chars_of, same_text, text_of};
use std::collections::HashMap;
use vstd::prelude::*;
use vstd::string::*;

verus! {

/// The environment variable indicating where the args directory is located.
///
/// The wrapper writes each workspace crate's arguments to a separate file in this directory:
/// `{dir}/{crate_name}.json`.
pub const DX_RUSTC_WRAPPER_ENV_VAR: &'static str = "DX_RUSTC";

/// A "capture" of a workspace's rustc commands, cumulated by reading the various rustc commands
/// from disk.
#[derive(Clone, Debug, PartialEq)]
pub struct WorkspaceRustcArgs {
    pub link_args: Vec<String>,
    pub rustc_args: HashMap<String, RustcArgs>,
}

impl WorkspaceRustcArgs {
    /// Whether this is a capture with these link arguments and no rustc command yet.
    pub open spec fn starts_with(self, link_args: Seq<String>) -> bool {
        self.link_args@ == link_args && self.rustc_args@ == Map::<String, RustcArgs>::empty()
    }

    /// A capture with these link arguments and no rustc command yet.
    pub fn new(link_args: Vec<String>) -> (r: Self)
        ensures
            r.link_args == link_args,
            r.rustc_args@ == Map::<String, RustcArgs>::empty(),
            r.starts_with(link_args@),
    {
        WorkspaceRustcArgs { link_args, rustc_args: HashMap::new() }
    }
}

/// One captured rustc command.
#[derive(Clone, Debug, PartialEq)]
pub struct RustcArgs {
    /// The program, then its arguments.
    pub args: Vec<String>,
    pub envs: Vec<(String, String)>,
    /// The directory that the command ran in. Empty where it was not recorded.
    pub cwd: String,
    /// It doesn't include first program name argument.
    pub link_args: Vec<String>,
}

impl Default for RustcArgs {
    fn default() -> (r: Self)
        ensures
            r.args@ == Seq::<String>::empty(),
            r.envs@ == Seq::<(String, String)>::empty(),
            r.cwd@ == Seq::<char>::empty(),
            r.link_args@ == Seq::<String>::empty(),
    {
        RustcArgs {
            args: Vec::new(),
            envs: Vec::new(),
            cwd: String::new(),
            link_args: Vec::new(),
        }
    }
}

/// A command to run with an environment that holds `envs` and nothing else.
#[derive(Clone, Debug, PartialEq)]
pub struct Replay {
    pub program: String,
    pub args: Vec<String>,
    pub envs: Vec<(String, String)>,
    /// The directory to run in, where it is not the caller's own.
    pub current_dir: Option<String>,
}

impl Replay {
    /// Whether this command is `captured` run again.
    pub open spec fn replays(self, captured: RustcArgs) -> bool {
        &&& self.program@ == (if captured.args@.len() > 0 {
            captured.args@[0]@
        } else {
            "rustc"@
        })
        &&& self.args@ == (if captured.args@.len() > 0 {
            captured.args@.skip(1)
        } else {
            Seq::empty()
        })
        &&& self.envs@ == captured.envs@
        &&& match self.current_dir {
            Some(dir) => dir@ == captured.cwd@ && captured.cwd@.len() > 0,
            None => captured.cwd@.len() == 0,
        }
    }
}

/// The position of the first `item`, or the length of `items` where there is none.
pub open spec fn position(items: Seq<Seq<char>>, item: Seq<char>) -> int
    decreases items.len(),
{
    if items.len() == 0 || items[0] == item {
        0
    } else {
        1 + position(items.skip(1), item)
    }
}

/// The argument behind the first `flag`.
pub open spec fn argument_after(args: Seq<Seq<char>>, flag: Seq<char>) -> Option<Seq<char>> {
    let at = position(args, flag) + 1;
    if at < args.len() {
        Some(args[at])
    } else {
        None
    }
}

/// What `position` finds, and that it is the only position of its kind.
proof fn lemma_position(items: Seq<Seq<char>>, item: Seq<char>, at: int)
    requires
        0 <= at <= items.len(),
        at < items.len() ==> items[at] == item,
        forall|i: int| 0 <= i < at ==> items[i] != item,
    ensures
        position(items, item) == at,
    decreases items.len(),
{
    if at > 0 {
        let rest = items.skip(1);
        assert forall|i: int| 0 <= i < at - 1 implies rest[i] != item by {
            assert(rest[i] == items[i + 1]);
        }
        lemma_position(rest, item, at - 1);
    }
}

/// The file in the args directory that a command with these arguments is recorded in. Cargo probes
/// rustc under the crate name `___`: that is not recorded, nor is a command without a crate name.
pub open spec fn record_for(args: Seq<Seq<char>>) -> Option<Seq<char>> {
    match argument_after(args, "--crate-name"@) {
        Some(name) => if name == "___"@ {
            None
        } else {
            Some(name + ".json"@)
        },
        None => None,
    }
}

/// The argument behind the first `flag`.
fn value_after<'a>(args: &'a Vec<String>, flag: &str) -> (r: Option<&'a str>)
    ensures
        match r {
            Some(value) => argument_after(texts(args@), flag@) == Some(value@),
            None => argument_after(texts(args@), flag@) is None,
        },
{
    let ghost all = texts(args@);
    let mut i: usize = 0;
    while i < args.len() && !same_text(args[i].as_str(), flag)
        invariant
            i <= args@.len(),
            all == texts(args@),
            forall|j: int| 0 <= j < i ==> all[j] != flag@,
        decreases args@.len() - i,
    {
        i = i + 1;
    }
    proof {
        lemma_position(all, flag@, i as int);
    }
    if i < args.len() && args.len() - i > 1 {
        Some(args[i + 1].as_str())
    } else {
        None
    }
}

impl RustcArgs {
    /// The captured command, to be run again.
    pub fn replay(&self) -> (r: Replay)
        ensures
            r.replays(*self),
            r.envs@ == self.envs@,
            self.args@.len() > 0 ==> r.program@ == self.args@[0]@ && r.args@ == self.args@.skip(1),
            self.args@.len() == 0 ==> r.program@ == "rustc"@ && r.args@.len() == 0,
            text_of(r.current_dir) == (if self.cwd@.len() > 0 {
                Some(self.cwd@)
            } else {
                None
            }),
    {
        let mut args: Vec<String> = Vec::new();
        let mut i: usize = 1;
        while i < self.args.len()
            invariant
                1 <= i,
                self.args@.len() > 0 ==> i <= self.args@.len(),
                self.args@.len() == 0 ==> args@.len() == 0,
                self.args@.len() > 0 ==> args@ == self.args@.subrange(1, i as int),
            decreases self.args@.len() - i,
        {
            args.push(self.args[i].clone());
            i = i + 1;
            assert(args@ =~= self.args@.subrange(1, i as int));
        }
        assert(self.args@.len() > 0 ==> args@ =~= self.args@.skip(1));
        assert(self.args@.len() == 0 ==> args@ =~= Seq::empty());
        let mut envs: Vec<(String, String)> = Vec::new();
        let mut k: usize = 0;
        while k < self.envs.len()
            invariant
                k <= self.envs@.len(),
                envs@ == self.envs@.take(k as int),
            decreases self.envs@.len() - k,
        {
            let pair = &self.envs[k];
            envs.push((pair.0.clone(), pair.1.clone()));
            k = k + 1;
            assert(envs@ =~= self.envs@.take(k as int));
        }
        assert(envs@ =~= self.envs@);
        Replay {
            program: if self.args.len() > 0 {
                self.args[0].clone()
            } else {
                "rustc".to_owned()
            },
            args,
            envs,
            current_dir: if self.cwd.as_str().is_empty() {
                None
            } else {
                Some(self.cwd.clone())
            },
        }
    }

    /// The file in the args directory that this command is recorded in.
    pub fn record_name(&self) -> (r: Option<String>)
        ensures
            text_of(r) == record_for(texts(self.args@)),
    {
        let crate_name = match value_after(&self.args, "--crate-name") {
            Some(crate_name) => crate_name,
            None => {
                return None;
            },
        };
        if same_text(crate_name, "___") {
            return None;
        }
        let mut name = crate_name.to_owned();
        name.append(".json");
        Some(name)
    }
}

/// An argument that the wrapper was given.
pub struct Argument {
    pub text: String,
    /// The contents of the command file that the argument names, where it could be read.
    pub file: Option<Vec<u8>>,
}

impl Argument {
    /// Whether only a link step is given this argument, itself or through its command file.
    pub open spec fn links(self) -> bool {
        ||| names_link_step(self.text@)
        ||| {
            &&& names_file(self.text@)
            &&& self.file is Some
            &&& content_links(decoded(self.file->0@))
        }
    }
}

/// Whether an argument names a command file.
pub open spec fn names_file(argument: Seq<char>) -> bool {
    argument.len() > 0 && argument[0] == '@'
}

/// The path of the command file that an argument names, where it names one.
pub open spec fn file_named_by(argument: Seq<char>) -> Option<Seq<char>> {
    if names_file(argument) {
        Some(argument.skip(1))
    } else {
        None
    }
}

/// The path of the command file that an argument names, where it names one.
pub fn command_file<'a>(argument: &'a str) -> (r: Option<&'a str>)
    ensures
        match r {
            Some(path) => names_file(argument@) && path@ == argument@.skip(1),
            None => !names_file(argument@),
        },
        match r {
            Some(path) => file_named_by(argument@) == Some(path@),
            None => file_named_by(argument@) is None,
        },
{
    let len: usize = argument.unicode_len();
    if len > 0 && argument.get_char(0) == '@' {
        assert(argument@.subrange(1, len as int) =~= argument@.skip(1));
        Some(argument.substring_char(1, len))
    } else {
        None
    }
}

/// Check if the arguments indicate a linking step, including those in command files.
pub fn has_linking_args(args: &Vec<Argument>) -> (r: bool)
    ensures
        r == exists|i: int| 0 <= i < args@.len() && (#[trigger] args@[i]).links(),
        r == is_link_step(args@),
{
    let mut i: usize = 0;
    while i < args.len()
        invariant
            i <= args@.len(),
            forall|j: int| 0 <= j < i ==> !(#[trigger] args@[j]).links(),
        decreases args@.len() - i,
    {
        let argument = &args[i];
        if is_link_argument(&chars_of(argument.text.as_str())) {
            assert(args@[i as int].links());
            return true;
        }
        if let Some(_path) = command_file(argument.text.as_str()) {
            if let Some(bytes) = &argument.file {
                if file_links(bytes) {
                    assert(args@[i as int].links());
                    return true;
                }
            }
        }
        i = i + 1;
    }
    false
}

/// The command among the arguments that the wrapper was given: all but its own name.
pub open spec fn command_of(args: Seq<Argument>) -> Seq<Seq<char>> {
    if args.len() > 0 {
        args.skip(1).map_values(|argument: Argument| argument.text@)
    } else {
        Seq::empty()
    }
}

/// Whether some argument is one that only a link step is given.
pub open spec fn is_link_step(args: Seq<Argument>) -> bool {
    exists|i: int| 0 <= i < args.len() && (#[trigger] args[i]).links()
}

/// What the wrapper does once the command is recorded.
pub enum Next {
    /// Hand over to the linker.
    Link,
    /// Run rustc.
    Compile(Replay),
}

/// What the wrapper does with the command that it was given.
pub struct Invocation {
    /// The command, as it is recorded.
    pub rustc_args: RustcArgs,
    /// The file of the args directory that it is recorded in, before anything else is done.
    pub record: Option<String>,
    pub next: Next,
}

impl Invocation {
    /// Whether this is what the wrapper does when it is given `args` in this environment and
    /// directory.
    pub open spec fn answers(
        self,
        args: Seq<Argument>,
        envs: Seq<(String, String)>,
        cwd: Seq<char>,
    ) -> bool {
        &&& texts(self.rustc_args.args@) == command_of(args)
        &&& self.rustc_args.envs@ == envs
        &&& self.rustc_args.cwd@ == cwd
        &&& self.rustc_args.link_args@.len() == 0
        &&& text_of(self.record) == record_for(command_of(args))
        &&& match self.next {
            Next::Link => is_link_step(args),
            Next::Compile(replay) => !is_link_step(args) && replay.replays(self.rustc_args),
        }
    }
}

/// Run rustc directly, but record the command in a per-crate file in the args directory.
///
/// Cargo invokes a workspace wrapper like `wrapper-name rustc [args...]`: `args` holds all of that.
/// The command is recorded even for link steps: the tip crate's bin target is typically only
/// observed during the final link invocation.
pub fn run_rustc(args: &Vec<Argument>, envs: Vec<(String, String)>, cwd: String) -> (r: Invocation)
    ensures
        r.rustc_args.args@.len() == (if args@.len() > 0 { args@.len() - 1 } else { 0 }),
        forall|i: int|
            0 <= i < r.rustc_args.args@.len() ==> #[trigger] r.rustc_args.args@[i] == args@[i
                + 1].text,
        texts(r.rustc_args.args@) == command_of(args@),
        r.rustc_args.envs == envs,
        r.rustc_args.cwd == cwd,
        r.rustc_args.link_args@ == Seq::<String>::empty(),
        text_of(r.record) == record_for(texts(r.rustc_args.args@)),
        match r.next {
            Next::Link => exists|i: int| 0 <= i < args@.len() && (#[trigger] args@[i]).links(),
            Next::Compile(replay) => replay.replays(r.rustc_args) && !(exists|i: int|
                0 <= i < args@.len() && (#[trigger] args@[i]).links()),
        },
        r.next is Link <==> is_link_step(args@),
        r.answers(args@, envs@, cwd@),
{
    let mut captured: Vec<String> = Vec::new();
    let mut i: usize = 1;
    while i < args.len()
        invariant
            1 <= i,
            args@.len() > 0 ==> i <= args@.len(),
            args@.len() > 0 ==> captured@.len() == i - 1,
            args@.len() == 0 ==> captured@.len() == 0,
            forall|j: int|
                0 <= j < captured@.len() ==> #[trigger] captured@[j] == args@[j + 1].text,
        decreases args@.len() - i,
    {
        captured.push(args[i].text.clone());
        i = i + 1;
    }
    assert(texts(captured@) =~= command_of(args@));
    let rustc_args = RustcArgs { args: captured, envs, cwd, link_args: Vec::new() };
    let record = rustc_args.record_name();
    let next = if has_linking_args(args) {
        Next::Link
    } else {
        Next::Compile(rustc_args.replay())
    };
    Invocation { rustc_args, record, next }
}

/// The exit code behind `status`, which is missing where a signal ended the process.
pub open spec fn exit_status(status: Option<i32>) -> i32 {
    match status {
        Some(code) => code,
        None => 1,
    }
}

/// The wrapper's exit code, after rustc ended with `status`: it has none where a signal ended it.
pub fn exit_code(status: Option<i32>) -> (r: i32)
    ensures
        r == (match status {
            Some(code) => code,
            None => 1,
        }),
        r == exit_status(status),
{
    match status {
        Some(code) => code,
        None => 1,
    }
}

/// Two commands are recorded in one file only where both compile one crate: each crate's arguments
/// have a file of their own.
pub proof fn law_records_are_apart(a: Seq<Seq<char>>, b: Seq<Seq<char>>)
    requires
        record_for(a) is Some,
        record_for(a) == record_for(b),
    ensures
        argument_after(a, "--crate-name"@) == argument_after(b, "--crate-name"@),
{
    let first = argument_after(a, "--crate-name"@)->0;
    let second = argument_after(b, "--crate-name"@)->0;
    let record = record_for(a)->0;
    assert(record == first + ".json"@);
    assert(record == second + ".json"@);
    assert(record.take(first.len() as int) =~= first);
    assert(record.take(second.len() as int) =~= second);
}

} // verus!
