use vstd::prelude::*;
use crate::words::same_text;

verus! {

/// The commands carried out inside the interpreter itself.
#[derive(Clone, Copy, Debug, PartialEq, Eq, Structural)]
pub enum BuiltinKind {
    Exit,
    Echo,
    Pwd,
    Cd,
    Type,
    History,
}

/// What a command name stands for.
#[derive(Clone, Debug, PartialEq, Eq)]
pub enum ResolvedCommand {
    Builtin(BuiltinKind),
    /// A program, with the path it was found at.
    External(String),
    NotFound,
}

/// A file inside a directory of the search path.
#[derive(Clone, Debug, PartialEq, Eq)]
pub struct DirFile {
    /// The name that the file answers to as a command.
    pub name: String,
    /// Where it is.
    pub path: String,
    /// Its permission bits, if its metadata could be read.
    pub mode: Option<u32>,
}

/// What was found at one entry of the search path.
#[derive(Clone, Debug, PartialEq, Eq)]
pub struct SearchEntry {
    /// The entry as written in the search path.
    pub path: String,
    /// Its last component, if it has one.
    pub file_name: Option<String>,
    /// Its own permission bits, if its metadata could be read.
    pub mode: Option<u32>,
    /// Whether it is a regular file (not a directory); only then may it
    /// stand for a program itself.
    pub is_file: bool,
    /// When it is a readable directory, its files in the order the directory
    /// lists them; otherwise nothing.
    pub listing: Vec<DirFile>,
}

/// The built-in command that a name stands for, if any.
pub open spec fn builtin_of(name: Seq<char>) -> Option<BuiltinKind> {
    if name == "exit"@ {
        Some(BuiltinKind::Exit)
    } else if name == "echo"@ {
        Some(BuiltinKind::Echo)
    } else if name == "pwd"@ {
        Some(BuiltinKind::Pwd)
    } else if name == "cd"@ {
        Some(BuiltinKind::Cd)
    } else if name == "type"@ {
        Some(BuiltinKind::Type)
    } else if name == "history"@ {
        Some(BuiltinKind::History)
    } else {
        None
    }
}

/// The built-in command named `name`, if there is one.
pub fn builtin_kind(name: &str) -> (r: Option<BuiltinKind>)
    ensures
        r == builtin_of(name@),
{
    if same_text(name, "exit") {
        Some(BuiltinKind::Exit)
    } else if same_text(name, "echo") {
        Some(BuiltinKind::Echo)
    } else if same_text(name, "pwd") {
        Some(BuiltinKind::Pwd)
    } else if same_text(name, "cd") {
        Some(BuiltinKind::Cd)
    } else if same_text(name, "type") {
        Some(BuiltinKind::Type)
    } else if same_text(name, "history") {
        Some(BuiltinKind::History)
    } else {
        None
    }
}

/// The name of a built-in command.
pub open spec fn builtin_name(k: BuiltinKind) -> Seq<char> {
    match k {
        BuiltinKind::Exit => "exit"@,
        BuiltinKind::Echo => "echo"@,
        BuiltinKind::Pwd => "pwd"@,
        BuiltinKind::Cd => "cd"@,
        BuiltinKind::Type => "type"@,
        BuiltinKind::History => "history"@,
    }
}

impl BuiltinKind {
    /// The name the command is invoked by.
    pub fn name(&self) -> (r: &'static str)
        ensures
            r@ == builtin_name(*self),
    {
        match self {
            BuiltinKind::Exit => "exit",
            BuiltinKind::Echo => "echo",
            BuiltinKind::Pwd => "pwd",
            BuiltinKind::Cd => "cd",
            BuiltinKind::Type => "type",
            BuiltinKind::History => "history",
        }
    }
}

/// Whether permission bits allow running a file.
pub open spec fn is_exec_mode(mode: Option<u32>) -> bool {
    mode matches Some(m) && m & 0o111u32 != 0
}

/// The path of the first file of a directory listing that answers to `name`
/// and may be run.
pub open spec fn first_match(name: Seq<char>, files: Seq<DirFile>) -> Option<Seq<char>>
    decreases files.len(),
{
    if files.len() == 0 {
        None
    } else if files[0].name@ == name && is_exec_mode(files[0].mode) {
        Some(files[0].path@)
    } else {
        first_match(name, files.drop_first())
    }
}

/// Where `name` is found along the search path: entries are taken in order;
/// in each, first the directory's files, then the entry itself when it is a
/// runnable regular file (not a directory) of that name.
pub open spec fn search(name: Seq<char>, entries: Seq<SearchEntry>) -> Option<Seq<char>>
    decreases entries.len(),
{
    if entries.len() == 0 {
        None
    } else {
        match first_match(name, entries[0].listing@) {
            Some(p) => Some(p),
            None => {
                if entries[0].is_file && is_exec_mode(entries[0].mode) && (entries[0].file_name matches Some(f) && f@
                    == name) {
                    Some(entries[0].path@)
                } else {
                    search(name, entries.drop_first())
                }
            },
        }
    }
}

/// The abstract value of a resolution: `Builtin`, a path, or nothing.
pub open spec fn resolution_of(r: ResolvedCommand) -> (Option<BuiltinKind>, Option<Seq<char>>) {
    match r {
        ResolvedCommand::Builtin(k) => (Some(k), None),
        ResolvedCommand::External(p) => (None, Some(p@)),
        ResolvedCommand::NotFound => (None, None),
    }
}

/// What `name` resolves to against the given search path.
pub open spec fn resolve_spec(name: Seq<char>, entries: Seq<SearchEntry>) -> (
    Option<BuiltinKind>,
    Option<Seq<char>>,
) {
    match builtin_of(name) {
        Some(k) => (Some(k), None),
        None => (None, search(name, entries)),
    }
}

/// The path of the first runnable file in `files` that answers to `name`.
pub fn find_in_listing(name: &str, files: &Vec<DirFile>) -> (r: Option<String>)
    ensures
        match r {
            Some(p) => first_match(name@, files@) == Some(p@),
            None => first_match(name@, files@) is None,
        },
{
    let mut i: usize = 0;
    assert(files@.subrange(0, files@.len() as int) =~= files@);
    while i < files.len()
        invariant
            i <= files.len(),
            first_match(name@, files@) == first_match(name@, files@.subrange(i as int, files@.len() as int)),
        decreases files.len() - i,
    {
        proof {
            assert(files@.subrange(i as int, files@.len() as int).drop_first() =~= files@.subrange(
                i + 1,
                files@.len() as int,
            ));
        }
        if same_text(files[i].name.as_str(), name) && is_executable(files[i].mode) {
            return Some(files[i].path.clone());
        }
        i += 1;
    }
    None
}

/// Resolves a command name: one of the built-ins, else the first match along
/// the search path (see `search`), else `NotFound`.
pub fn resolve(name: &str, entries: &Vec<SearchEntry>) -> (r: ResolvedCommand)
    ensures
        resolution_of(r) == resolve_spec(name@, entries@),
{
    if let Some(k) = builtin_kind(name) {
        return ResolvedCommand::Builtin(k);
    }
    let mut i: usize = 0;
    assert(entries@.subrange(0, entries@.len() as int) =~= entries@);
    while i < entries.len()
        invariant
            i <= entries.len(),
            builtin_of(name@) is None,
            search(name@, entries@) == search(name@, entries@.subrange(i as int, entries@.len() as int)),
        decreases entries.len() - i,
    {
        let ghost rest = entries@.subrange(i as int, entries@.len() as int);
        proof {
            assert(rest.drop_first() =~= entries@.subrange(i + 1, entries@.len() as int));
            assert(rest[0] == entries@[i as int]);
        }
        let entry = &entries[i];
        if let Some(p) = find_in_listing(name, &entry.listing) {
            assert(search(name@, rest) == Some(p@));
            return ResolvedCommand::External(p);
        }
        if entry.is_file && is_executable(entry.mode) {
            if let Some(f) = &entry.file_name {
                if same_text(f.as_str(), name) {
                    assert(search(name@, rest) == Some(entry.path@));
                    return ResolvedCommand::External(entry.path.clone());
                }
            }
        }
        i += 1;
    }
    ResolvedCommand::NotFound
}

/// Whether a file whose permission bits are `mode` may be run: some execute
/// bit (owner, group or other) is set. `None` stands for a file whose metadata
/// could not be read, which is never executable.
pub fn is_executable(mode: Option<u32>) -> (r: bool)
    ensures
        r == is_exec_mode(mode),
{
    match mode {
        Some(m) => m & 0o111u32 != 0,
        None => false,
    }
}

} // verus!
