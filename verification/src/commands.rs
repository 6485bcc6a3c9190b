//! Configured commands: external programs that the user can run on a file
//! or on the directory being browsed.

use crate::path::{FsPath, PathView};
use vstd::prelude::*;

verus! {

/// The texts held by a vector of strings.
pub open spec fn strings_view(strings: Seq<String>) -> Seq<Seq<char>> {
    Seq::new(strings.len(), |i: int| strings[i]@)
}

/// The texts held by an optional vector of strings.
pub open spec fn opt_strings_view(strings: Option<Vec<String>>) -> Option<Seq<Seq<char>>> {
    match strings {
        Some(list) => Some(strings_view(list@)),
        None => None,
    }
}

/// A copy of a vector of strings.
pub fn clone_strings(strings: &Vec<String>) -> (copy: Vec<String>)
    ensures
        strings_view(copy@) == strings_view(strings@),
{
    let mut copy: Vec<String> = Vec::new();
    let mut i: usize = 0;
    while i < strings.len()
        invariant
            i <= strings.len(),
            copy.len() == i,
            forall|j: int| 0 <= j < i ==> copy@[j]@ == strings@[j]@,
        decreases strings.len() - i,
    {
        copy.push(strings[i].clone());
        i += 1;
    }
    assert(strings_view(copy@) =~= strings_view(strings@));
    copy
}

/// Whether two vectors of strings hold the same texts.
pub fn same_strings(a: &Vec<String>, b: &Vec<String>) -> (same: bool)
    ensures
        same == (strings_view(a@) == strings_view(b@)),
{
    if a.len() != b.len() {
        assert(strings_view(a@).len() != strings_view(b@).len());
        return false;
    }
    let mut i: usize = 0;
    while i < a.len()
        invariant
            a.len() == b.len(),
            i <= a.len(),
            forall|j: int| 0 <= j < i ==> a@[j]@ == b@[j]@,
        decreases a.len() - i,
    {
        if a[i] != b[i] {
            assert(strings_view(a@)[i as int] != strings_view(b@)[i as int]);
            return false;
        }
        i += 1;
    }
    assert(strings_view(a@) =~= strings_view(b@));
    true
}

/// Whether two optional vectors of strings hold the same texts.
pub fn same_opt_strings(a: &Option<Vec<String>>, b: &Option<Vec<String>>) -> (same: bool)
    ensures
        same == (opt_strings_view(*a) == opt_strings_view(*b)),
{
    match (a, b) {
        (Some(x), Some(y)) => same_strings(x, y),
        (None, None) => true,
        _ => false,
    }
}

/// A copy of an optional vector of strings.
pub fn clone_opt_strings(strings: &Option<Vec<String>>) -> (copy: Option<Vec<String>>)
    ensures
        opt_strings_view(copy) == opt_strings_view(*strings),
{
    match strings {
        Some(list) => Some(clone_strings(list)),
        None => None,
    }
}

/// A command that runs on a file.
#[derive(Debug, PartialEq, Eq)]
pub struct FileCommand {
    pub name: String,
    pub interpreter: String,
    pub script: String,
    /// The extensions of the files that the command is offered for.
    pub extensions: Option<Vec<String>>,
    pub args: Option<Vec<String>>,
    /// Whether a click on a file of one of the extensions runs the
    /// command.
    pub clickable: Option<bool>,
}

/// The mathematical value of a [`FileCommand`].
pub struct FileCommandView {
    pub name: Seq<char>,
    pub interpreter: Seq<char>,
    pub script: Seq<char>,
    pub extensions: Option<Seq<Seq<char>>>,
    pub args: Option<Seq<Seq<char>>>,
    pub clickable: Option<bool>,
}

impl View for FileCommand {
    type V = FileCommandView;

    open spec fn view(&self) -> FileCommandView {
        FileCommandView {
            name: self.name@,
            interpreter: self.interpreter@,
            script: self.script@,
            extensions: opt_strings_view(self.extensions),
            args: opt_strings_view(self.args),
            clickable: self.clickable,
        }
    }
}

impl DeepView for FileCommand {
    type V = FileCommandView;

    open spec fn deep_view(&self) -> FileCommandView {
        self.view()
    }
}

impl Clone for FileCommand {
    fn clone(&self) -> (copy: Self)
        ensures
            copy@ == self@,
    {
        FileCommand {
            name: self.name.clone(),
            interpreter: self.interpreter.clone(),
            script: self.script.clone(),
            extensions: clone_opt_strings(&self.extensions),
            args: clone_opt_strings(&self.args),
            clickable: self.clickable,
        }
    }
}

/// A command that runs on the directory being browsed.
#[derive(Debug, PartialEq, Eq)]
pub struct DirCommand {
    pub name: String,
    pub interpreter: String,
    pub script: String,
    pub args: Option<Vec<String>>,
}

/// The mathematical value of a [`DirCommand`].
pub struct DirCommandView {
    pub name: Seq<char>,
    pub interpreter: Seq<char>,
    pub script: Seq<char>,
    pub args: Option<Seq<Seq<char>>>,
}

impl View for DirCommand {
    type V = DirCommandView;

    open spec fn view(&self) -> DirCommandView {
        DirCommandView {
            name: self.name@,
            interpreter: self.interpreter@,
            script: self.script@,
            args: opt_strings_view(self.args),
        }
    }
}

impl DeepView for DirCommand {
    type V = DirCommandView;

    open spec fn deep_view(&self) -> DirCommandView {
        self.view()
    }
}

impl Clone for DirCommand {
    fn clone(&self) -> (copy: Self)
        ensures
            copy@ == self@,
    {
        DirCommand {
            name: self.name.clone(),
            interpreter: self.interpreter.clone(),
            script: self.script.clone(),
            args: clone_opt_strings(&self.args),
        }
    }
}

/// What the shell is to start: a program, the arguments that come first,
/// and the path that is handed to it as the final argument. The process
/// is started detached and is not waited for.
#[derive(Debug, PartialEq, Eq)]
pub struct SpawnSpec {
    pub interpreter: String,
    pub args: Vec<String>,
    pub target: FsPath,
}

/// The mathematical value of a [`SpawnSpec`].
pub struct SpawnView {
    pub interpreter: Seq<char>,
    pub args: Seq<Seq<char>>,
    pub target: PathView,
}

impl View for SpawnSpec {
    type V = SpawnView;

    open spec fn view(&self) -> SpawnView {
        SpawnView {
            interpreter: self.interpreter@,
            args: strings_view(self.args@),
            target: self.target@,
        }
    }
}

impl DeepView for SpawnSpec {
    type V = SpawnView;

    open spec fn deep_view(&self) -> SpawnView {
        self.view()
    }
}

impl Clone for SpawnSpec {
    fn clone(&self) -> (copy: Self)
        ensures
            copy@ == self@,
    {
        SpawnSpec {
            interpreter: self.interpreter.clone(),
            args: clone_strings(&self.args),
            target: self.target.clone(),
        }
    }
}

/// The process that runs a command on `target`: the interpreter, with
/// the configured arguments, then the script unless it is empty, then
/// `target`.
pub open spec fn spawn_of(
    interpreter: Seq<char>,
    script: Seq<char>,
    args: Option<Seq<Seq<char>>>,
    target: PathView,
) -> SpawnView {
    let leading = match args {
        Some(list) => list,
        None => Seq::empty(),
    };
    SpawnView {
        interpreter,
        args: if script.len() == 0 {
            leading
        } else {
            leading.push(script)
        },
        target,
    }
}

impl FileCommandView {
    /// The process that runs the command on the file `target`.
    pub open spec fn spawn(self, target: PathView) -> SpawnView {
        spawn_of(self.interpreter, self.script, self.args, target)
    }
}

impl DirCommandView {
    /// The process that runs the command on the directory `target`.
    pub open spec fn spawn(self, target: PathView) -> SpawnView {
        spawn_of(self.interpreter, self.script, self.args, target)
    }
}

impl FileCommand {
    /// Whether two commands have the same value.
    pub fn same_as(&self, other: &FileCommand) -> (same: bool)
        ensures
            same == (self@ == other@),
    {
        self.name == other.name && self.interpreter == other.interpreter && self.script
            == other.script && same_opt_strings(&self.extensions, &other.extensions)
            && same_opt_strings(&self.args, &other.args) && (match (
            self.clickable,
            other.clickable,
        ) {
            (Some(x), Some(y)) => x == y,
            (None, None) => true,
            _ => false,
        })
    }

    /// The process that runs the command on the file `target_path`.
    pub fn run(&self, target_path: &FsPath) -> (spawn: SpawnSpec)
        ensures
            spawn@ == self@.spawn(target_path@),
    {
        run(&self.interpreter, &self.script, &self.args, target_path)
    }
}

impl DirCommand {
    /// Whether two commands have the same value.
    pub fn same_as(&self, other: &DirCommand) -> (same: bool)
        ensures
            same == (self@ == other@),
    {
        self.name == other.name && self.interpreter == other.interpreter && self.script
            == other.script && same_opt_strings(&self.args, &other.args)
    }

    /// The process that runs the command on the directory `target_path`.
    pub fn run(&self, target_path: &FsPath) -> (spawn: SpawnSpec)
        ensures
            spawn@ == self@.spawn(target_path@),
    {
        run(&self.interpreter, &self.script, &self.args, target_path)
    }
}

/// The file commands and the directory commands of a configuration.
#[derive(Debug, PartialEq, Eq)]
pub struct Commands {
    pub file: Option<Vec<FileCommand>>,
    pub dir: Option<Vec<DirCommand>>,
}

fn run(
    interpreter: &String,
    script: &String,
    args: &Option<Vec<String>>,
    target_path: &FsPath,
) -> (spawn: SpawnSpec)
    ensures
        spawn@ == spawn_of(interpreter@, script@, opt_strings_view(*args), target_path@),
{
    let mut command_args: Vec<String> = match args {
        Some(list) => clone_strings(list),
        None => Vec::new(),
    };
    let ghost leading = strings_view(command_args@);
    assert(args.is_none() ==> leading =~= Seq::<Seq<char>>::empty());
    if !script.as_str().is_empty() {
        command_args.push(script.clone());
        assert(strings_view(command_args@) =~= leading.push(script@));
    }
    SpawnSpec {
        interpreter: interpreter.clone(),
        args: command_args,
        target: target_path.clone(),
    }
}

} // verus!
