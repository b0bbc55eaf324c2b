//! Files that are written so that a reader never sees half of one.

use vstd::prelude::*;
use vstd::string::*;

use crate::addr::last_place;
use crate::failure::Failure;
use crate::text::{cat2, ends, find_last, slice};

verus! {

/// A file in a directory. `S` stands for a text.
#[derive(Debug)]
pub struct FilePath<S> {
    pub dir: S,
    pub file: S,
}

impl View for FilePath<String> {
    type V = FilePath<Seq<char>>;

    open spec fn view(&self) -> FilePath<Seq<char>> {
        FilePath { dir: self.dir@, file: self.file@ }
    }
}

/// One step of writing a file. `S` stands for a text.
#[derive(Debug)]
pub enum FileStep<S> {
    /// The contents are written to this file.
    Write { path: FilePath<S>, contents: S },
    /// This file gets these permissions, where the system has them.
    SetMode { path: FilePath<S>, mode: u32 },
    /// The one file takes the place of the other.
    Rename { from: FilePath<S>, to: FilePath<S> },
}

impl View for FileStep<String> {
    type V = FileStep<Seq<char>>;

    open spec fn view(&self) -> FileStep<Seq<char>> {
        match *self {
            FileStep::Write { path, contents } => FileStep::Write {
                path: path@,
                contents: contents@,
            },
            FileStep::SetMode { path, mode } => FileStep::SetMode { path: path@, mode },
            FileStep::Rename { from, to } => FileStep::Rename { from: from@, to: to@ },
        }
    }
}

/// A row of steps as the contracts speak of it.
pub open spec fn steps_view(steps: Seq<FileStep<String>>) -> Seq<FileStep<Seq<char>>> {
    steps.map_values(|s: FileStep<String>| s@)
}

/// The name of a file in a directory: not empty, not the directory itself or the one
/// above it, and without a separator.
pub open spec fn plain_name(file: Seq<char>) -> bool {
    &&& file.len() > 0
    &&& file != "."@
    &&& file != ".."@
    &&& !file.contains('/')
    &&& !file.contains('\\')
}

/// A file name without its extension: the part before the last dot, unless that dot
/// stands at the front.
pub open spec fn stem(file: Seq<char>) -> Seq<char> {
    if file.contains('.') && last_place(file, '.') > 0 {
        file.take(last_place(file, '.'))
    } else {
        file
    }
}

/// The name under which a file is written before it is complete.
pub open spec fn temp_name(file: Seq<char>) -> Seq<char> {
    stem(file) + ".tmp"@
}

/// The steps in which a file gets its contents: under another name, and under its own
/// once it is complete and has its permissions.
pub open spec fn write_steps(
    path: FilePath<Seq<char>>,
    contents: Seq<char>,
    mode: u32,
) -> Seq<FileStep<Seq<char>>> {
    let temp = FilePath { dir: path.dir, file: temp_name(path.file) };
    seq![
        FileStep::Write { path: temp, contents },
        FileStep::SetMode { path: temp, mode },
        FileStep::Rename { from: temp, to: path },
    ]
}

/// The name under which a file is written before it is complete.
fn temp_file(file: &str) -> (r: String)
    requires
        plain_name(file@),
    ensures
        r@ == temp_name(file@),
{
    match find_last(file, '.') {
        Some(i) => {
            proof {
                let k = last_place(file@, '.');
                assert(file@[i as int] == '.');
                assert(0 <= k < file@.len() && file@[k] == '.' && forall|j: int|
                    k < j < file@.len() ==> file@[j] != '.');
                assert(k == i);
            }
            if i > 0 {
                cat2(slice(file, 0, i).as_str(), ".tmp")
            } else {
                cat2(file, ".tmp")
            }
        },
        None => cat2(file, ".tmp"),
    }
}

/// A path once more.
fn again(path: &FilePath<String>) -> (r: FilePath<String>)
    ensures
        r@ == path@,
{
    FilePath { dir: path.dir.clone(), file: path.file.clone() }
}

/// The steps in which a file gets its contents and its permissions.
pub fn write_file(path: FilePath<String>, contents: String, mode: u32) -> (r: Vec<
    FileStep<String>,
>)
    requires
        plain_name(path.file@),
    ensures
        steps_view(r@) == write_steps(path@, contents@, mode),
{
    let temp = FilePath { dir: path.dir.clone(), file: temp_file(path.file.as_str()) };
    let mut steps: Vec<FileStep<String>> = Vec::new();
    steps.push(FileStep::Write { path: again(&temp), contents });
    steps.push(FileStep::SetMode { path: again(&temp), mode });
    steps.push(FileStep::Rename { from: temp, to: path });
    assert(steps_view(steps@) =~= write_steps(path@, contents@, mode));
    steps
}

impl FileStep<String> {
    /// The failure of this step, where the file that it makes is shown as `shown`.
    pub fn failed(&self, shown: &str, cause: Failure) -> (r: Failure)
        ensures
            r@ == (match *self {
                FileStep::Write { .. } => seq!["cannot write "@ + shown@] + cause@,
                FileStep::SetMode { .. } => cause@,
                FileStep::Rename { .. } => seq!["cannot move into "@ + shown@] + cause@,
            }),
    {
        match self {
            FileStep::Write { .. } => cause.context(cat2("cannot write ", shown)),
            FileStep::SetMode { .. } => cause,
            FileStep::Rename { .. } => cause.context(cat2("cannot move into ", shown)),
        }
    }
}

/// Whether some steps give a file its contents and its permissions: all of it is written
/// to one other file of the same directory, that file gets the permissions, and then takes
/// the place of the one that is meant.
pub open spec fn writes(
    steps: Seq<FileStep<Seq<char>>>,
    dir: Seq<char>,
    file: Seq<char>,
    contents: Seq<char>,
    mode: u32,
) -> bool {
    &&& steps.len() == 3
    &&& steps[0] is Write && steps[1] is SetMode && steps[2] is Rename
    &&& steps[0]->Write_contents == contents
    &&& steps[0]->Write_path.dir == dir
    &&& steps[1]->SetMode_path == steps[0]->Write_path
    &&& steps[1]->mode == mode
    &&& steps[2]->from == steps[0]->Write_path
    &&& steps[2]->to == (FilePath { dir, file })
}

/// A file is written under another name first, which differs from its own unless that
/// ends in `.tmp` already.
pub proof fn lemma_written(path: FilePath<Seq<char>>, contents: Seq<char>, mode: u32)
    ensures
        writes(write_steps(path, contents, mode), path.dir, path.file, contents, mode),
        !ends(path.file, ".tmp"@) ==> write_steps(path, contents, mode)[0]->Write_path.file
            != path.file,
        ends(write_steps(path, contents, mode)[0]->Write_path.file, ".tmp"@),
{
    let temp = temp_name(path.file);
    assert(temp.subrange(temp.len() - ".tmp"@.len(), temp.len() as int) =~= ".tmp"@);
}

/// The other name has the extension `.tmp` in place of the file's own.
pub proof fn lemma_temp_name(name: Seq<char>, extension: Seq<char>)
    requires
        name.len() > 0,
        !extension.contains('.'),
    ensures
        temp_name(name + seq!['.'] + extension) == name + ".tmp"@,
        !name.contains('.') ==> temp_name(name) == name + ".tmp"@,
{
    let file = name + seq!['.'] + extension;
    let n = name.len() as int;
    assert(file[n] == '.');
    assert forall|j: int| n < j < file.len() implies file[j] != '.' by {
        assert(file[j] == extension[j - n - 1]);
    }
    assert(last_place(file, '.') == n);
    assert(file.take(n) =~= name);
}

} // verus!
