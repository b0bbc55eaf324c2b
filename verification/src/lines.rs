//! What a reader is told, and how things come out.

use vstd::prelude::*;

use crate::failure::Failure;
use crate::text::texts;

verus! {

/// A line for the reader. `S` stands for a text.
#[derive(Debug)]
pub enum Line<S> {
    /// On the standard output.
    Out(S),
    /// On the standard error output.
    Warn(S),
}

impl View for Line<String> {
    type V = Line<Seq<char>>;

    open spec fn view(&self) -> Line<Seq<char>> {
        match *self {
            Line::Out(s) => Line::Out(s@),
            Line::Warn(s) => Line::Warn(s@),
        }
    }
}

/// A line that may be missing, as the contracts speak of it.
pub open spec fn line_opt(l: Option<Line<String>>) -> Option<Line<Seq<char>>> {
    match l {
        Some(x) => Some(x@),
        None => None,
    }
}

/// A result without a value, as the contracts speak of it.
pub open spec fn done_view(r: Result<(), Failure>) -> Result<(), Seq<Seq<char>>> {
    match r {
        Ok(u) => Ok(u),
        Err(f) => Err(f@),
    }
}

/// No lines.
pub(crate) fn silent() -> (r: Vec<String>)
    ensures
        texts(r@) == Seq::<Seq<char>>::empty(),
{
    let v: Vec<String> = Vec::new();
    assert(texts(v@) =~= Seq::<Seq<char>>::empty());
    v
}

/// One line.
pub(crate) fn line(a: String) -> (r: Vec<String>)
    ensures
        texts(r@) == seq![a@],
{
    let mut v: Vec<String> = Vec::new();
    v.push(a);
    assert(texts(v@) =~= seq![a@]);
    v
}

/// Some lines and one more.
pub(crate) fn and_line(lines: Vec<String>, a: String) -> (r: Vec<String>)
    ensures
        texts(r@) == texts(lines@).push(a@),
{
    let mut v = lines;
    v.push(a);
    assert(texts(v@) =~= texts(lines@).push(a@));
    v
}

/// One line and some more.
pub(crate) fn line_and(a: String, lines: Vec<String>) -> (r: Vec<String>)
    ensures
        texts(r@) == seq![a@] + texts(lines@),
{
    let mut v = lines;
    v.insert(0, a);
    assert(texts(v@) =~= seq![a@] + texts(lines@));
    v
}

} // verus!
