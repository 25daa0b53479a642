//! A program invocation, as planned for the process port.
use vstd::prelude::*;
use crate::text::texts;

verus! {

/// One program to start: its arguments, directories to search for it before
/// the inherited `PATH`, whether the command line is echoed first, and whether
/// its standard output is discarded.
#[derive(Debug, Clone, PartialEq, Eq)]
pub struct Invocation {
    pub program: String,
    pub args: Vec<String>,
    pub extra_path: Option<String>,
    pub verbose: bool,
    pub silence_stdout: bool,
}

/// The mathematical content of an [`Invocation`].
pub struct InvocationView {
    pub program: Seq<char>,
    pub args: Seq<Seq<char>>,
    pub extra_path: Option<Seq<char>>,
    pub verbose: bool,
    pub silence_stdout: bool,
}

impl View for Invocation {
    type V = InvocationView;

    open spec fn view(&self) -> InvocationView {
        InvocationView {
            program: self.program@,
            args: texts(self.args@),
            extra_path: match self.extra_path {
                Some(p) => Some(p@),
                None => None,
            },
            verbose: self.verbose,
            silence_stdout: self.silence_stdout,
        }
    }
}

/// Copies of the strings, in order.
pub fn copy_strings(v: &[String]) -> (r: Vec<String>)
    ensures
        texts(r@) == texts(v@),
{
    let mut r: Vec<String> = Vec::new();
    let mut i: usize = 0;
    while i < v.len()
        invariant
            i <= v@.len(),
            r@.len() == i,
            forall|j: int| 0 <= j < i ==> (#[trigger] r@[j])@ == v@[j]@,
        decreases v.len() - i,
    {
        r.push(v[i].clone());
        i = i + 1;
    }
    assert(texts(r@) =~= texts(v@));
    r
}

} // verus!
