//! Places in a source text.

use vstd::prelude::*;
use vstd::string::StringExecFns;
use std::rc::Rc;
use crate::text::{decimal, usize_to_string};

verus! {

/// Where a stretch of text ends.
#[derive(Clone, Copy, Debug)]
pub struct Until {
    pub line: usize,
    pub col: usize,
}

/// A place in a file, by line and column, both counted from one.
#[derive(Clone, Debug)]
pub struct Srcloc {
    pub file: Rc<String>,
    pub line: usize,
    pub col: usize,
    pub until: Option<Until>,
}

impl Srcloc {
    /// The place as text: `file(line):col`, followed by `-file(line):col`
    /// of its end where it has one.
    pub open spec fn render(self) -> Seq<char> {
        let start = self.file@ + "("@ + decimal(self.line as nat) + "):"@ + decimal(
            self.col as nat,
        );
        match self.until {
            None => start,
            Some(u) => start + "-"@ + self.file@ + "("@ + decimal(u.line as nat) + "):"@
                + decimal(u.col as nat),
        }
    }

    /// The start of the file `file`.
    pub fn start(file: &str) -> (l: Srcloc)
        ensures
            l.file@ == file@,
            l.line == 1,
            l.col == 1,
            l.until is None,
    {
        Srcloc { file: Rc::new(file.to_owned()), line: 1, col: 1, until: None }
    }

    /// A copy of the place.
    pub fn copy(&self) -> (l: Srcloc)
        ensures
            l == *self,
    {
        Srcloc { file: self.file.clone(), line: self.line, col: self.col, until: self.until }
    }

    /// The place as text.
    pub fn to_string(&self) -> (s: String)
        ensures
            s@ == self.render(),
    {
        let mut s = String::new();
        assert(s@ + self.file@ =~= self.file@);
        s.append(self.file.as_str());
        s.append("(");
        s.append(usize_to_string(self.line).as_str());
        s.append("):");
        s.append(usize_to_string(self.col).as_str());
        match self.until {
            None => {},
            Some(u) => {
                s.append("-");
                s.append(self.file.as_str());
                s.append("(");
                s.append(usize_to_string(u.line).as_str());
                s.append("):");
                s.append(usize_to_string(u.col).as_str());
            },
        }
        s
    }
}

} // verus!
