//! Source positions.

use vstd::prelude::*;
use crate::err::CompilationErr;

verus! {

/// A place in the source text.
#[derive(Debug, PartialEq, Eq)]
pub struct Pos {
    file: Option<String>,
    line: usize,
    column: usize,
    raw: Option<usize>,
}

/// The mathematical value of a [`Pos`].
pub ghost struct PosView {
    /// Name of the source file, where one is known.
    pub file: Option<Seq<char>>,
    /// Line, counted from 1.
    pub line: nat,
    /// Column: how many characters other than newlines have been read.
    pub column: nat,
    /// How many characters came before this one; `None` before the first read.
    pub raw: Option<nat>,
}

impl PosView {
    /// The position before anything has been read.
    pub open spec fn start() -> PosView {
        PosView { file: None, line: 1, column: 0, raw: None }
    }

    /// The position one character further on. `new_line` says whether the
    /// character left behind was a newline.
    pub open spec fn advance(self, new_line: bool) -> PosView {
        PosView {
            file: self.file,
            line: if new_line { self.line + 1 } else { self.line },
            column: if new_line { self.column } else { self.column + 1 },
            raw: match self.raw {
                None => Some(0),
                Some(r) => Some(r + 1),
            },
        }
    }

    /// Whether the counters of the advanced position still fit the machine.
    pub open spec fn can_advance(self, new_line: bool) -> bool {
        &&& new_line ==> self.line < usize::MAX
        &&& !new_line ==> self.column < usize::MAX
        &&& self.raw matches Some(r) ==> r < usize::MAX
    }
}

impl View for Pos {
    type V = PosView;

    closed spec fn view(&self) -> PosView {
        PosView {
            file: match self.file {
                Some(name) => Some(name@),
                None => None,
            },
            line: self.line as nat,
            column: self.column as nat,
            raw: match self.raw {
                Some(r) => Some(r as nat),
                None => None,
            },
        }
    }
}

impl Default for Pos {
    fn default() -> (r: Self)
        ensures
            r@ == PosView::start(),
    {
        Pos { file: None, line: 1, column: 0, raw: None }
    }
}

impl Clone for Pos {
    fn clone(&self) -> (r: Self)
        ensures
            r@ == self@,
    {
        Pos {
            file: match &self.file {
                Some(name) => Some(name.clone()),
                None => None,
            },
            line: self.line,
            column: self.column,
            raw: self.raw,
        }
    }
}

impl Pos {
    /// Moves one character on: to the next line if `new_line`, else to the
    /// next column; the raw offset grows by one either way.
    pub fn advance(&mut self, new_line: bool) -> (r: Result<&Self, CompilationErr>)
        requires
            old(self)@.can_advance(new_line),
        ensures
            final(self)@ == old(self)@.advance(new_line),
            r matches Ok(p) && p@ == final(self)@,
    {
        if new_line {
            self.line += 1;
        } else {
            self.column += 1;
        }
        match self.raw {
            None => self.raw = Some(0),
            Some(r) => self.raw = Some(r + 1),
        }
        Ok(self)
    }

    /// The line, counted from 1.
    pub fn line(&self) -> (n: usize)
        ensures
            n == self@.line,
    {
        self.line
    }

    /// The column.
    pub fn column(&self) -> (n: usize)
        ensures
            n == self@.column,
    {
        self.column
    }

    /// The name of the source file, where one is known.
    pub fn file(&self) -> (r: Option<&str>)
        ensures
            r matches Some(name) ==> self@.file == Some(name@),
            r is None ==> self@.file is None,
    {
        match &self.file {
            Some(name) => Some(name.as_str()),
            None => None,
        }
    }

    /// The raw offset, or `None` before the first read.
    pub fn raw(&self) -> (r: Option<usize>)
        ensures
            r matches Some(n) ==> self@.raw == Some(n as nat),
            r is None ==> self@.raw is None,
    {
        self.raw
    }
}

} // verus!
