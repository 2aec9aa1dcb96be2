//! A cursor over the lines of a script.
use crate::error::{ErrorKind, EvaluationError, Fault};
use crate::text::chars_of;
use vstd::prelude::*;

verus! {

/// The lines of a script, as characters, and the position of the current one.
/// `read_failed` says that reading stopped on an error after the last line.
pub struct ParserCursor {
    pub lines: Vec<Vec<char>>,
    pub read_failed: bool,
    pub position: usize,
}

/// The models of lines.
pub open spec fn lines_model(lines: Seq<Vec<char>>) -> Seq<Seq<char>> {
    lines.map_values(|l: Vec<char>| l@)
}

/// The models of strings.
pub open spec fn strings_model(lines: Seq<String>) -> Seq<Seq<char>> {
    lines.map_values(|l: String| l@)
}

impl ParserCursor {
    /// A cursor before the first of `lines`.
    pub fn new(lines: &Vec<String>, read_failed: bool) -> (r: Self)
        ensures
            lines_model(r.lines@) == strings_model(lines@),
            r.read_failed == read_failed,
            r.position == 0,
    {
        let mut converted: Vec<Vec<char>> = Vec::new();
        let mut i: usize = 0;
        while i < lines.len()
            invariant
                i <= lines@.len(),
                lines_model(converted@) =~= strings_model(lines@).subrange(0, i as int),
            decreases lines@.len() - i,
        {
            let line = chars_of(lines[i].as_str());
            assert(line@ == lines@[i as int]@);
            let ghost before = converted@;
            converted.push(line);
            assert(converted@ =~= before.push(line));
            assert(lines_model(converted@) =~= lines_model(before).push(line@));
            i += 1;
            assert(lines_model(converted@) =~= strings_model(lines@).subrange(0, i as int));
        }
        assert(strings_model(lines@).subrange(0, lines@.len() as int) =~= strings_model(lines@));
        Self { lines: converted, read_failed, position: 0 }
    }

    /// Whether there is a current line; past the last one, an error if
    /// reading had failed there, stamped with the number of the last line read.
    pub fn has_line(&self) -> (r: Result<bool, EvaluationError>)
        ensures
            self.position < self.lines@.len() ==> r == Ok::<bool, EvaluationError>(true),
            self.position >= self.lines@.len() && !self.read_failed ==> r == Ok::<
                bool,
                EvaluationError,
            >(false),
            self.position >= self.lines@.len() && self.read_failed ==> (r matches Err(e)
                && e@ == (self.position as nat, Fault::ReadFailure)),
    {
        if self.position < self.lines.len() {
            Ok(true)
        } else if self.read_failed {
            Err(EvaluationError::new(self.position, ErrorKind::ReadFailure))
        } else {
            Ok(false)
        }
    }

    /// Moves past the current line.
    pub fn advance(&mut self)
        requires
            old(self).position < old(self).lines@.len(),
        ensures
            final(self).position == old(self).position + 1,
            final(self).lines == old(self).lines,
            final(self).read_failed == old(self).read_failed,
    {
        let n = self.lines.len();
        assert(self.position < n);
        self.position = self.position + 1;
    }

    /// The current line.
    pub fn get_line(&self) -> (r: &Vec<char>)
        requires
            self.position < self.lines@.len(),
        ensures
            *r == self.lines@[self.position as int],
    {
        &self.lines[self.position]
    }

    /// The (1-based) number of the current line.
    pub fn get_line_number(&self) -> (r: usize)
        requires
            self.position < self.lines@.len(),
        ensures
            r == self.position + 1,
    {
        let n = self.lines.len();
        assert(self.position < n);
        self.position + 1
    }
}

} // verus!
