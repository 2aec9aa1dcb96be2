//! The indentation unit of a script and the nesting level of its lines.
//!
//! The first indented line fixes the unit: a run of N spaces, or a tab. Every
//! line's leading run of spaces and tabs must then be of that kind, and a run
//! of spaces a multiple of N; a run that holds both kinds is always an error.
use crate::error::{AnonymousEvaluationError, ErrorKind, Fault};
use vstd::prelude::*;

verus! {

/// The unit of indentation.
#[derive(PartialEq, Eq, Structural, Clone, Copy, Debug)]
pub enum Indentation {
    /// A run of this many spaces.
    Spaces(usize),
    /// One tab.
    Tabs,
}

/// What is known of a script's indentation unit so far.
pub struct ParserIndentation {
    pub indentation: Option<Indentation>,
}

/// The end of the leading run of spaces and tabs from `p` on.
pub open spec fn run_end(line: Seq<char>, p: int) -> int
    decreases line.len() - p,
{
    if p < 0 || p >= line.len() || !(line[p] == ' ' || line[p] == '\t') {
        p
    } else {
        run_end(line, p + 1)
    }
}

/// The length of a line's leading run of spaces and tabs.
pub open spec fn run_len(line: Seq<char>) -> int {
    run_end(line, 0)
}

/// Whether the leading run holds `c`.
pub open spec fn run_has(line: Seq<char>, c: char) -> bool {
    exists|i: int| 0 <= i < run_len(line) && line[i] == c
}

/// The unit after seeing `line`: the first indented line that is not mixed fixes it.
pub open spec fn unit_update(u: Option<Indentation>, line: Seq<char>) -> Option<Indentation> {
    match u {
        Some(x) => Some(x),
        None => if run_len(line) == 0 || (run_has(line, ' ') && run_has(line, '\t')) {
            None
        } else if line[0] == ' ' {
            Some(Indentation::Spaces(run_len(line) as usize))
        } else {
            Some(Indentation::Tabs)
        },
    }
}

/// The nesting level of `line` under the unit `u`.
pub open spec fn level_under(u: Option<Indentation>, line: Seq<char>) -> Result<nat, Fault> {
    let n = run_len(line);
    let spaces = run_has(line, ' ');
    let tabs = run_has(line, '\t');
    if spaces && tabs {
        Err(Fault::MixedIndentation)
    } else {
        match u {
            None => Ok(0),
            Some(Indentation::Spaces(k)) => if tabs {
                Err(Fault::MixedIndentation)
            } else if k == 0 || n % (k as int) != 0 {
                Err(Fault::UnevenIndentation)
            } else {
                Ok((n / (k as int)) as nat)
            },
            Some(Indentation::Tabs) => if spaces {
                Err(Fault::MixedIndentation)
            } else {
                Ok(n as nat)
            },
        }
    }
}

/// What is left of `line` after `level` units of indentation.
pub open spec fn trimmed(u: Option<Indentation>, line: Seq<char>, level: nat) -> Seq<char> {
    let amount: int = match u {
        Some(Indentation::Spaces(k)) => k * level,
        Some(Indentation::Tabs) => level as int,
        None => 0,
    };
    if amount >= line.len() {
        Seq::empty()
    } else {
        line.skip(amount)
    }
}

/// The leading run of `line`: its length and whether it holds a space, a tab.
fn leading_run(line: &Vec<char>) -> (r: (usize, bool, bool))
    ensures
        r.0 as int == run_len(line@),
        r.1 == run_has(line@, ' '),
        r.2 == run_has(line@, '\t'),
{
    let mut i: usize = 0;
    let mut spaces = false;
    let mut tabs = false;
    while i < line.len() && (line[i] == ' ' || line[i] == '\t')
        invariant
            i <= line@.len(),
            run_end(line@, 0) == run_end(line@, i as int),
            forall|j: int| 0 <= j < i ==> (line@[j] == ' ' || line@[j] == '\t'),
            spaces == (exists|j: int| 0 <= j < i && line@[j] == ' '),
            tabs == (exists|j: int| 0 <= j < i && line@[j] == '\t'),
        decreases line@.len() - i,
    {
        if line[i] == ' ' {
            spaces = true;
        } else {
            tabs = true;
        }
        i += 1;
    }
    (i, spaces, tabs)
}

impl ParserIndentation {
    pub fn new() -> (r: Self)
        ensures
            r.indentation == None::<Indentation>,
    {
        Self { indentation: None }
    }

    /// The level of `line`; the first indented line fixes the unit.
    pub fn determine(&mut self, line: &Vec<char>) -> (r: Result<usize, AnonymousEvaluationError>)
        ensures
            final(self).indentation == unit_update(old(self).indentation, line@),
            match r {
                Ok(l) => level_under(final(self).indentation, line@) == Ok::<nat, Fault>(l as nat),
                Err(e) => level_under(final(self).indentation, line@) == Err::<nat, Fault>(e@),
            },
    {
        let (n, spaces, tabs) = leading_run(line);
        if self.indentation.is_none() && n > 0 && !(spaces && tabs) {
            if line[0] == ' ' {
                self.indentation = Some(Indentation::Spaces(n));
            } else {
                self.indentation = Some(Indentation::Tabs);
            }
        }
        if spaces && tabs {
            return Err(AnonymousEvaluationError::new(ErrorKind::MixedIndentation));
        }
        match self.indentation {
            None => Ok(0),
            Some(Indentation::Spaces(k)) => {
                if tabs {
                    Err(AnonymousEvaluationError::new(ErrorKind::MixedIndentation))
                } else if k == 0 || n % k != 0 {
                    Err(AnonymousEvaluationError::new(ErrorKind::UnevenIndentation))
                } else {
                    Ok(n / k)
                }
            },
            Some(Indentation::Tabs) => {
                if spaces {
                    Err(AnonymousEvaluationError::new(ErrorKind::MixedIndentation))
                } else {
                    Ok(n)
                }
            },
        }
    }

    /// Whether `line` is at `level`: deeper is an error, shallower is `false`.
    pub fn eq(&mut self, line: &Vec<char>, level: usize) -> (r: Result<bool, AnonymousEvaluationError>)
        ensures
            final(self).indentation == unit_update(old(self).indentation, line@),
            match level_under(final(self).indentation, line@) {
                Ok(l) => if l > level {
                    r matches Err(e) && e@ == Fault::UnexpectedIndentation
                } else {
                    r == Ok::<bool, AnonymousEvaluationError>(l == level)
                },
                Err(f) => r matches Err(e) && e@ == f,
            },
    {
        let found = match self.determine(line) {
            Ok(l) => l,
            Err(e) => {
                return Err(e);
            },
        };
        if found > level {
            Err(AnonymousEvaluationError::new(ErrorKind::UnexpectedIndentation))
        } else {
            Ok(found == level)
        }
    }

    /// Whether `line` is at `level` or deeper.
    pub fn ge(&mut self, line: &Vec<char>, level: usize) -> (r: Result<bool, AnonymousEvaluationError>)
        ensures
            final(self).indentation == unit_update(old(self).indentation, line@),
            match level_under(final(self).indentation, line@) {
                Ok(l) => r == Ok::<bool, AnonymousEvaluationError>(l >= level),
                Err(f) => r matches Err(e) && e@ == f,
            },
    {
        match self.determine(line) {
            Ok(l) => Ok(l >= level),
            Err(e) => Err(e),
        }
    }

    /// `line` without its first `level` units of indentation.
    pub fn trim(&self, line: &Vec<char>, level: usize) -> (r: Vec<char>)
        ensures
            r@ == trimmed(self.indentation, line@, level as nat),
    {
        let amount: Option<usize> = match self.indentation {
            Some(Indentation::Spaces(k)) => k.checked_mul(level),
            Some(Indentation::Tabs) => Some(level),
            None => Some(0),
        };
        proof {
            match self.indentation {
                Some(Indentation::Spaces(k)) => {
                    if let Some(a) = amount {
                        assert(a as int == k as int * level as int);
                    }
                },
                _ => {},
            }
        }
        let len = line.len();
        let cut: usize = match amount {
            Some(a) => if a >= len {
                len
            } else {
                a
            },
            None => len,
        };
        let r = crate::text::slice_chars(line, cut, len);
        assert(cut == len ==> r@ =~= Seq::<char>::empty());
        r
    }
}

} // verus!
