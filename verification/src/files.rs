//! Finding the files a run will scan. Expanding the glob queries and
//! walking directories is I/O and happens outside; the collector here
//! holds the configuration and makes the one decision the walk consults:
//! how deep it may descend.

use vstd::prelude::*;

verus! {

/// The configuration of one file-discovery pass: the glob queries to
/// expand, and an optional bound on how deep below each starting point the
/// recursive walk may go.
pub struct Collecter<'a> {
    pub queries: &'a Vec<String>,
    pub max_depth: Option<usize>,
}

impl<'a> Collecter<'a> {
    /// A collector over the given glob queries, unrestricted in depth.
    pub fn new(queries: &'a Vec<String>) -> (c: Collecter<'a>)
        ensures
            c.queries == queries,
            c.max_depth is None,
    {
        Collecter { queries, max_depth: None }
    }

    /// Restricts (`Some`) or unrestricts (`None`) how deep the walk goes.
    pub fn max_depth(self, max_depth: Option<usize>) -> (c: Collecter<'a>)
        ensures
            c.queries == self.queries,
            c.max_depth == max_depth,
    {
        Collecter { max_depth, ..self }
    }

    /// Whether the walk may enter a directory sitting at the given depth:
    /// always, unless a maximum is set and the directory lies below it.
    pub fn should_descend(&self, depth: usize) -> (r: bool)
        ensures
            r == (match self.max_depth {
                Some(d) => depth <= d,
                None => true,
            }),
    {
        match self.max_depth {
            Some(d) => depth <= d,
            None => true,
        }
    }
}

} // verus!
