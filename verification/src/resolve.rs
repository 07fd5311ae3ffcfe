//! The table that gives each definition its absolute path.

use vstd::prelude::*;

verus! {

/// The identity of a definition, as a [`Resolver`] hands it out.
#[derive(Clone, Copy, Debug, PartialEq, Eq, Hash, Structural)]
pub struct DefId {
    pub index: usize,
}

/// What a table of definitions holds: the absolute path of each definition
/// that it knows, segment by segment.
pub type DefPaths = Map<DefId, Seq<Seq<char>>>;

/// The characters of each segment of a path.
pub open spec fn segments(path: Seq<String>) -> Seq<Seq<char>> {
    path.map_values(|segment: String| segment@)
}

/// The absolute paths of the definitions of a program.
///
/// A path is absolute when it starts at the root of the crate that holds the
/// definition, whatever names are in scope where the definition is used. The
/// table hands out the identifiers itself; one that it did not hand out
/// has no path in it.
#[derive(Debug)]
pub struct Resolver {
    paths: Vec<Vec<String>>,
}

impl View for Resolver {
    type V = DefPaths;

    /// The path of every definition that the table knows.
    closed spec fn view(&self) -> DefPaths {
        Map::new(
            |id: DefId| id.index < self.paths@.len(),
            |id: DefId| segments(self.paths@[id.index as int]@),
        )
    }
}

impl Resolver {
    /// A table without definitions.
    pub fn new() -> (table: Resolver)
        ensures
            table@ == DefPaths::empty(),
    {
        let table = Resolver { paths: Vec::new() };
        table
    }

    /// Enters a definition with the absolute path `path`, and returns the
    /// identifier that stands for it from now on.
    pub fn define(&mut self, path: Vec<String>) -> (id: DefId)
        ensures
            !old(self)@.contains_key(id),
            final(self)@ == old(self)@.insert(id, segments(path@)),
    {
        let id = DefId { index: self.paths.len() };
        self.paths.push(path);
        id
    }

    /// The absolute path of `id`, or `None` where the table does not know
    /// `id`.
    pub fn absolute_path(&self, id: DefId) -> (found: Option<&Vec<String>>)
        ensures
            found is Some <==> self@.contains_key(id),
            found matches Some(path) ==> segments(path@) == self@[id],
    {
        if id.index < self.paths.len() {
            Some(&self.paths[id.index])
        } else {
            None
        }
    }
}

} // verus!
