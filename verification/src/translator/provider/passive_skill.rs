//! Nodes of the passive tree by their Chinese name.

use crate::db::{found_last, lookup, Node};
use vstd::prelude::*;

verus! {

/// Finds notables, keystones and ascendancy nodes by their Chinese name.
#[derive(Debug)]
pub struct Provider {
    notables: Vec<Node>,
    keystones: Vec<Node>,
    ascendants: Vec<Node>,
}

impl Provider {
    /// The notables that the provider holds.
    pub closed spec fn notables(&self) -> Seq<Node> {
        self.notables@
    }

    /// The keystones that the provider holds.
    pub closed spec fn keystones(&self) -> Seq<Node> {
        self.keystones@
    }

    /// The ascendancy nodes that the provider holds.
    pub closed spec fn ascendants(&self) -> Seq<Node> {
        self.ascendants@
    }

    /// A provider of the given nodes.
    pub fn new(notables: Vec<Node>, keystones: Vec<Node>, ascendants: Vec<Node>) -> (p: Provider)
        ensures
            p.notables() == notables@,
            p.keystones() == keystones@,
            p.ascendants() == ascendants@,
    {
        Provider { notables, keystones, ascendants }
    }

    /// The notable of a Chinese name: the last one given with that name.
    pub fn provide_notable_by_zh(&self, zh: &str) -> (r: Option<&Node>)
        ensures
            match r {
                Some(node) => found_last(self.notables(), zh@) == Some(*node),
                None => found_last(self.notables(), zh@) is None,
            },
    {
        lookup(&self.notables, zh)
    }

    /// The keystone of a Chinese name: the last one given with that name.
    pub fn provide_keystone_by_zh(&self, zh: &str) -> (r: Option<&Node>)
        ensures
            match r {
                Some(node) => found_last(self.keystones(), zh@) == Some(*node),
                None => found_last(self.keystones(), zh@) is None,
            },
    {
        lookup(&self.keystones, zh)
    }

    /// The ascendancy node of a Chinese name: the last one given with that
    /// name.
    pub fn provide_ascendant_by_zh(&self, zh: &str) -> (r: Option<&Node>)
        ensures
            match r {
                Some(node) => found_last(self.ascendants(), zh@) == Some(*node),
                None => found_last(self.ascendants(), zh@) is None,
            },
    {
        lookup(&self.ascendants, zh)
    }
}

} // verus!
