//! Attributes by their Chinese name.

use crate::db::{found_last, lookup, Attribute};
use vstd::prelude::*;

verus! {

/// Finds attributes by their Chinese name.
#[derive(Debug)]
pub struct Provider {
    attributes: Vec<Attribute>,
}

impl Provider {
    /// The attributes that the provider holds, in the order given.
    pub closed spec fn entries(&self) -> Seq<Attribute> {
        self.attributes@
    }

    /// A provider of the given attributes.
    pub fn new(attributes: Vec<Attribute>) -> (p: Provider)
        ensures
            p.entries() == attributes@,
    {
        Provider { attributes }
    }

    /// The attribute of a Chinese name: the last one given with that name.
    pub fn provide_by_zh(&self, zh: &str) -> (r: Option<&Attribute>)
        ensures
            match r {
                Some(attribute) => found_last(self.entries(), zh@) == Some(*attribute),
                None => found_last(self.entries(), zh@) is None,
            },
    {
        lookup(&self.attributes, zh)
    }
}

} // verus!
