//! Requirements and their suffixes by their Chinese name.

use crate::db::{found_last, lookup, Requirement, RequirementSuffix};
use vstd::prelude::*;

verus! {

/// Finds requirements and requirement suffixes by their Chinese name.
#[derive(Debug)]
pub struct Provider {
    requirements: Vec<Requirement>,
    suffixes: Vec<RequirementSuffix>,
}

impl Provider {
    /// The requirements that the provider holds.
    pub closed spec fn requirements(&self) -> Seq<Requirement> {
        self.requirements@
    }

    /// The suffixes that the provider holds.
    pub closed spec fn suffixes(&self) -> Seq<RequirementSuffix> {
        self.suffixes@
    }

    /// A provider of the given requirements and suffixes.
    pub fn new(requirements: Vec<Requirement>, suffixes: Vec<RequirementSuffix>) -> (p: Provider)
        ensures
            p.requirements() == requirements@,
            p.suffixes() == suffixes@,
    {
        Provider { requirements, suffixes }
    }

    /// The requirement of a Chinese name: the last one given with that
    /// name.
    pub fn provide_by_zh(&self, zh: &str) -> (r: Option<&Requirement>)
        ensures
            match r {
                Some(requirement) => found_last(self.requirements(), zh@) == Some(*requirement),
                None => found_last(self.requirements(), zh@) is None,
            },
    {
        lookup(&self.requirements, zh)
    }

    /// The suffix of a Chinese name: the last one given with that name.
    pub fn provide_suffix_by_zh(&self, zh: &str) -> (r: Option<&RequirementSuffix>)
        ensures
            match r {
                Some(suffix) => found_last(self.suffixes(), zh@) == Some(*suffix),
                None => found_last(self.suffixes(), zh@) is None,
            },
    {
        lookup(&self.suffixes, zh)
    }
}

} // verus!
