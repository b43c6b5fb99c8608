//! Base types by their Chinese name.

use crate::db::{found_all, lookup_all, BaseType};
use vstd::prelude::*;

verus! {

/// The base types of the first `n` categories, one category after the
/// other.
pub open spec fn flattened(categories: Seq<Vec<BaseType>>, n: int) -> Seq<BaseType>
    decreases n,
{
    if n <= 0 {
        seq![]
    } else {
        flattened(categories, n - 1) + categories[n - 1]@
    }
}

/// Finds base types by their Chinese name. Several base types may share a
/// name.
#[derive(Debug)]
pub struct Provider {
    base_types: Vec<BaseType>,
}

impl Provider {
    /// The base types that the provider holds, in the order of their
    /// categories.
    pub closed spec fn entries(&self) -> Seq<BaseType> {
        self.base_types@
    }

    /// A provider of the base types of the given categories.
    pub fn new(categories: Vec<Vec<BaseType>>) -> (p: Provider)
        ensures
            p.entries() == flattened(categories@, categories.len() as int),
    {
        let ghost all = categories@;
        let mut categories = categories;
        let mut list: Vec<BaseType> = Vec::new();
        let ghost mut done: int = 0;
        while categories.len() > 0
            invariant
                0 <= done <= all.len(),
                categories@ == all.skip(done),
                list@ == flattened(all, done),
            decreases categories.len(),
        {
            let mut category = categories.remove(0);
            proof {
                assert(category == all[done]);
                assert(categories@ =~= all.skip(done + 1));
                done = done + 1;
            }
            list.append(&mut category);
        }
        Provider { base_types: list }
    }

    /// The base types of a Chinese name, in their order, or `None` where
    /// there is none.
    pub fn provide_by_zh(&self, zh: &str) -> (r: Option<Vec<&BaseType>>)
        ensures
            match r {
                Some(list) => {
                    &&& list.len() > 0
                    &&& list.len() == found_all(self.entries(), zh@).len()
                    &&& forall|k: int|
                        0 <= k < list.len() ==> *(#[trigger] list@[k]) == found_all(
                            self.entries(),
                            zh@,
                        )[k]
                },
                None => found_all(self.entries(), zh@).len() == 0,
            },
    {
        let list = lookup_all(&self.base_types, zh);
        if list.len() == 0 {
            None
        } else {
            Some(list)
        }
    }
}

} // verus!
