//! Properties by their Chinese name and by its canonical body.

use crate::db::{find_all, found_last, is_text, lookup, pick, Property};
use crate::search::all_matches;
use crate::translator::util::{get_zh_body, zh_body};
use vstd::prelude::*;

verus! {

/// The condition that the name of a property has the canonical body
/// `body`.
pub open spec fn has_body(body: Seq<char>) -> spec_fn(Property) -> bool {
    |property: Property| zh_body(property.zh@) == body
}

/// The properties whose name has the canonical body `body`, in their
/// order.
pub open spec fn with_body(list: Seq<Property>, body: Seq<char>) -> Seq<Property> {
    Seq::new(
        all_matches(list, has_body(body)).len(),
        |k: int| list[all_matches(list, has_body(body))[k]],
    )
}

/// Finds properties by their Chinese name, and by the canonical body of a
/// name that carries parameters.
#[derive(Debug)]
pub struct Provider {
    properties: Vec<Property>,
    bodies: Vec<String>,
}

impl Provider {
    #[verifier::type_invariant]
    spec fn well_formed(self) -> bool {
        &&& self.bodies.len() == self.properties.len()
        &&& forall|i: int|
            0 <= i < self.bodies.len() ==> (#[trigger] self.bodies[i])@ == zh_body(
                self.properties[i].zh@,
            )
    }

    /// The properties that the provider holds, in the order given.
    pub closed spec fn entries(&self) -> Seq<Property> {
        self.properties@
    }

    /// A provider of the given properties.
    pub fn new(properties: Vec<Property>) -> (p: Provider)
        ensures
            p.entries() == properties@,
    {
        let mut bodies: Vec<String> = Vec::new();
        let mut i: usize = 0;
        while i < properties.len()
            invariant
                i <= properties.len(),
                bodies.len() == i,
                forall|j: int|
                    0 <= j < i ==> (#[trigger] bodies[j])@ == zh_body(properties[j].zh@),
            decreases properties.len() - i,
        {
            bodies.push(get_zh_body(properties[i].zh.as_str()));
            i += 1;
        }
        Provider { properties, bodies }
    }

    /// The property of a Chinese name: the last one given with that name.
    pub fn provide_by_zh(&self, zh: &str) -> (r: Option<&Property>)
        ensures
            match r {
                Some(property) => found_last(self.entries(), zh@) == Some(*property),
                None => found_last(self.entries(), zh@) is None,
            },
    {
        lookup(&self.properties, zh)
    }

    /// The properties whose name has the canonical body `zh_body`, in their
    /// order, or `None` where there is none.
    pub fn provice_by_zh_body(&self, zh_body: &str) -> (r: Option<Vec<&Property>>)
        ensures
            match r {
                Some(list) => {
                    &&& list.len() > 0
                    &&& list.len() == with_body(self.entries(), zh_body@).len()
                    &&& forall|k: int|
                        0 <= k < list.len() ==> *(#[trigger] list@[k]) == with_body(
                            self.entries(),
                            zh_body@,
                        )[k]
                },
                None => with_body(self.entries(), zh_body@).len() == 0,
            },
    {
        proof {
            use_type_invariant(self);
            lemma_bodies(self.properties@, self.bodies.deep_view(), zh_body@);
        }
        let places = find_all(&self.bodies, zh_body);
        let list = pick(&self.properties, &places);
        proof {
            let ints = places@.map_values(|i: usize| i as int);
            assert(ints.len() == places.len());
            assert forall|k: int| 0 <= k < list.len() implies *(#[trigger] list@[k]) == with_body(
                self.entries(),
                zh_body@,
            )[k] by {
                assert(ints[k] == places@[k] as int);
            }
        }
        if list.len() == 0 {
            None
        } else {
            Some(list)
        }
    }
}

/// The places of a body among the bodies are the places of the properties
/// with that body.
proof fn lemma_bodies(list: Seq<Property>, bodies: Seq<Seq<char>>, body: Seq<char>)
    requires
        bodies.len() == list.len(),
        forall|i: int| 0 <= i < list.len() ==> #[trigger] bodies[i] == zh_body(list[i].zh@),
    ensures
        all_matches(bodies, is_text(body)) == all_matches(list, has_body(body)),
    decreases list.len(),
{
    if list.len() > 0 {
        assert(bodies.last() == zh_body(list.last().zh@));
        assert forall|i: int| 0 <= i < list.len() - 1 implies #[trigger] bodies.drop_last()[i]
            == zh_body(list.drop_last()[i].zh@) by {
            assert(bodies.drop_last()[i] == bodies[i]);
        }
        lemma_bodies(list.drop_last(), bodies.drop_last(), body);
    }
}

} // verus!
