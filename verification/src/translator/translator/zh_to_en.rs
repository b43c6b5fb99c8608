//! From Chinese to English.

pub mod basic;
pub mod json;

pub use basic::Basic;
pub use json::Json;

use crate::db::Assets;
use crate::translator::provider::{
    attribute, base_type, gem, passive_skill, property, requirement, stat,
};
use basic::Catalog;
use std::sync::Arc;
use vstd::prelude::*;

verus! {

/// `Arc::clone` of the standard library: another handle to the same value.
#[verifier::external_body]
fn share(basic: &Arc<Basic>) -> (r: Arc<Basic>)
    ensures
        r == *basic,
{
    basic.clone()
}

/// The base types of a catalog in the order in which they are looked up:
/// amulets, belts, rings, body armours, boots, gloves, helmets, quivers,
/// shields, flasks, jewels, tinctures, weapons and tattoos.
pub open spec fn base_types_of(assets: Assets) -> Seq<crate::db::BaseType> {
    assets.amulets@ + assets.belts@ + assets.rings@ + assets.body_armours@ + assets.boots@
        + assets.gloves@ + assets.helmets@ + assets.quivers@ + assets.shields@ + assets.flasks@
        + assets.jewels@ + assets.tinctures@ + assets.weapons@ + assets.tattoos@
}

/// Makes the translators of a catalog.
pub struct Factory {
    basic: Arc<Basic>,
}

impl Factory {
    /// What the translators look names and texts up in.
    pub closed spec fn catalog(&self) -> Catalog {
        self.basic.catalog()
    }

    /// A factory of translators that look up in the given catalog.
    pub fn new(assets: Assets) -> (factory: Factory)
        ensures
            factory.catalog().attributes == assets.attributes@,
            factory.catalog().base_types == base_types_of(assets),
            factory.catalog().skills == assets.gems@.map_values(
                |g: crate::db::Gem| gem::skill_of(g),
            ) + assets.hybrid_skills@,
            factory.catalog().notables == assets.notables@,
            factory.catalog().keystones == assets.keystones@,
            factory.catalog().ascendants == assets.ascendant@,
            factory.catalog().properties == assets.properties@,
            factory.catalog().requirements == assets.requirements@,
            factory.catalog().suffixes == assets.requirement_suffixes@,
            factory.catalog().stats == assets.stats@,
    {
        let ghost whole = assets;
        let attribute_provider = attribute::Provider::new(assets.attributes);
        let mut categories: Vec<Vec<crate::db::BaseType>> = Vec::new();
        categories.push(assets.amulets);
        categories.push(assets.belts);
        categories.push(assets.rings);
        categories.push(assets.body_armours);
        categories.push(assets.boots);
        categories.push(assets.gloves);
        categories.push(assets.helmets);
        categories.push(assets.quivers);
        categories.push(assets.shields);
        categories.push(assets.flasks);
        categories.push(assets.jewels);
        categories.push(assets.tinctures);
        categories.push(assets.weapons);
        categories.push(assets.tattoos);
        proof {
            reveal_with_fuel(base_type::flattened, 15);
            assert(base_type::flattened(categories@, 14) =~= base_types_of(whole));
        }
        let basetype_provider = base_type::Provider::new(categories);
        let gem_provider = gem::Provider::new(assets.gems, assets.hybrid_skills);
        let passive_skill_provider = passive_skill::Provider::new(
            assets.notables,
            assets.keystones,
            assets.ascendant,
        );
        let property_provider = property::Provider::new(assets.properties);
        let requirement_provider = requirement::Provider::new(
            assets.requirements,
            assets.requirement_suffixes,
        );
        let stat_provider = stat::Provider::new(assets.stats);
        let basic = Basic::new(
            attribute_provider,
            basetype_provider,
            gem_provider,
            passive_skill_provider,
            property_provider,
            requirement_provider,
            stat_provider,
        );
        Factory { basic: Arc::new(basic) }
    }

    /// The translator of single names and lines.
    pub fn basic_translator(&self) -> (basic: Arc<Basic>)
        ensures
            basic.catalog() == self.catalog(),
    {
        share(&self.basic)
    }

    /// The translator of whole records.
    pub fn json_translator(&self) -> (json: Json)
        ensures
            json.catalog() == self.catalog(),
    {
        Json::new(share(&self.basic))
    }
}

} // verus!
