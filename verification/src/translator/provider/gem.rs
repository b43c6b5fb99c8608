//! Gems and skills by their Chinese name.

use crate::db::{found_last, lookup, Gem, Skill};
use vstd::prelude::*;

verus! {

/// The skill that a gem grants, under the gem's names.
pub open spec fn skill_of(gem: Gem) -> Skill {
    Skill { zh: gem.zh, en: gem.en }
}

/// Finds gems and skills by their Chinese name.
#[derive(Debug)]
pub struct Provider {
    skills: Vec<Skill>,
}

impl Provider {
    /// The skills that the provider holds: those of the gems, then the
    /// hybrid skills.
    pub closed spec fn entries(&self) -> Seq<Skill> {
        self.skills@
    }

    /// A provider of the skills of the given gems and of the given hybrid
    /// skills.
    pub fn new(gems: Vec<Gem>, hybrid_skills: Vec<Skill>) -> (p: Provider)
        ensures
            p.entries() == gems@.map_values(|gem: Gem| skill_of(gem)) + hybrid_skills@,
    {
        let mut skills: Vec<Skill> = Vec::new();
        let mut gems = gems;
        let ghost all = gems@;
        while gems.len() > 0
            invariant
                skills@ + gems@.map_values(|gem: Gem| skill_of(gem)) == all.map_values(
                    |gem: Gem| skill_of(gem),
                ),
                skills.len() + gems.len() == all.len(),
            decreases gems.len(),
        {
            let ghost before = gems@;
            let gem = gems.remove(0);
            skills.push(Skill { zh: gem.zh, en: gem.en });
            assert(skills@ + gems@.map_values(|gem: Gem| skill_of(gem)) =~= skills@.drop_last()
                + before.map_values(|gem: Gem| skill_of(gem)));
        }
        assert(skills@ =~= all.map_values(|gem: Gem| skill_of(gem)));
        let mut hybrid_skills = hybrid_skills;
        skills.append(&mut hybrid_skills);
        Provider { skills }
    }

    /// The skill of a Chinese name: the last one with that name, a hybrid
    /// skill before a gem.
    pub fn provide_by_zh(&self, zh: &str) -> (r: Option<&Skill>)
        ensures
            match r {
                Some(skill) => found_last(self.entries(), zh@) == Some(*skill),
                None => found_last(self.entries(), zh@) is None,
            },
    {
        lookup(&self.skills, zh)
    }
}

} // verus!
