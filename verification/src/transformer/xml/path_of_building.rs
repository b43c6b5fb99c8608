//! The whole build document.

use super::build_head::Build;
use super::config::Config;
use super::items::Items;
use super::skills::Skills;
use super::tree::Tree;
use super::Xml;
use vstd::prelude::*;

verus! {

/// A build as the building tool reads it.
#[derive(Debug)]
pub struct PathOfBuilding {
    pub build: Build,
    pub skills: Skills,
    pub tree: Tree,
    pub items: Items,
    pub config: Config,
}

impl Default for PathOfBuilding {
    fn default() -> (r: Self)
        ensures
            r.build.level == 0,
            r.build.class_name@ == "None"@,
            r.build.ascend_class_name@ == "None"@,
            r.skills.skill_set.skills@.len() == 0,
            r.tree.spec.tree_version@ == "3_25"@,
            r.tree.spec.ascend_class_id == 0,
            r.tree.spec.secondary_ascend_class_id == 0,
            r.tree.spec.class_id == 0,
            r.tree.spec.mastery_effects@.len() == 0,
            r.tree.spec.nodes@.len() == 0,
            r.tree.spec.sockets.sockets@.len() == 0,
            r.tree.spec.overrides.members().len() == 0,
            r.items.items@.len() == 0,
            r.items.item_set.slots@.len() == 0,
            !r.items.item_set.use_second_weapon_set,
            r.items.item_set.id == 1,
            r.config.inputs().len() == 1,
            r.config.inputs()[0].name() == super::config::K_ENEMY_IS_BOSS@,
            r.config.inputs()[0].kind() == "string"@,
            r.config.inputs()[0].value() == super::config::V_ENEMY_SHAPER@,
    {
        PathOfBuilding {
            build: Build::default(),
            skills: Skills::default(),
            tree: Tree::default(),
            items: Items::default(),
            config: Config::default(),
        }
    }
}

impl Xml for PathOfBuilding {
    open spec fn xml(&self) -> Seq<char> {
        "<?xml version=\"1.0\" encoding=\"UTF-8\"?>\n<PathOfBuilding>\n"@ + self.build.xml()
            + "\n"@ + self.skills.xml() + "\n"@ + self.tree.xml() + "\n"@ + self.items.xml()
            + "\n"@ + self.config.xml() + "\n</PathOfBuilding>"@
    }

    fn to_string(&self) -> (text: String) {
        let mut s = "<?xml version=\"1.0\" encoding=\"UTF-8\"?>\n<PathOfBuilding>\n".to_owned();
        let build = self.build.to_string();
        s.append(build.as_str());
        s.append("\n");
        let skills = self.skills.to_string();
        s.append(skills.as_str());
        s.append("\n");
        let tree = self.tree.to_string();
        s.append(tree.as_str());
        s.append("\n");
        let items = self.items.to_string();
        s.append(items.as_str());
        s.append("\n");
        let config = self.config.to_string();
        s.append(config.as_str());
        s.append("\n</PathOfBuilding>");
        s
    }
}

} // verus!
