//! Items of a character.

use crate::db::Keyed;
use vstd::prelude::*;

verus! {

/// The items of a character, with the character they belong to.
#[derive(Debug)]
pub struct Items {
    pub character: Character,
    pub items: Vec<Item>,
}

/// Who the character is.
#[derive(Debug)]
pub struct Character {
    pub class: String,
    pub league: String,
    pub level: i32,
    pub name: String,
    pub realm: String,
}

/// One item: a piece of equipment, a jewel or a gem.
#[derive(Debug)]
pub struct Item {
    pub id: String,
    pub sockets: Option<Vec<Socket>>,
    pub influences: Option<Influences>,
    pub searing: Option<bool>,
    pub tangled: Option<bool>,
    /// Present on abyss jewels.
    pub abyss_jewel: Option<bool>,
    pub fractured: Option<bool>,
    pub name: String,
    pub type_line: String,
    pub base_type: String,
    /// Present on equipment and abyss jewels.
    pub rarity: Option<String>,
    pub ilvl: i32,
    pub corrupted: Option<bool>,
    pub properties: Option<Vec<ItemProperty>>,
    pub requirements: Option<Vec<ItemRequirement>>,
    pub enchant_mods: Option<Vec<String>>,
    pub implicit_mods: Option<Vec<String>>,
    pub explicit_mods: Option<Vec<String>>,
    pub crafted_mods: Option<Vec<String>>,
    pub utility_mods: Option<Vec<String>>,
    pub fractured_mods: Option<Vec<String>>,
    pub scourge_mods: Option<Vec<String>>,
    pub crucible_mods: Option<Vec<String>>,
    pub inventory_id: Option<String>,
    pub duplicated: Option<bool>,
    pub synthesised: Option<bool>,
    /// Present on equipment.
    pub socketed_items: Option<Vec<Box<Item>>>,
    /// Present on gems.
    pub hybrid: Option<GemHybrid>,
    pub frame_type: usize,
    /// Present on equipment: the position in its inventory.
    pub x: Option<i32>,
}

/// A property line of an item: a name and its values.
#[derive(Debug)]
pub struct ItemProperty {
    pub name: String,
    pub values: Vec<ItemPropertyValueType>,
}

/// A property value: its text and how it is displayed.
#[derive(Debug)]
pub struct ItemPropertyValueType(pub String, pub i32);

/// A requirement line of an item.
#[derive(Debug)]
pub struct ItemRequirement {
    pub name: String,
    pub values: Vec<ItemRequirementValueType>,
    pub suffix: Option<String>,
}

/// A requirement value: its text and how it is displayed.
#[derive(Debug)]
pub struct ItemRequirementValueType(pub String, pub i32);

/// The second skill of a gem that grants two.
#[derive(Debug)]
pub struct GemHybrid {
    pub base_type_name: String,
    pub is_vaal_gem: Option<bool>,
}

/// The influences on an item.
#[derive(Debug)]
pub struct Influences {
    pub shaper: Option<bool>,
    pub elder: Option<bool>,
    pub warlord: Option<bool>,
    pub hunter: Option<bool>,
    pub crusader: Option<bool>,
    pub redeemer: Option<bool>,
}

/// One socket of an item.
#[derive(Debug)]
pub struct Socket {
    pub group: usize,
    pub attr: String,
    pub s_colour: String,
}

impl Keyed for ItemProperty {
    open spec fn key(&self) -> Seq<char> {
        self.name@
    }

    fn key_str(&self) -> (k: &str) {
        self.name.as_str()
    }
}

impl Keyed for ItemRequirement {
    open spec fn key(&self) -> Seq<char> {
        self.name@
    }

    fn key_str(&self) -> (k: &str) {
        self.name.as_str()
    }
}

} // verus!
