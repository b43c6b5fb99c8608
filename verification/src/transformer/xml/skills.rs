//! The skills of the build: groups of gems, each in the item that holds
//! them.

use super::{extract_number, first_number, flag_text, join_parts, joined, push_flag, texts_of, Xml};
use crate::db::{found_last, lookup};
use crate::model::items::{Item, ItemProperty};
use crate::search::first_match;
use crate::text::{concat, decimal, push_decimal, replace, replaced, starts_with};
use crate::transformer::support::{find_name, spells};
use vstd::prelude::*;

verus! {

/// The transfigured gems that have a Vaal form.
pub const TRANSFIGURED_GEMS: [&'static str; 185] = [
    "Ice Nova of Frostbolts",
    "Ice Nova of Deep Freeze",
    "Leap Slam of Groundbreaking",
    "Blade Flurry of Incision",
    "Ground Slam of Earthshaking",
    "Cleave of Rage",
    "Double Strike of Impaling",
    "Double Strike of Momentum",
    "Lacerate of Butchering",
    "Lacerate of Haemorrhage",
    "Elemental Hit of the Spectrum",
    "Dual Strike of Ambidexterity",
    "Frenzy of Onslaught",
    "Detonate Dead of Scavenging",
    "Detonate Dead of Chain Reaction",
    "Volatile Dead of Confinement",
    "Volatile Dead of Seething",
    "Split Arrow of Splitting",
    "Cold Snap of Power",
    "Raise Zombie of Slamming",
    "Raise Zombie of Falling",
    "Caustic Arrow of Poison",
    "Righteous Fire of Arcane Devotion",
    "Discharge of Misery",
    "Flicker Strike of Power",
    "Spark of the Nova",
    "Spark of Unpredictability",
    "Ice Spear of Splitting",
    "Raise Spectre of Transience",
    "Infernal Blow of Immolation",
    "Glacial Hammer of Shattering",
    "Viper Strike of the Mamba",
    "Summon Skeletons of Archers",
    "Summon Skeletons of Mages",
    "Dominating Blow of Inspiring",
    "Rain of Arrows of Artillery",
    "Rain of Arrows of Saturation",
    "Firestorm of Meteors",
    "Firestorm of Pelting",
    "Lightning Strike of Arcing",
    "Power Siphon of the Archmage",
    "Puncture of Shanking",
    "Lightning Arrow of Electrocution",
    "Burning Arrow of Vigour",
    "Icicle Mine of Fanning",
    "Icicle Mine of Sabotage",
    "Bear Trap of Skewers",
    "Fire Trap of Blasting",
    "Ethereal Knives of Lingering Blades",
    "Ethereal Knives of the Massacre",
    "Ice Shot of Penetration",
    "Arc of Surging",
    "Arc of Oscillating",
    "Holy Flame Totem of Ire",
    "Incinerate of Expanse",
    "Incinerate of Venting",
    "Cyclone of Tumult",
    "Reave of Refraction",
    "Lightning Trap of Sparking",
    "Animate Guardian of Smiting",
    "Spectral Shield Throw of Shattering",
    "Spectral Throw of Materialising",
    "Animate Weapon of Self Reflection",
    "Animate Weapon of Ranged Arms",
    "Flameblast of Celerity",
    "Flameblast of Contraction",
    "Barrage of Volley Fire",
    "Ball Lightning of Orbiting",
    "Ball Lightning of Static",
    "Summon Raging Spirit of Enormity",
    "Flame Surge of Combusting",
    "Glacial Cascade of the Fissure",
    "Molten Strike of the Zenith",
    "Pyroclast Mine of Sabotage",
    "Tornado Shot of Cloudburst",
    "Lightning Tendrils of Eccentricity",
    "Lightning Tendrils of Escalation",
    "Kinetic Blast of Clustering",
    "Blink Arrow of Bombarding Clones",
    "Blink Arrow of Prismatic Clones",
    "Mirror Arrow of Bombarding Clones",
    "Mirror Arrow of Prismatic Clones",
    "Summon Chaos Golem of Hordes",
    "Summon Chaos Golem of the Maelstræžšm",
    "Summon Ice Golem of Hordes",
    "Summon Ice Golem of Shattering",
    "Summon Flame Golem of Hordes",
    "Summon Flame Golem of the Meteor",
    "Summon Lightning Golem of Hordes",
    "Ice Crash of Cadence",
    "Flame Dash of Return",
    "Frost Blades of Katabasis",
    "Wild Strike of Extremes",
    "Ice Trap of Hollowness",
    "Galvanic Arrow of Energy",
    "Galvanic Arrow of Surging",
    "Bladefall of Volleys",
    "Bladefall of Impaling",
    "Blade Vortex of the Scythe",
    "Frost Bomb of Instability",
    "Frost Bomb of Forthcoming",
    "Siege Ballista of Splintering",
    "Summon Stone Golem of Hordes",
    "Summon Stone Golem of Safeguarding",
    "Earthquake of Amplification",
    "Contagion of Subsiding",
    "Contagion of Transference",
    "Blight of Contagion",
    "Blight of Atrophy",
    "Essence Drain of Desperation",
    "Essence Drain of Wickedness",
    "Sunder of Earthbreaking",
    "Vortex of Projection",
    "Scorching Ray of Immolation",
    "Cremation of Exhuming",
    "Cremation of the Volcano",
    "Bodyswap of Sacrifice",
    "Tectonic Slam of Cataclysm",
    "Explosive Trap of Shrapnel",
    "Explosive Trap of Magnitude",
    "Lightning Spire Trap of Zapping",
    "Lightning Spire Trap of Overloading",
    "Seismic Trap of Swells",
    "Consecrated Path of Endurance",
    "Smite of Divine Judgement",
    "Scourge Arrow of Menace",
    "Toxic Rain of Sporeburst",
    "Toxic Rain of Withering",
    "Summon Holy Relic of Conviction",
    "Lancing Steel of Spraying",
    "Storm Brand of Indecision",
    "Shattering Steel of Ammunition",
    "Armageddon Brand of Volatility",
    "Armageddon Brand of Recall",
    "Purifying Flame of Revelations",
    "Soulrend of Reaping",
    "Soulrend of the Spiral",
    "Bane of Condemnation",
    "Divine Ire of Holy Lightning",
    "Divine Ire of Disintegration",
    "Bladestorm of Uncertainty",
    "Perforate of Duality",
    "Perforate of Bloodshed",
    "Frostblink of Wintry Blast",
    "Summon Carrion Golem of Hordes",
    "Summon Carrion Golem of Scavenging",
    "Shrapnel Ballista of Steel",
    "Artillery Ballista of Cross Strafe",
    "Artillery Ballista of Focus Fire",
    "Stormbind of Teleportation",
    "Kinetic Bolt of Fragmentation",
    "Blade Blast of Unloading",
    "Blade Blast of Dagger Detonation",
    "Penance Brand of Dissipation",
    "Penance Brand of Conduction",
    "Earthshatter of Fragility",
    "Earthshatter of Prominence",
    "Void Sphere of Rending",
    "Crackling Lance of Branching",
    "Crackling Lance of Disintegration",
    "Splitting Steel of Ammunition",
    "Hexblast of Contradiction",
    "Hexblast of Havoc",
    "Exsanguinate of Transmission",
    "Rage Vortex of Berserking",
    "Absolution of Inspiring",
    "Forbidden Rite of Soul Sacrifice",
    "Blade Trap of Greatswords",
    "Blade Trap of Laceration",
    "Storm Rain of the Conduit",
    "Storm Rain of the Fence",
    "Shield Crush of the Chieftain",
    "Summon Reaper of Revenants",
    "Summon Reaper of Eviscerating",
    "Boneshatter of Complex Trauma",
    "Boneshatter of Carnage",
    "Explosive Concoction of Destruction",
    "Eye of Winter of Finality",
    "Eye of Winter of Transience",
    "Poisonous Concoction of Bouncing",
    "Tornado of Elemental Turbulence",
    "Lightning Conduit of the Heavens",
    "Galvanic Field of Intensity",
    "Volcanic Fissure of Snaking",
    "Frozen Legion of Rallying",
];

/// Whether a name is that of a transfigured gem.
pub open spec fn transfigured(name: Seq<char>) -> bool {
    first_match(TRANSFIGURED_GEMS@, spells(name)) is Some
}

/// Whether a name is that of a transfigured gem.
pub fn is_transfigured_gem(name: &str) -> (r: bool)
    ensures
        r == transfigured(name@),
{
    find_name(TRANSFIGURED_GEMS.as_slice(), name).is_some()
}

/// The skills of the build.
#[derive(Debug)]
pub struct Skills {
    pub skill_set: SkillSet,
}

/// A set of skills.
#[derive(Debug)]
pub struct SkillSet {
    pub skills: Vec<Skill>,
}

/// The gems of one group of linked sockets, and the slot of their item.
#[derive(Debug)]
pub struct Skill {
    pub slot: String,
    pub gems: Vec<Gem>,
}

/// A gem as the build lists it.
#[derive(Debug)]
pub struct Gem {
    level: i32,
    quality_id: String,
    quality: i32,
    name_spec: String,
    enable_global1: bool,
    enable_global2: bool,
}

/// What the build lists of a gem.
pub struct GemFacts {
    pub level: i32,
    pub quality_id: Seq<char>,
    pub quality: i32,
    pub name_spec: Seq<char>,
    pub enable_global1: bool,
    pub enable_global2: bool,
}

/// The last property of a name among the properties of an item.
pub open spec fn property_named(props: Option<Vec<ItemProperty>>, name: Seq<char>) -> Option<
    ItemProperty,
> {
    match props {
        Some(list) => found_last(list@, name),
        None => None,
    }
}

/// The number in the first value of a property, if the property has a
/// value and the value a number.
pub open spec fn number_in(prop: ItemProperty) -> Option<i32> {
    if prop.values.len() > 0 {
        first_number(prop.values[0].0@)
    } else {
        None
    }
}

/// Whether the level and the quality of a gem can be read: each property
/// that is there holds a number.
pub open spec fn gem_readable(data: Item) -> bool {
    &&& property_named(data.properties, "Level"@) matches Some(p) ==> number_in(p) is Some
    &&& property_named(data.properties, "Quality"@) matches Some(p) ==> number_in(p) is Some
}

/// The name under which the build knows a gem: its base type without the
/// word Support, or the Vaal form of its second skill where that is a
/// transfigured gem.
pub open spec fn gem_name_spec(data: Item) -> Seq<char> {
    match data.hybrid {
        Some(hybrid) => if hybrid.is_vaal_gem == Some(true) && transfigured(
            hybrid.base_type_name@,
        ) {
            "Vaal "@ + hybrid.base_type_name@
        } else {
            replaced(data.base_type@, " Support"@, ""@)
        },
        None => replaced(data.base_type@, " Support"@, ""@),
    }
}

/// What the build lists of the gem that an item is: level 20 and quality 0
/// unless a property says otherwise, and the second of its global effects
/// in place of the first for a Vaal gem.
pub open spec fn gem_facts(data: Item) -> GemFacts {
    GemFacts {
        level: match property_named(data.properties, "Level"@) {
            Some(p) => number_in(p)->0,
            None => 20,
        },
        quality_id: "Default"@,
        quality: match property_named(data.properties, "Quality"@) {
            Some(p) => number_in(p)->0,
            None => 0,
        },
        name_spec: gem_name_spec(data),
        enable_global1: !"Vaal "@.is_prefix_of(gem_name_spec(data)),
        enable_global2: "Vaal "@.is_prefix_of(gem_name_spec(data)),
    }
}

/// The number in the first value of the last property of a name: `None`
/// where there is no such property, and `Some(None)` where it holds no
/// number.
pub fn read_number(props: &Option<Vec<ItemProperty>>, name: &str) -> (r: Option<Option<i32>>)
    ensures
        r == match property_named(*props, name@) {
            Some(p) => Some(number_in(p)),
            None => None,
        },
{
    match props {
        Some(list) => match lookup(list, name) {
            Some(prop) => {
                if prop.values.len() > 0 {
                    Some(extract_number(prop.values[0].0.as_str()))
                } else {
                    Some(None)
                }
            },
            None => None,
        },
        None => None,
    }
}

impl Default for Gem {
    fn default() -> (r: Self)
        ensures
            r@.level == 20,
            r@.quality_id == "Default"@,
            r@.quality == 0,
            r@.name_spec == Seq::<char>::empty(),
            r@.enable_global1,
            !r@.enable_global2,
    {
        Self {
            level: 20,
            quality_id: "Default".to_owned(),
            quality: 0,
            name_spec: String::new(),
            enable_global1: true,
            enable_global2: false,
        }
    }
}

impl View for Gem {
    type V = GemFacts;

    closed spec fn view(&self) -> GemFacts {
        GemFacts {
            level: self.level,
            quality_id: self.quality_id@,
            quality: self.quality,
            name_spec: self.name_spec@,
            enable_global1: self.enable_global1,
            enable_global2: self.enable_global2,
        }
    }
}

impl Gem {
    /// Whether the gem is the Vaal form of a gem.
    pub fn is_vaal_gem(&self) -> (r: bool)
        ensures
            r == "Vaal "@.is_prefix_of(self@.name_spec),
    {
        starts_with(self.name_spec.as_str(), "Vaal ")
    }

    /// Whether the level and the quality of the gem that an item is can be
    /// read.
    pub fn can_read(data: &Item) -> (r: bool)
        ensures
            r == gem_readable(*data),
    {
        let level = match read_number(&data.properties, "Level") {
            Some(None) => false,
            _ => true,
        };
        let quality = match read_number(&data.properties, "Quality") {
            Some(None) => false,
            _ => true,
        };
        level && quality
    }

    /// The gem that an item is, or `None` where its level or its quality
    /// cannot be read.
    pub fn try_new(data: &Item) -> (r: Option<Gem>)
        ensures
            match r {
                Some(gem) => gem_readable(*data) && gem@ == gem_facts(*data),
                None => !gem_readable(*data),
            },
    {
        if Self::can_read(data) {
            Some(Self::new(data))
        } else {
            None
        }
    }

    /// The gem that an item is.
    pub fn new(data: &Item) -> (gem: Gem)
        requires
            gem_readable(*data),
        ensures
            gem@ == gem_facts(*data),
    {
        let mut gem = Self::default();
        match read_number(&data.properties, "Level") {
            Some(Some(level)) => {
                gem.level = level;
            },
            _ => {},
        }
        match read_number(&data.properties, "Quality") {
            Some(Some(quality)) => {
                gem.quality = quality;
            },
            _ => {},
        }
        gem.name_spec = replace(data.base_type.as_str(), " Support", "");
        match &data.hybrid {
            Some(hybrid) => {
                let vaal = match hybrid.is_vaal_gem {
                    Some(b) => b,
                    None => false,
                };
                if vaal && is_transfigured_gem(hybrid.base_type_name.as_str()) {
                    gem.name_spec = concat("Vaal ", hybrid.base_type_name.as_str());
                }
            },
            None => {},
        }
        if gem.is_vaal_gem() {
            gem.enable_global1 = false;
            gem.enable_global2 = true;
        }
        gem
    }
}

impl Xml for Gem {
    open spec fn xml(&self) -> Seq<char> {
        "<Gem level=\""@ + decimal(self@.level as int) + "\" qualityId=\""@ + self@.quality_id
            + "\" quality=\""@ + decimal(self@.quality as int) + "\" nameSpec=\""@
            + self@.name_spec + "\" enabled=\"true\" enableGlobal1=\""@ + flag_text(
            self@.enable_global1,
        ) + "\" enableGlobal2=\""@ + flag_text(self@.enable_global2) + "\"/>"@
    }

    fn to_string(&self) -> (text: String) {
        let mut s = "<Gem level=\"".to_owned();
        push_decimal(&mut s, self.level as i64);
        s.append("\" qualityId=\"");
        s.append(self.quality_id.as_str());
        s.append("\" quality=\"");
        push_decimal(&mut s, self.quality as i64);
        s.append("\" nameSpec=\"");
        s.append(self.name_spec.as_str());
        s.append("\" enabled=\"true\" enableGlobal1=\"");
        push_flag(&mut s, self.enable_global1);
        s.append("\" enableGlobal2=\"");
        push_flag(&mut s, self.enable_global2);
        s.append("\"/>");
        s
    }
}

impl Skill {
    /// A group without gems in the item of a slot.
    pub fn new(slot_name: &str) -> (skill: Skill)
        ensures
            skill.slot@ == slot_name@,
            skill.gems@.len() == 0,
    {
        Skill { slot: slot_name.to_owned(), gems: Vec::new() }
    }
}

impl Xml for Skill {
    open spec fn xml(&self) -> Seq<char> {
        "<Skill enabled=\"true\" slot=\""@ + self.slot@ + "\" mainActiveSkill=\"nil\">\n"@
            + joined(texts_of(self.gems@), "\n"@, self.gems.len() as int) + "\n</Skill>"@
    }

    fn to_string(&self) -> (text: String) {
        let mut s = "<Skill enabled=\"true\" slot=\"".to_owned();
        s.append(self.slot.as_str());
        s.append("\" mainActiveSkill=\"nil\">\n");
        let body = join_parts(&self.gems, "\n");
        s.append(body.as_str());
        s.append("\n</Skill>");
        s
    }
}

impl Default for SkillSet {
    fn default() -> (r: Self)
        ensures
            r.skills@.len() == 0,
    {
        Self { skills: Vec::new() }
    }
}

impl Xml for SkillSet {
    open spec fn xml(&self) -> Seq<char> {
        "<SkillSet id=\"1\">\n"@ + joined(texts_of(self.skills@), "\n"@, self.skills.len() as int)
            + "\n</SkillSet>"@
    }

    fn to_string(&self) -> (text: String) {
        let mut s = "<SkillSet id=\"1\">\n".to_owned();
        let body = join_parts(&self.skills, "\n");
        s.append(body.as_str());
        s.append("\n</SkillSet>");
        s
    }
}

impl Default for Skills {
    fn default() -> (r: Self)
        ensures
            r.skill_set.skills@.len() == 0,
    {
        Self { skill_set: SkillSet::default() }
    }
}

impl Xml for Skills {
    open spec fn xml(&self) -> Seq<char> {
        "<Skills activeSkillSet=\"1\">\n"@ + self.skill_set.xml() + "\n</Skills>"@
    }

    fn to_string(&self) -> (text: String) {
        let mut s = "<Skills activeSkillSet=\"1\">\n".to_owned();
        let body = self.skill_set.to_string();
        s.append(body.as_str());
        s.append("\n</Skills>");
        s
    }
}

} // verus!
