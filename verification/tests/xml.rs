use indexmap::IndexMap;
use poe_trans::model::items::{
    Character, GemHybrid, Influences, Item, ItemProperty, ItemPropertyValueType, ItemRequirement,
    ItemRequirementValueType, Items, Socket,
};
use poe_trans::model::passive_skills::{
    Expansion, JewelData, MasteryEffects, Node, PassiveSkills, SkillOverride, SubGraph,
};
use poe_trans::transformer::cluster::ResolveError;
use poe_trans::transformer::xml::build_head::Build;
use poe_trans::transformer::xml::config::{Config, Input};
use poe_trans::transformer::xml::extract_number;
use poe_trans::transformer::xml::items::{split_text_lines, Item as BuildItem};
use poe_trans::transformer::xml::path_of_building::PathOfBuilding;
use poe_trans::transformer::xml::skills::{is_transfigured_gem, Gem, Skill, TRANSFIGURED_GEMS};
use poe_trans::transformer::xml::slot::{Slot, SocketIdURL};
use poe_trans::transformer::xml::tree::{MasteryEffect, Override, Overrides, Socket as TreeSocket, Sockets};
use poe_trans::transformer::xml::Xml;
use poe_trans::transformer::{Options, Transformer};

fn item(base_type: &str) -> Item {
    Item {
        id: String::from("id"),
        sockets: None,
        influences: None,
        searing: None,
        tangled: None,
        abyss_jewel: None,
        fractured: None,
        name: String::new(),
        type_line: String::from(base_type),
        base_type: String::from(base_type),
        rarity: None,
        ilvl: 0,
        corrupted: None,
        properties: None,
        requirements: None,
        enchant_mods: None,
        implicit_mods: None,
        explicit_mods: None,
        crafted_mods: None,
        utility_mods: None,
        fractured_mods: None,
        scourge_mods: None,
        crucible_mods: None,
        inventory_id: None,
        duplicated: None,
        synthesised: None,
        socketed_items: None,
        hybrid: None,
        frame_type: 0,
        x: None,
    }
}

fn prop(name: &str, value: &str) -> ItemProperty {
    ItemProperty {
        name: String::from(name),
        values: vec![ItemPropertyValueType(String::from(value), 1)],
    }
}

fn socket(group: usize, colour: &str) -> Socket {
    Socket { group, attr: String::from("S"), s_colour: String::from(colour) }
}

fn strings(list: &[&str]) -> Option<Vec<String>> {
    Some(list.iter().map(|s| s.to_string()).collect())
}

fn helmet() -> Item {
    let mut fireball = item("Fireball");
    fireball.properties = Some(vec![prop("Level", "21 (Max)"), prop("Quality", "+23%")]);
    let enhance = item("Enhance Support");
    let mut nova = item("Ice Nova");
    nova.hybrid = Some(GemHybrid {
        base_type_name: String::from("Ice Nova of Frostbolts"),
        is_vaal_gem: Some(true),
    });
    let mut eye = item("Murderous Eye Jewel");
    eye.abyss_jewel = Some(true);
    eye.frame_type = 1;
    eye.id = String::from("eye");
    eye.ilvl = 80;

    let mut helmet = item("Hubris Circlet");
    helmet.id = String::from("abc");
    helmet.name = String::from("Item");
    helmet.frame_type = 2;
    helmet.ilvl = 84;
    helmet.inventory_id = Some(String::from("Helm"));
    helmet.x = Some(0);
    helmet.corrupted = Some(true);
    helmet.influences = Some(Influences {
        shaper: Some(true),
        elder: Some(false),
        warlord: None,
        hunter: None,
        crusader: None,
        redeemer: None,
    });
    helmet.properties = Some(vec![prop("Energy Shield", "150"), prop("Quality", "+20%")]);
    helmet.enchant_mods = strings(&["Enchanted"]);
    helmet.explicit_mods = strings(&["+50 to maximum Life", "line one\nline two"]);
    helmet.crafted_mods = strings(&["Crafted mod"]);
    helmet.sockets =
        Some(vec![socket(0, "B"), socket(0, "B"), socket(1, "R"), socket(1, "A")]);
    helmet.socketed_items =
        Some(vec![Box::new(fireball), Box::new(enhance), Box::new(nova), Box::new(eye)]);
    helmet
}

fn flask() -> Item {
    let mut flask = item("Ruby Flask");
    flask.id = String::from("flask");
    flask.name = String::from("Dying Sun");
    flask.frame_type = 3;
    flask.ilvl = 1;
    flask.inventory_id = Some(String::from("Flask"));
    flask.x = Some(2);
    flask
}

fn stored(inventory: &str) -> Item {
    let mut stored = item("Coral Ring");
    stored.inventory_id = Some(String::from(inventory));
    stored.x = Some(0);
    stored
}

fn character(class: &str, items: Vec<Item>) -> Items {
    Items {
        character: Character {
            class: String::from(class),
            league: String::from("Standard"),
            level: 93,
            name: String::from("n"),
            realm: String::from("pc"),
        },
        items,
    }
}

fn cluster_jewel() -> Item {
    let mut jewel = item("Large Cluster Jewel");
    jewel.id = String::from("cj");
    jewel.name = String::from("Item");
    jewel.frame_type = 2;
    jewel.ilvl = 84;
    jewel.rarity = Some(String::from("Rare"));
    jewel.x = Some(11);
    jewel.properties = Some(vec![prop("Radius", "Medium"), prop("Limited to", "1")]);
    jewel.requirements = Some(vec![ItemRequirement {
        name: String::from("Class:"),
        values: vec![ItemRequirementValueType(String::from("Witch"), 0)],
        suffix: None,
    }]);
    jewel
}

fn node(notable: bool, orbit_index: i32) -> Node {
    Node {
        is_notable: if notable { Some(true) } else { None },
        is_jewel_socket: None,
        is_mastery: None,
        expansion_jewel: None,
        skill: String::from("0"),
        orbit_index,
    }
}

fn passive_skills(items: Vec<Item>) -> PassiveSkills {
    let mut groups = IndexMap::new();
    groups.insert(
        String::from("expansion_11"),
        Expansion {
            nodes: vec![String::from("1"), String::from("2")],
            proxy: String::from("43989"),
        },
    );
    let mut nodes = IndexMap::new();
    nodes.insert(1, node(true, 15));
    nodes.insert(2, node(false, 7));
    let mut jewel_data = IndexMap::new();
    jewel_data.insert(
        11,
        JewelData {
            type_v: String::from("JewelPassiveTreeExpansionLarge"),
            subgraph: Some(SubGraph { groups, nodes }),
        },
    );
    let mut effects = IndexMap::new();
    effects.insert(500, 600);
    effects.insert(1, 2);
    let mut skill_overrides = IndexMap::new();
    skill_overrides.insert(
        100,
        SkillOverride { name: String::from("Tattoo of the Arohongui"), is_keystone: None },
    );
    PassiveSkills {
        character: 3,
        ascendancy: 2,
        alternate_ascendancy: 1,
        hashes: vec![10, 20],
        hashes_ex: vec![1, 2],
        mastery_effects: MasteryEffects::Table(effects),
        skill_overrides,
        items,
        jewel_data,
    }
}

#[test]
fn test_transfigured_gems() {
    let name = format!("{} of {}", "Barrage", "Volley Fire");
    assert!(TRANSFIGURED_GEMS.contains(&name.as_str()));
    assert!(is_transfigured_gem(&name));
    assert!(!is_transfigured_gem("Barrage"));
}

#[test]
fn first_number_of_a_text() {
    assert_eq!(extract_number("+20%"), Some(20));
    assert_eq!(extract_number("21 (Max)"), Some(21));
    assert_eq!(extract_number("a1b22"), Some(1));
    assert_eq!(extract_number("none"), None);
    assert_eq!(extract_number(""), None);
    assert_eq!(extract_number("99999999999"), None);
}

#[test]
fn lines_of_a_modifier() {
    assert_eq!(split_text_lines("a\nb"), vec!["a", "b"]);
    assert_eq!(split_text_lines("a\r\nb\n"), vec!["a", "b"]);
    assert_eq!(split_text_lines("a\r"), vec!["a\r"]);
    assert_eq!(split_text_lines(""), Vec::<String>::new());
    assert_eq!(split_text_lines("\n"), vec![""]);
    assert_eq!(split_text_lines("a\n\nb"), vec!["a", "", "b"]);
}

#[test]
fn the_whole_build() {
    let items = character(
        "Elementalist",
        vec![
            helmet(),
            stored("MainInventory"),
            stored("Weapon2"),
            flask(),
            item("THIEFS_TRINKET"),
            stored("ExpandedMainInventory"),
        ],
    );
    let transformer =
        Transformer::new(items, passive_skills(vec![cluster_jewel()]), Options::default());
    let building = transformer.transform().unwrap();
    assert_eq!(building.items.items.len(), 4);
    assert_eq!(building.tree.spec.nodes, vec![10, 20, 65574, 65568]);
    let expected = "<?xml version=\"1.0\" encoding=\"UTF-8\"?>\n\
<PathOfBuilding>\n\
<Build level=\"93\" className=\"Witch\" ascendClassName=\"Elementalist\" targetVersion=\"3_0\" mainSocketGroup=\"1\" viewMode=\"ITEMS\">\n\
</Build>\n\
<Skills activeSkillSet=\"1\">\n\
<SkillSet id=\"1\">\n\
<Skill enabled=\"true\" slot=\"Helmet\" mainActiveSkill=\"nil\">\n\
<Gem level=\"21\" qualityId=\"Default\" quality=\"23\" nameSpec=\"Fireball\" enabled=\"true\" enableGlobal1=\"true\" enableGlobal2=\"false\"/>\n\
<Gem level=\"20\" qualityId=\"Default\" quality=\"0\" nameSpec=\"Enhance\" enabled=\"true\" enableGlobal1=\"true\" enableGlobal2=\"false\"/>\n\
</Skill>\n\
<Skill enabled=\"true\" slot=\"Helmet\" mainActiveSkill=\"nil\">\n\
<Gem level=\"20\" qualityId=\"Default\" quality=\"0\" nameSpec=\"Vaal Ice Nova of Frostbolts\" enabled=\"true\" enableGlobal1=\"false\" enableGlobal2=\"true\"/>\n\
</Skill>\n\
</SkillSet>\n\
</Skills>\n\
<Tree activeSpec=\"1\">\n\
<Spec treeVersion=\"3_25\" ascendClassId=\"2\" secondaryAscendClassId=\"1\" classId=\"3\" masteryEffects=\"{500,600},{1,2}\" nodes=\"10,20,65574,65568\">\n\
<Sockets>\n\
<Socket nodeId=\"7960\" itemId=\"4\"/>\n\
</Sockets>\n\
<Overrides>\n\
<Override dn=\"Tattoo of the Arohongui\" nodeId=\"100\">\n\
</Override>\n\
</Overrides>\n\
</Spec>\n\
</Tree>\n\
<Items>\n\
<Item id=\"1\">\n\
Rarity: RARE\n\
Item\n\
Hubris Circlet\n\
Energy Shield: 150\n\
Unique ID: abc\n\
Shaper Item\n\
Item Level: 84\n\
Quality: 20\n\
Sockets: B-B R-A\n\
Implicits: 1\n\
{crafted}Enchanted\n\
+50 to maximum Life\n\
line one\n\
line two\n\
{crafted}Crafted mod\n\
Corrupted\n\
</Item>\n\
<Item id=\"2\">\n\
Rarity: MAGIC\n\
Murderous Eye Jewel\n\
Unique ID: eye\n\
Item Level: 80\n\
Implicits: 0\n\
</Item>\n\
<Item id=\"3\">\n\
Rarity: UNIQUE\n\
Dying Sun\n\
Ruby Flask\n\
Unique ID: flask\n\
Item Level: 1\n\
Implicits: 0\n\
</Item>\n\
<Item id=\"4\">\n\
Rarity: RARE\n\
Item\n\
Large Cluster Jewel\n\
Unique ID: cj\n\
Item Level: 84\n\
Radius: Medium\n\
Limited to: 1\n\
Requires Class Witch\n\
Implicits: 0\n\
</Item>\n\
<ItemSet useSecondWeaponSet=\"false\" id=\"1\">\n\
<Slot itemPbURL=\"\"  name=\"Helmet\" itemId=\"1\" />\n\
<Slot itemPbURL=\"\"  name=\"Helmet Abyssal Socket 1\" itemId=\"2\" />\n\
<Slot itemPbURL=\"\" active=\"true\" name=\"Flask 3\" itemId=\"3\" />\n\
</ItemSet>\n\
</Items>\n\
<Config>\n\
<Input name=\"enemyIsBoss\" string=\"Pinnacle\"/>\n\
</Config>\n\
</PathOfBuilding>";
    assert_eq!(building.to_string(), expected);
}

#[test]
fn the_second_weapon_set_can_be_kept() {
    let items = || character("Witch", vec![stored("Weapon2"), stored("Offhand2"), stored("Ring")]);
    let skip = Transformer::new(items(), passive_skills(vec![cluster_jewel()]), Options::default());
    let names: Vec<usize> = skip.get_building_items().iter().map(|i| i.x.unwrap() as usize).collect();
    assert_eq!(names.len(), 1);
    let keep = Transformer::new(
        items(),
        passive_skills(vec![cluster_jewel()]),
        Options { skip_weapon2: false },
    );
    assert_eq!(keep.get_building_items().len(), 3);
    let building = keep.transform().unwrap();
    let slots: Vec<String> =
        building.items.item_set.slots.iter().map(|slot| slot.to_string()).collect();
    assert_eq!(
        slots,
        vec![
            "<Slot itemPbURL=\"\"  name=\"Weapon 1 Swap\" itemId=\"1\" />",
            "<Slot itemPbURL=\"\"  name=\"Weapon 2 Swap\" itemId=\"2\" />",
            "<Slot itemPbURL=\"\"  name=\"Ring 1\" itemId=\"3\" />",
        ]
    );
}

#[test]
fn a_build_needs_its_data() {
    let build = |items: Vec<Item>, jewels: Vec<Item>| {
        Transformer::new(character("Witch", items), passive_skills(jewels), Options::default())
            .transform()
            .map(|_| ())
    };
    assert_eq!(build(vec![flask()], vec![cluster_jewel()]), Ok(()));

    let mut no_slot = flask();
    no_slot.inventory_id = None;
    assert_eq!(build(vec![no_slot], vec![cluster_jewel()]), Err(ResolveError::MissingData));

    let mut no_place = flask();
    no_place.x = None;
    assert_eq!(build(vec![no_place], vec![cluster_jewel()]), Err(ResolveError::MissingData));

    let mut odd_frame = flask();
    odd_frame.frame_type = 11;
    assert_eq!(build(vec![odd_frame], vec![cluster_jewel()]), Err(ResolveError::MissingData));

    let mut no_value = flask();
    no_value.properties =
        Some(vec![ItemProperty { name: String::from("Armour"), values: vec![] }]);
    assert_eq!(build(vec![no_value], vec![cluster_jewel()]), Err(ResolveError::MissingData));

    let mut no_sockets = helmet();
    no_sockets.sockets = None;
    assert_eq!(build(vec![no_sockets], vec![cluster_jewel()]), Err(ResolveError::MissingData));

    let mut few_sockets = helmet();
    few_sockets.sockets = Some(vec![socket(0, "B")]);
    assert_eq!(build(vec![few_sockets], vec![cluster_jewel()]), Err(ResolveError::MissingData));

    let mut no_level = helmet();
    no_level.socketed_items.as_mut().unwrap()[0].properties = Some(vec![prop("Level", "Max")]);
    assert_eq!(build(vec![no_level], vec![cluster_jewel()]), Err(ResolveError::Malformed));

    let mut far_jewel = cluster_jewel();
    far_jewel.x = Some(60);
    assert_eq!(build(vec![flask()], vec![far_jewel]), Err(ResolveError::MissingData));

    assert_eq!(build(vec![flask()], vec![]), Err(ResolveError::MissingData));
}

#[test]
fn groups_of_gems_follow_the_links() {
    let mut body = helmet();
    body.inventory_id = Some(String::from("BodyArmour"));
    body.sockets = Some(vec![socket(2, "B"), socket(2, "B"), socket(0, "R"), socket(0, "A")]);
    let building = Transformer::new(
        character("Witch", vec![body]),
        passive_skills(vec![cluster_jewel()]),
        Options::default(),
    )
    .transform()
    .unwrap();
    let groups: Vec<(String, usize)> = building
        .skills
        .skill_set
        .skills
        .iter()
        .map(|skill| (skill.slot.clone(), skill.gems.len()))
        .collect();
    assert_eq!(
        groups,
        vec![
            (String::from("Body Armour"), 0),
            (String::from("Body Armour"), 2),
            (String::from("Body Armour"), 1),
        ]
    );
}

#[test]
fn items_of_the_build() {
    let mut blade = item("Energy Blade One Handed");
    blade.frame_type = 9;
    blade.implicit_mods = strings(&["gone"]);
    blade.explicit_mods = strings(&["kept unless abyssal"]);
    blade.sockets = Some(vec![socket(0, "A"), socket(1, "A"), socket(1, "G")]);
    let built = BuildItem::new(7, &blade);
    assert_eq!(built.rarity, "RELIC");
    assert_eq!(built.sockets.as_deref(), Some("A A-G"));
    assert!(built.implicit_mods.is_empty());
    assert_eq!(built.explicit_mods, vec!["`Has 2 Abyssal Sockets`"]);
    assert!(!built.corrupted);

    let mut staff = item("Maelström Staff");
    staff.type_line = String::from("Superior Maelström Staff of Fire");
    staff.name = String::from("Mjölner");
    staff.sockets = Some(vec![]);
    let built = BuildItem::new(1, &staff);
    assert_eq!(built.name, "Mjolner");
    assert_eq!(built.base_type, "Maelstrom Staff");
    assert_eq!(built.type_line, "Superior Maelstrom Staff of Fire");
    assert_eq!(built.sockets, None);

    let mut twice = item("Vaal Regalia");
    twice.properties = Some(vec![
        prop("Armour", "10"),
        prop("Evasion Rating", "20"),
        prop("Ward", "30"),
        prop("Armour", "40"),
        prop("Quality", "none"),
    ]);
    let built = BuildItem::new(1, &twice);
    assert_eq!(built.armour.as_deref(), Some("40"));
    assert_eq!(built.evasion.as_deref(), Some("20"));
    assert_eq!(built.ward.as_deref(), Some("30"));
    assert_eq!(built.energy_shield, None);
    assert_eq!(built.quality, None);
    assert!(BuildItem::can_convert(&twice));
    twice.frame_type = 12;
    assert!(!BuildItem::can_convert(&twice));
}

#[test]
fn gems_of_the_build() {
    let plain = Gem::new(&item("Spell Echo Support"));
    assert_eq!(
        plain.to_string(),
        "<Gem level=\"20\" qualityId=\"Default\" quality=\"0\" nameSpec=\"Spell Echo\" enabled=\"true\" enableGlobal1=\"true\" enableGlobal2=\"false\"/>"
    );
    assert!(!plain.is_vaal_gem());

    let mut vaal = item("Vaal Fireball");
    vaal.properties = Some(vec![prop("Level", "1"), prop("Quality", "+5%")]);
    vaal.hybrid = Some(GemHybrid {
        base_type_name: String::from("Fireball"),
        is_vaal_gem: Some(true),
    });
    let vaal = Gem::new(&vaal);
    assert!(vaal.is_vaal_gem());
    assert_eq!(
        vaal.to_string(),
        "<Gem level=\"1\" qualityId=\"Default\" quality=\"5\" nameSpec=\"Vaal Fireball\" enabled=\"true\" enableGlobal1=\"false\" enableGlobal2=\"true\"/>"
    );

    let mut unreadable = item("Fireball");
    unreadable.properties = Some(vec![prop("Quality", "high")]);
    assert!(Gem::try_new(&unreadable).is_none());
    assert!(Gem::try_new(&item("Fireball")).is_some());
    assert_eq!(
        Gem::default().to_string(),
        "<Gem level=\"20\" qualityId=\"Default\" quality=\"0\" nameSpec=\"\" enabled=\"true\" enableGlobal1=\"true\" enableGlobal2=\"false\"/>"
    );
    let skill = Skill::new("Gloves");
    assert_eq!(
        skill.to_string(),
        "<Skill enabled=\"true\" slot=\"Gloves\" mainActiveSkill=\"nil\">\n\n</Skill>"
    );
}

#[test]
fn slots_of_the_build() {
    assert_eq!(
        Slot::new_equipment("Flask 1", 3).to_string(),
        "<Slot itemPbURL=\"\" active=\"true\" name=\"Flask 1\" itemId=\"3\" />"
    );
    assert_eq!(
        Slot::new_equipment("Helmet", -3).to_string(),
        "<Slot itemPbURL=\"\"  name=\"Helmet\" itemId=\"-3\" />"
    );
    assert_eq!(
        Slot::new_jewel("Jewel 1", 7960).to_string(),
        "<Slot itemPbURL=\"\"  name=\"Jewel 1\"  nodeId=\"7960\"/>"
    );
    assert_eq!(Slot::default().to_string(), "<Slot itemPbURL=\"\"  name=\"\"  />");
    assert_eq!(
        SocketIdURL::default().to_string(),
        "<SocketIdURL nodeId=\"0\" name=\"\" itemPbURL=\"\"/>"
    );
}

#[test]
fn parts_of_the_tree() {
    assert_eq!(MasteryEffect::new(5, -6).to_string(), "{5,-6}");
    assert_eq!(TreeSocket::new(7960, 4).to_string(), "<Socket nodeId=\"7960\" itemId=\"4\"/>");
    assert_eq!(
        Override::new("Tattoo", 9).to_string(),
        "<Override dn=\"Tattoo\" nodeId=\"9\">\n</Override>"
    );
    let mut sockets = Sockets::default();
    assert_eq!(sockets.to_string(), "<Sockets>\n\n</Sockets>");
    sockets.push(TreeSocket::new(1, 2));
    sockets.push(TreeSocket::new(3, 4));
    assert_eq!(
        sockets.to_string(),
        "<Sockets>\n<Socket nodeId=\"1\" itemId=\"2\"/>\n<Socket nodeId=\"3\" itemId=\"4\"/>\n</Sockets>"
    );
    let mut overrides = Overrides::default();
    overrides.push(Override::new("a", 1));
    assert_eq!(
        overrides.to_string(),
        "<Overrides>\n<Override dn=\"a\" nodeId=\"1\">\n</Override>\n</Overrides>"
    );
}

#[test]
fn an_empty_build() {
    assert_eq!(
        Build::default().to_string(),
        "<Build level=\"0\" className=\"None\" ascendClassName=\"None\" targetVersion=\"3_0\" mainSocketGroup=\"1\" viewMode=\"ITEMS\">\n</Build>"
    );
    assert_eq!(
        Config::default().to_string(),
        "<Config>\n<Input name=\"enemyIsBoss\" string=\"Pinnacle\"/>\n</Config>"
    );
    assert_eq!(Input::new_string("k", "v").to_string(), "<Input name=\"k\" string=\"v\"/>");
    let empty = PathOfBuilding::default().to_string();
    assert!(empty.starts_with("<?xml version=\"1.0\" encoding=\"UTF-8\"?>\n<PathOfBuilding>\n<Build "));
    assert!(empty.contains("<Spec treeVersion=\"3_25\" ascendClassId=\"0\" secondaryAscendClassId=\"0\" classId=\"0\" masteryEffects=\"\" nodes=\"\">"));
    assert!(empty.ends_with("</Config>\n</PathOfBuilding>"));
}
