use indexmap::IndexMap;
use poe_trans::model::items::{Character, Item, Items};
use poe_trans::model::passive_skills::{
    Expansion, ExpansionJewel, JewelData, MasteryEffects, Node, PassiveSkills, SubGraph,
};
use poe_trans::transformer::cluster::ResolveError;
use poe_trans::transformer::{Options, Transformer};

fn item(x: i32, rarity: &str) -> Item {
    Item {
        id: String::from("id"),
        sockets: None,
        influences: None,
        searing: None,
        tangled: None,
        abyss_jewel: None,
        fractured: None,
        name: String::new(),
        type_line: String::from("Cluster Jewel"),
        base_type: String::from("Cluster Jewel"),
        rarity: Some(String::from(rarity)),
        ilvl: 84,
        corrupted: None,
        properties: None,
        requirements: None,
        enchant_mods: None,
        implicit_mods: None,
        explicit_mods: None,
        crafted_mods: None,
        utility_mods: None,
        fractured_mods: None,
        scourge_mods: None,
        crucible_mods: None,
        inventory_id: Some(String::from("PassiveJewels")),
        duplicated: None,
        synthesised: None,
        socketed_items: None,
        hybrid: None,
        frame_type: 2,
        x: Some(x),
    }
}

fn plain(kind: &str) -> JewelData {
    JewelData { type_v: String::from(kind), subgraph: None }
}

fn cluster(kind: &str, seq: i32, proxy: &str, ids: &[&str], nodes: Vec<(i32, Node)>) -> JewelData {
    let mut groups = IndexMap::new();
    groups.insert(
        format!("expansion_{}", seq),
        Expansion {
            nodes: ids.iter().map(|id| id.to_string()).collect(),
            proxy: String::from(proxy),
        },
    );
    let mut map = IndexMap::new();
    for (id, node) in nodes {
        map.insert(id, node);
    }
    JewelData { type_v: String::from(kind), subgraph: Some(SubGraph { groups, nodes: map }) }
}

fn resolve(
    hashes_ex: Vec<i32>,
    items: Vec<Item>,
    jewel_data: Vec<(i32, JewelData)>,
) -> Result<Vec<i32>, ResolveError> {
    let mut data = IndexMap::new();
    for (k, v) in jewel_data {
        data.insert(k, v);
    }
    let skills = PassiveSkills {
        character: 0,
        ascendancy: 0,
        alternate_ascendancy: 0,
        hashes: vec![],
        hashes_ex,
        mastery_effects: MasteryEffects::Arr(vec![]),
        skill_overrides: IndexMap::new(),
        items,
        jewel_data: data,
    };
    let items = Items {
        character: Character {
            class: String::from("Witch"),
            league: String::from("Standard"),
            level: 90,
            name: String::from("n"),
            realm: String::from("pc"),
        },
        items: vec![],
    };
    Transformer::new(items, skills, Options::default()).get_enabled_node_ids_of_jewels()
}

#[test]
fn resolves_layout_01() {
    let jewel_data = vec![
        (
            15,
            cluster(
                "JewelPassiveTreeExpansionLarge",
                15,
                "28650",
                &["1", "2", "3", "4", "5", "6", "7", "8", "9"],
                vec![
                (1, Node { is_notable: None, is_jewel_socket: None, is_mastery: None, expansion_jewel: None, skill: String::from("3669"), orbit_index: 14 }),
                (2, Node { is_notable: None, is_jewel_socket: None, is_mastery: None, expansion_jewel: None, skill: String::from("29271"), orbit_index: 8 }),
                (3, Node { is_notable: None, is_jewel_socket: None, is_mastery: Some(true), expansion_jewel: None, skill: String::from("4091"), orbit_index: 13 }),
                (4, Node { is_notable: None, is_jewel_socket: None, is_mastery: None, expansion_jewel: None, skill: String::from("13869"), orbit_index: 5 }),
                (5, Node { is_notable: None, is_jewel_socket: None, is_mastery: None, expansion_jewel: None, skill: String::from("31600"), orbit_index: 9 }),
                (6, Node { is_notable: Some(true), is_jewel_socket: None, is_mastery: None, expansion_jewel: None, skill: String::from("15375"), orbit_index: 5 }),
                (7, Node { is_notable: None, is_jewel_socket: None, is_mastery: None, expansion_jewel: None, skill: String::from("17680"), orbit_index: 5 }),
                (8, Node { is_notable: None, is_jewel_socket: Some(true), is_mastery: None, expansion_jewel: Some(ExpansionJewel { size: 1, index: 0, proxy: String::from("37898") }), skill: String::from("10532"), orbit_index: 4 }),
                (9, Node { is_notable: None, is_jewel_socket: Some(true), is_mastery: None, expansion_jewel: Some(ExpansionJewel { size: 1, index: 2, proxy: String::from("58355") }), skill: String::from("46519"), orbit_index: 2 })
                ],
            ),
        ),
        (
            46,
            cluster(
                "JewelPassiveTreeExpansionMedium",
                46,
                "33833",
                &["22"],
                vec![
                (22, Node { is_notable: None, is_jewel_socket: None, is_mastery: None, expansion_jewel: None, skill: String::from("44264"), orbit_index: 3 })
                ],
            ),
        ),
        (
            41,
            cluster(
                "JewelPassiveTreeExpansionMedium",
                41,
                "58355",
                &["10", "11", "12", "13", "14"],
                vec![
                (10, Node { is_notable: Some(true), is_jewel_socket: None, is_mastery: None, expansion_jewel: None, skill: String::from("42140"), orbit_index: 6 }),
                (11, Node { is_notable: Some(true), is_jewel_socket: None, is_mastery: None, expansion_jewel: None, skill: String::from("37515"), orbit_index: 14 }),
                (12, Node { is_notable: Some(true), is_jewel_socket: None, is_mastery: None, expansion_jewel: None, skill: String::from("13341"), orbit_index: 12 }),
                (13, Node { is_notable: None, is_jewel_socket: None, is_mastery: None, expansion_jewel: None, skill: String::from("36208"), orbit_index: 5 }),
                (14, Node { is_notable: None, is_jewel_socket: None, is_mastery: None, expansion_jewel: None, skill: String::from("51084"), orbit_index: 1 })
                ],
            ),
        ),
        (
            50,
            cluster(
                "JewelPassiveTreeExpansionSmall",
                50,
                "56439",
                &[],
                vec![
                
                ],
            ),
        ),
        (
            39,
            cluster(
                "JewelPassiveTreeExpansionMedium",
                39,
                "37898",
                &["15", "16", "17", "18", "19", "20", "21"],
                vec![
                (15, Node { is_notable: None, is_jewel_socket: None, is_mastery: None, expansion_jewel: None, skill: String::from("57865"), orbit_index: 12 }),
                (16, Node { is_notable: None, is_jewel_socket: None, is_mastery: None, expansion_jewel: None, skill: String::from("53841"), orbit_index: 13 }),
                (17, Node { is_notable: None, is_jewel_socket: None, is_mastery: None, expansion_jewel: None, skill: String::from("35321"), orbit_index: 10 }),
                (18, Node { is_notable: Some(true), is_jewel_socket: None, is_mastery: None, expansion_jewel: None, skill: String::from("19165"), orbit_index: 11 }),
                (19, Node { is_notable: Some(true), is_jewel_socket: None, is_mastery: None, expansion_jewel: None, skill: String::from("40717"), orbit_index: 13 }),
                (20, Node { is_notable: None, is_jewel_socket: None, is_mastery: None, expansion_jewel: None, skill: String::from("53268"), orbit_index: 9 }),
                (21, Node { is_notable: None, is_jewel_socket: None, is_mastery: Some(true), expansion_jewel: None, skill: String::from("50450"), orbit_index: 15 })
                ],
            ),
        ),
    ];
    let items = vec![item(46, "Rare"), item(39, "Rare"), item(41, "Rare"), item(50, "Unique"), item(15, "Unique")];
    let hashes_ex = vec![17, 4, 8, 22, 9, 3, 10, 14, 21, 1, 6, 1783, 19, 16, 20, 18, 15, 1786, 2, 11, 5, 12];
    assert_eq!(
        resolve(hashes_ex, items, jewel_data),
        Ok(vec![65765, 65765, 65766, 65765, 65762, 65762, 66774, 66774, 66778, 65754, 65754, 65752, 65744, 65536])
    );
}

#[test]
fn resolves_layout_02() {
    let jewel_data = vec![
        (
            11,
            cluster(
                "JewelPassiveTreeExpansionLarge",
                11,
                "43989",
                &["1", "2", "3", "4", "5", "6", "7", "8", "9", "10"],
                vec![
                (1, Node { is_notable: Some(true), is_jewel_socket: None, is_mastery: None, expansion_jewel: None, skill: String::from("40902"), orbit_index: 2 }),
                (2, Node { is_notable: None, is_jewel_socket: None, is_mastery: None, expansion_jewel: None, skill: String::from("45249"), orbit_index: 12 }),
                (3, Node { is_notable: None, is_jewel_socket: None, is_mastery: None, expansion_jewel: None, skill: String::from("43140"), orbit_index: 12 }),
                (4, Node { is_notable: None, is_jewel_socket: Some(true), is_mastery: None, expansion_jewel: Some(ExpansionJewel { size: 1, index: 1, proxy: String::from("26661") }), skill: String::from("48679"), orbit_index: 13 }),
                (5, Node { is_notable: None, is_jewel_socket: None, is_mastery: None, expansion_jewel: None, skill: String::from("42687"), orbit_index: 9 }),
                (6, Node { is_notable: None, is_jewel_socket: None, is_mastery: Some(true), expansion_jewel: None, skill: String::from("36311"), orbit_index: 12 }),
                (7, Node { is_notable: Some(true), is_jewel_socket: None, is_mastery: None, expansion_jewel: None, skill: String::from("57751"), orbit_index: 13 }),
                (8, Node { is_notable: None, is_jewel_socket: Some(true), is_mastery: None, expansion_jewel: Some(ExpansionJewel { size: 1, index: 0, proxy: String::from("55706") }), skill: String::from("29712"), orbit_index: 8 }),
                (9, Node { is_notable: None, is_jewel_socket: None, is_mastery: None, expansion_jewel: None, skill: String::from("8457"), orbit_index: 8 }),
                (10, Node { is_notable: Some(true), is_jewel_socket: None, is_mastery: None, expansion_jewel: None, skill: String::from("17941"), orbit_index: 8 })
                ],
            ),
        ),
        (
            22,
            cluster(
                "JewelPassiveTreeExpansionMedium",
                22,
                "26661",
                &["16", "17", "18", "19", "20", "21", "22", "23", "24"],
                vec![
                (16, Node { is_notable: Some(true), is_jewel_socket: None, is_mastery: None, expansion_jewel: None, skill: String::from("29020"), orbit_index: 0 }),
                (17, Node { is_notable: None, is_jewel_socket: None, is_mastery: None, expansion_jewel: None, skill: String::from("4523"), orbit_index: 13 }),
                (18, Node { is_notable: Some(true), is_jewel_socket: None, is_mastery: None, expansion_jewel: None, skill: String::from("27875"), orbit_index: 14 }),
                (19, Node { is_notable: None, is_jewel_socket: None, is_mastery: Some(true), expansion_jewel: None, skill: String::from("59835"), orbit_index: 15 }),
                (20, Node { is_notable: None, is_jewel_socket: None, is_mastery: None, expansion_jewel: None, skill: String::from("58149"), orbit_index: 7 }),
                (21, Node { is_notable: None, is_jewel_socket: None, is_mastery: None, expansion_jewel: None, skill: String::from("12199"), orbit_index: 12 }),
                (22, Node { is_notable: None, is_jewel_socket: None, is_mastery: None, expansion_jewel: None, skill: String::from("53565"), orbit_index: 15 }),
                (23, Node { is_notable: Some(true), is_jewel_socket: None, is_mastery: None, expansion_jewel: None, skill: String::from("28013"), orbit_index: 13 }),
                (24, Node { is_notable: None, is_jewel_socket: None, is_mastery: None, expansion_jewel: None, skill: String::from("27692"), orbit_index: 11 })
                ],
            ),
        ),
        (
            21,
            cluster(
                "JewelPassiveTreeExpansionMedium",
                21,
                "55706",
                &["11", "12", "13", "14", "15"],
                vec![
                (11, Node { is_notable: Some(true), is_jewel_socket: None, is_mastery: None, expansion_jewel: None, skill: String::from("29034"), orbit_index: 12 }),
                (12, Node { is_notable: None, is_jewel_socket: None, is_mastery: None, expansion_jewel: None, skill: String::from("21959"), orbit_index: 11 }),
                (13, Node { is_notable: None, is_jewel_socket: None, is_mastery: None, expansion_jewel: None, skill: String::from("47214"), orbit_index: 6 }),
                (14, Node { is_notable: Some(true), is_jewel_socket: None, is_mastery: None, expansion_jewel: None, skill: String::from("36688"), orbit_index: 6 }),
                (15, Node { is_notable: Some(true), is_jewel_socket: None, is_mastery: None, expansion_jewel: None, skill: String::from("4733"), orbit_index: 15 })
                ],
            ),
        ),
    ];
    let items = vec![item(21, "Rare"), item(11, "Magic"), item(22, "Rare")];
    let hashes_ex = vec![24, 20, 6, 21, 22, 18, 14, 5, 17, 15, 11, 10, 13, 1611, 7, 16, 1981, 4];
    assert_eq!(
        resolve(hashes_ex, items, jewel_data),
        Ok(vec![65573, 65570, 48679, 65573, 29712, 66064, 66064, 66068, 66070, 65558, 65558, 65558, 65560])
    );
}

#[test]
fn resolves_layout_03() {
    let jewel_data = vec![
        (57, plain("JewelInt")),
        (
            48,
            cluster(
                "JewelPassiveTreeExpansionSmall",
                48,
                "36414",
                &[],
                vec![
                
                ],
            ),
        ),
        (
            13,
            cluster(
                "JewelPassiveTreeExpansionLarge",
                13,
                "30275",
                &["1", "2", "3", "4", "5", "6", "7", "8", "9"],
                vec![
                (1, Node { is_notable: None, is_jewel_socket: None, is_mastery: Some(true), expansion_jewel: None, skill: String::from("49885"), orbit_index: 6 }),
                (2, Node { is_notable: None, is_jewel_socket: None, is_mastery: None, expansion_jewel: None, skill: String::from("35194"), orbit_index: 9 }),
                (3, Node { is_notable: Some(true), is_jewel_socket: None, is_mastery: None, expansion_jewel: None, skill: String::from("55957"), orbit_index: 1 }),
                (4, Node { is_notable: Some(true), is_jewel_socket: None, is_mastery: None, expansion_jewel: None, skill: String::from("41397"), orbit_index: 1 }),
                (5, Node { is_notable: None, is_jewel_socket: None, is_mastery: None, expansion_jewel: None, skill: String::from("48885"), orbit_index: 11 }),
                (6, Node { is_notable: None, is_jewel_socket: Some(true), is_mastery: None, expansion_jewel: Some(ExpansionJewel { size: 1, index: 0, proxy: String::from("25441") }), skill: String::from("49080"), orbit_index: 0 }),
                (7, Node { is_notable: None, is_jewel_socket: None, is_mastery: None, expansion_jewel: None, skill: String::from("46241"), orbit_index: 5 }),
                (8, Node { is_notable: None, is_jewel_socket: None, is_mastery: None, expansion_jewel: None, skill: String::from("701"), orbit_index: 1 }),
                (9, Node { is_notable: None, is_jewel_socket: None, is_mastery: None, expansion_jewel: None, skill: String::from("27253"), orbit_index: 9 })
                ],
            ),
        ),
        (
            33,
            cluster(
                "JewelPassiveTreeExpansionMedium",
                33,
                "25441",
                &["10", "11"],
                vec![
                (10, Node { is_notable: None, is_jewel_socket: None, is_mastery: Some(true), expansion_jewel: None, skill: String::from("51266"), orbit_index: 3 }),
                (11, Node { is_notable: Some(true), is_jewel_socket: None, is_mastery: None, expansion_jewel: None, skill: String::from("9118"), orbit_index: 4 })
                ],
            ),
        ),
    ];
    let items = vec![item(48, "Unique"), item(33, "Rare"), item(13, "Rare")];
    let hashes_ex = vec![6, 7, 1520, 1, 8, 4, 5, 1171, 3, 10, 1327, 2];
    assert_eq!(
        resolve(hashes_ex, items, jewel_data),
        Ok(vec![49080, 65700, 65706, 65706, 65701, 65696, 65701, 65706, 65536])
    );
}

#[test]
fn resolves_layout_04() {
    let jewel_data = vec![
        (
            38,
            cluster(
                "JewelPassiveTreeExpansionSmall",
                38,
                "22046",
                &[],
                vec![
                
                ],
            ),
        ),
        (
            29,
            cluster(
                "JewelPassiveTreeExpansionMedium",
                29,
                "35853",
                &["6", "7", "8", "9", "10", "11", "12"],
                vec![
                (6, Node { is_notable: Some(true), is_jewel_socket: None, is_mastery: None, expansion_jewel: None, skill: String::from("20570"), orbit_index: 1 }),
                (7, Node { is_notable: Some(true), is_jewel_socket: None, is_mastery: None, expansion_jewel: None, skill: String::from("25686"), orbit_index: 10 }),
                (8, Node { is_notable: Some(true), is_jewel_socket: None, is_mastery: None, expansion_jewel: None, skill: String::from("23268"), orbit_index: 15 }),
                (9, Node { is_notable: None, is_jewel_socket: None, is_mastery: None, expansion_jewel: None, skill: String::from("20088"), orbit_index: 2 }),
                (10, Node { is_notable: None, is_jewel_socket: None, is_mastery: None, expansion_jewel: None, skill: String::from("54692"), orbit_index: 1 }),
                (11, Node { is_notable: None, is_jewel_socket: None, is_mastery: None, expansion_jewel: None, skill: String::from("49058"), orbit_index: 1 }),
                (12, Node { is_notable: None, is_jewel_socket: None, is_mastery: None, expansion_jewel: None, skill: String::from("30105"), orbit_index: 15 })
                ],
            ),
        ),
        (
            12,
            cluster(
                "JewelPassiveTreeExpansionLarge",
                12,
                "25134",
                &["1", "2", "3", "4", "5"],
                vec![
                (1, Node { is_notable: None, is_jewel_socket: None, is_mastery: None, expansion_jewel: None, skill: String::from("53921"), orbit_index: 4 }),
                (2, Node { is_notable: None, is_jewel_socket: None, is_mastery: Some(true), expansion_jewel: None, skill: String::from("169"), orbit_index: 3 }),
                (3, Node { is_notable: Some(true), is_jewel_socket: None, is_mastery: None, expansion_jewel: None, skill: String::from("28913"), orbit_index: 5 }),
                (4, Node { is_notable: None, is_jewel_socket: Some(true), is_mastery: None, expansion_jewel: Some(ExpansionJewel { size: 1, index: 2, proxy: String::from("35853") }), skill: String::from("46393"), orbit_index: 14 }),
                (5, Node { is_notable: None, is_jewel_socket: None, is_mastery: None, expansion_jewel: None, skill: String::from("30272"), orbit_index: 10 })
                ],
            ),
        ),
        (
            15,
            cluster(
                "JewelPassiveTreeExpansionLarge",
                15,
                "28650",
                &["13", "14", "15", "16", "17", "18", "19"],
                vec![
                (13, Node { is_notable: Some(true), is_jewel_socket: None, is_mastery: None, expansion_jewel: None, skill: String::from("17085"), orbit_index: 5 }),
                (14, Node { is_notable: None, is_jewel_socket: None, is_mastery: None, expansion_jewel: None, skill: String::from("40366"), orbit_index: 3 }),
                (15, Node { is_notable: Some(true), is_jewel_socket: None, is_mastery: None, expansion_jewel: None, skill: String::from("14009"), orbit_index: 14 }),
                (16, Node { is_notable: None, is_jewel_socket: Some(true), is_mastery: None, expansion_jewel: Some(ExpansionJewel { size: 1, index: 2, proxy: String::from("58355") }), skill: String::from("46519"), orbit_index: 4 }),
                (17, Node { is_notable: None, is_jewel_socket: None, is_mastery: None, expansion_jewel: None, skill: String::from("41600"), orbit_index: 8 }),
                (18, Node { is_notable: None, is_jewel_socket: None, is_mastery: Some(true), expansion_jewel: None, skill: String::from("4586"), orbit_index: 15 }),
                (19, Node { is_notable: None, is_jewel_socket: None, is_mastery: None, expansion_jewel: None, skill: String::from("14487"), orbit_index: 8 })
                ],
            ),
        ),
    ];
    let items = vec![item(29, "Rare"), item(38, "Unique"), item(12, "Rare"), item(15, "Rare")];
    let hashes_ex = vec![18, 17, 19, 1111, 8, 5, 10, 9, 13, 1930, 15, 1, 16];
    assert_eq!(
        resolve(hashes_ex, items, jewel_data),
        Ok(vec![65636, 65762, 65768, 65770, 65768, 66650, 66642, 66640, 65536])
    );
}

#[test]
fn resolves_layout_05() {
    let jewel_data = vec![
        (
            12,
            cluster(
                "JewelPassiveTreeExpansionLarge",
                12,
                "25134",
                &["1", "2", "3", "4", "5", "6", "7", "8"],
                vec![
                (1, Node { is_notable: None, is_jewel_socket: Some(true), is_mastery: None, expansion_jewel: Some(ExpansionJewel { size: 1, index: 2, proxy: String::from("35853") }), skill: String::from("46393"), orbit_index: 1 }),
                (2, Node { is_notable: None, is_jewel_socket: None, is_mastery: None, expansion_jewel: None, skill: String::from("48096"), orbit_index: 7 }),
                (3, Node { is_notable: Some(true), is_jewel_socket: None, is_mastery: None, expansion_jewel: None, skill: String::from("19781"), orbit_index: 12 }),
                (4, Node { is_notable: None, is_jewel_socket: None, is_mastery: Some(true), expansion_jewel: None, skill: String::from("11924"), orbit_index: 11 }),
                (5, Node { is_notable: Some(true), is_jewel_socket: None, is_mastery: None, expansion_jewel: None, skill: String::from("12421"), orbit_index: 5 }),
                (6, Node { is_notable: Some(true), is_jewel_socket: None, is_mastery: None, expansion_jewel: None, skill: String::from("8544"), orbit_index: 11 }),
                (7, Node { is_notable: None, is_jewel_socket: None, is_mastery: None, expansion_jewel: None, skill: String::from("15212"), orbit_index: 14 }),
                (8, Node { is_notable: None, is_jewel_socket: Some(true), is_mastery: None, expansion_jewel: Some(ExpansionJewel { size: 1, index: 1, proxy: String::from("57194") }), skill: String::from("40400"), orbit_index: 4 })
                ],
            ),
        ),
        (
            28,
            cluster(
                "JewelPassiveTreeExpansionMedium",
                28,
                "57194",
                &["9", "10", "11"],
                vec![
                (9, Node { is_notable: Some(true), is_jewel_socket: None, is_mastery: None, expansion_jewel: None, skill: String::from("54012"), orbit_index: 1 }),
                (10, Node { is_notable: None, is_jewel_socket: None, is_mastery: None, expansion_jewel: None, skill: String::from("4830"), orbit_index: 1 }),
                (11, Node { is_notable: None, is_jewel_socket: None, is_mastery: Some(true), expansion_jewel: None, skill: String::from("12868"), orbit_index: 0 })
                ],
            ),
        ),
        (42, plain("JewelInt")),
        (
            31,
            cluster(
                "JewelPassiveTreeExpansionSmall",
                31,
                "44470",
                &["18", "19", "20", "21"],
                vec![
                (18, Node { is_notable: None, is_jewel_socket: None, is_mastery: Some(true), expansion_jewel: None, skill: String::from("25559"), orbit_index: 3 }),
                (19, Node { is_notable: None, is_jewel_socket: None, is_mastery: None, expansion_jewel: None, skill: String::from("55070"), orbit_index: 4 }),
                (20, Node { is_notable: None, is_jewel_socket: None, is_mastery: None, expansion_jewel: None, skill: String::from("35926"), orbit_index: 11 }),
                (21, Node { is_notable: None, is_jewel_socket: None, is_mastery: None, expansion_jewel: None, skill: String::from("34033"), orbit_index: 15 })
                ],
            ),
        ),
        (
            21,
            cluster(
                "JewelPassiveTreeExpansionMedium",
                21,
                "55706",
                &["16", "17"],
                vec![
                (16, Node { is_notable: None, is_jewel_socket: None, is_mastery: None, expansion_jewel: None, skill: String::from("18463"), orbit_index: 10 }),
                (17, Node { is_notable: None, is_jewel_socket: None, is_mastery: Some(true), expansion_jewel: None, skill: String::from("45234"), orbit_index: 3 })
                ],
            ),
        ),
        (
            29,
            cluster(
                "JewelPassiveTreeExpansionMedium",
                29,
                "35853",
                &["12", "13", "14", "15"],
                vec![
                (12, Node { is_notable: None, is_jewel_socket: None, is_mastery: None, expansion_jewel: None, skill: String::from("26326"), orbit_index: 1 }),
                (13, Node { is_notable: Some(true), is_jewel_socket: None, is_mastery: None, expansion_jewel: None, skill: String::from("3564"), orbit_index: 5 }),
                (14, Node { is_notable: None, is_jewel_socket: None, is_mastery: None, expansion_jewel: None, skill: String::from("18313"), orbit_index: 10 }),
                (15, Node { is_notable: None, is_jewel_socket: None, is_mastery: None, expansion_jewel: None, skill: String::from("26651"), orbit_index: 14 })
                ],
            ),
        ),
    ];
    let items = vec![item(12, "Rare"), item(28, "Rare"), item(21, "Rare"), item(31, "Rare"), item(29, "Rare")];
    let hashes_ex = vec![4, 9, 16, 18, 3, 11, 7, 1, 19, 21, 5, 17, 8, 2, 14, 12, 15, 6, 20, 10, 13];
    assert_eq!(
        resolve(hashes_ex, items, jewel_data),
        Ok(vec![65634, 65638, 65642, 46393, 66128, 66640, 66643, 65540, 65540])
    );
}

#[test]
fn resolves_layout_06() {
    let jewel_data = vec![
        (32, plain("JewelInt")),
        (
            39,
            cluster(
                "JewelPassiveTreeExpansionMedium",
                39,
                "37898",
                &[],
                vec![
                
                ],
            ),
        ),
        (
            15,
            cluster(
                "JewelPassiveTreeExpansionLarge",
                15,
                "28650",
                &["1", "2", "3", "4", "5", "6", "7", "8", "9"],
                vec![
                (1, Node { is_notable: None, is_jewel_socket: None, is_mastery: None, expansion_jewel: None, skill: String::from("2208"), orbit_index: 12 }),
                (2, Node { is_notable: Some(true), is_jewel_socket: None, is_mastery: None, expansion_jewel: None, skill: String::from("17027"), orbit_index: 0 }),
                (3, Node { is_notable: Some(true), is_jewel_socket: None, is_mastery: None, expansion_jewel: None, skill: String::from("35650"), orbit_index: 4 }),
                (4, Node { is_notable: None, is_jewel_socket: Some(true), is_mastery: None, expansion_jewel: Some(ExpansionJewel { size: 1, index: 0, proxy: String::from("37898") }), skill: String::from("10532"), orbit_index: 15 }),
                (5, Node { is_notable: None, is_jewel_socket: None, is_mastery: None, expansion_jewel: None, skill: String::from("7955"), orbit_index: 14 }),
                (6, Node { is_notable: None, is_jewel_socket: None, is_mastery: None, expansion_jewel: None, skill: String::from("25841"), orbit_index: 6 }),
                (7, Node { is_notable: None, is_jewel_socket: None, is_mastery: None, expansion_jewel: None, skill: String::from("38016"), orbit_index: 2 }),
                (8, Node { is_notable: None, is_jewel_socket: Some(true), is_mastery: None, expansion_jewel: Some(ExpansionJewel { size: 1, index: 1, proxy: String::from("64166") }), skill: String::from("23756"), orbit_index: 10 }),
                (9, Node { is_notable: Some(true), is_jewel_socket: None, is_mastery: None, expansion_jewel: None, skill: String::from("50892"), orbit_index: 1 })
                ],
            ),
        ),
    ];
    let items = vec![item(15, "Unique"), item(39, "Unique")];
    let hashes_ex = vec![1, 5, 4, 6, 9, 7, 3, 2, 8];
    assert_eq!(
        resolve(hashes_ex, items, jewel_data),
        Ok(vec![23756, 65760, 65762, 65770, 65766, 65762, 65770, 65760])
    );
}

#[test]
fn resolves_layout_07() {
    let jewel_data = vec![
        (
            11,
            cluster(
                "JewelPassiveTreeExpansionLarge",
                11,
                "43989",
                &["1", "2", "3"],
                vec![
                (1, Node { is_notable: None, is_jewel_socket: Some(true), is_mastery: None, expansion_jewel: Some(ExpansionJewel { size: 1, index: 0, proxy: String::from("55706") }), skill: String::from("29712"), orbit_index: 5 }),
                (2, Node { is_notable: None, is_jewel_socket: Some(true), is_mastery: None, expansion_jewel: Some(ExpansionJewel { size: 1, index: 1, proxy: String::from("26661") }), skill: String::from("48679"), orbit_index: 12 }),
                (3, Node { is_notable: None, is_jewel_socket: None, is_mastery: Some(true), expansion_jewel: None, skill: String::from("28950"), orbit_index: 5 })
                ],
            ),
        ),
        (
            41,
            cluster(
                "JewelPassiveTreeExpansionMedium",
                41,
                "58355",
                &["15", "16", "17", "18", "19", "20", "21"],
                vec![
                (15, Node { is_notable: None, is_jewel_socket: None, is_mastery: None, expansion_jewel: None, skill: String::from("37620"), orbit_index: 4 }),
                (16, Node { is_notable: Some(true), is_jewel_socket: None, is_mastery: None, expansion_jewel: None, skill: String::from("23481"), orbit_index: 14 }),
                (17, Node { is_notable: Some(true), is_jewel_socket: None, is_mastery: None, expansion_jewel: None, skill: String::from("46496"), orbit_index: 0 }),
                (18, Node { is_notable: Some(true), is_jewel_socket: None, is_mastery: None, expansion_jewel: None, skill: String::from("57100"), orbit_index: 0 }),
                (19, Node { is_notable: None, is_jewel_socket: None, is_mastery: None, expansion_jewel: None, skill: String::from("50713"), orbit_index: 8 }),
                (20, Node { is_notable: None, is_jewel_socket: None, is_mastery: Some(true), expansion_jewel: None, skill: String::from("39505"), orbit_index: 11 }),
                (21, Node { is_notable: None, is_jewel_socket: None, is_mastery: None, expansion_jewel: None, skill: String::from("6603"), orbit_index: 7 })
                ],
            ),
        ),
        (
            17,
            cluster(
                "JewelPassiveTreeExpansionLarge",
                17,
                "48132",
                &["4", "5", "6", "7", "8"],
                vec![
                (4, Node { is_notable: None, is_jewel_socket: None, is_mastery: Some(true), expansion_jewel: None, skill: String::from("57314"), orbit_index: 13 }),
                (5, Node { is_notable: None, is_jewel_socket: Some(true), is_mastery: None, expansion_jewel: Some(ExpansionJewel { size: 1, index: 2, proxy: String::from("50179") }), skill: String::from("33753"), orbit_index: 4 }),
                (6, Node { is_notable: Some(true), is_jewel_socket: None, is_mastery: None, expansion_jewel: None, skill: String::from("46352"), orbit_index: 10 }),
                (7, Node { is_notable: Some(true), is_jewel_socket: None, is_mastery: None, expansion_jewel: None, skill: String::from("8314"), orbit_index: 5 }),
                (8, Node { is_notable: None, is_jewel_socket: Some(true), is_mastery: None, expansion_jewel: Some(ExpansionJewel { size: 1, index: 1, proxy: String::from("33833") }), skill: String::from("49684"), orbit_index: 9 })
                ],
            ),
        ),
        (
            42,
            cluster(
                "JewelPassiveTreeExpansionSmall",
                42,
                "48128",
                &[],
                vec![
                
                ],
            ),
        ),
        (
            47,
            cluster(
                "JewelPassiveTreeExpansionMedium",
                47,
                "50179",
                &["9", "10", "11", "12", "13", "14"],
                vec![
                (9, Node { is_notable: None, is_jewel_socket: None, is_mastery: None, expansion_jewel: None, skill: String::from("31119"), orbit_index: 6 }),
                (10, Node { is_notable: None, is_jewel_socket: None, is_mastery: None, expansion_jewel: None, skill: String::from("48496"), orbit_index: 8 }),
                (11, Node { is_notable: None, is_jewel_socket: None, is_mastery: None, expansion_jewel: None, skill: String::from("7838"), orbit_index: 14 }),
                (12, Node { is_notable: Some(true), is_jewel_socket: None, is_mastery: None, expansion_jewel: None, skill: String::from("53455"), orbit_index: 7 }),
                (13, Node { is_notable: Some(true), is_jewel_socket: None, is_mastery: None, expansion_jewel: None, skill: String::from("44236"), orbit_index: 15 }),
                (14, Node { is_notable: None, is_jewel_socket: None, is_mastery: None, expansion_jewel: None, skill: String::from("23915"), orbit_index: 4 })
                ],
            ),
        ),
    ];
    let items = vec![item(11, "Unique"), item(41, "Rare"), item(42, "Rare"), item(47, "Rare"), item(17, "Rare")];
    let hashes_ex = vec![21, 2, 15, 1621, 9, 8, 11, 12, 7, 5, 13, 1];
    assert_eq!(
        resolve(hashes_ex, items, jewel_data),
        Ok(vec![29712, 65830, 65834, 66576, 66578, 66838, 66838, 66832])
    );
}

#[test]
fn resolves_layout_08() {
    let jewel_data = vec![
        (
            50,
            cluster(
                "JewelPassiveTreeExpansionSmall",
                50,
                "56439",
                &["15", "16", "17"],
                vec![
                (15, Node { is_notable: None, is_jewel_socket: None, is_mastery: None, expansion_jewel: None, skill: String::from("51140"), orbit_index: 1 }),
                (16, Node { is_notable: None, is_jewel_socket: None, is_mastery: None, expansion_jewel: None, skill: String::from("36027"), orbit_index: 8 }),
                (17, Node { is_notable: None, is_jewel_socket: None, is_mastery: None, expansion_jewel: None, skill: String::from("17209"), orbit_index: 13 })
                ],
            ),
        ),
        (
            20,
            cluster(
                "JewelPassiveTreeExpansionLarge",
                20,
                "18756",
                &["1", "2", "3", "4", "5", "6", "7", "8"],
                vec![
                (1, Node { is_notable: None, is_jewel_socket: Some(true), is_mastery: None, expansion_jewel: Some(ExpansionJewel { size: 1, index: 0, proxy: String::from("58194") }), skill: String::from("64583"), orbit_index: 9 }),
                (2, Node { is_notable: None, is_jewel_socket: None, is_mastery: None, expansion_jewel: None, skill: String::from("5090"), orbit_index: 1 }),
                (3, Node { is_notable: None, is_jewel_socket: None, is_mastery: None, expansion_jewel: None, skill: String::from("33084"), orbit_index: 14 }),
                (4, Node { is_notable: None, is_jewel_socket: None, is_mastery: None, expansion_jewel: None, skill: String::from("42546"), orbit_index: 1 }),
                (5, Node { is_notable: None, is_jewel_socket: None, is_mastery: None, expansion_jewel: None, skill: String::from("43149"), orbit_index: 10 }),
                (6, Node { is_notable: None, is_jewel_socket: Some(true), is_mastery: None, expansion_jewel: Some(ExpansionJewel { size: 1, index: 1, proxy: String::from("34013") }), skill: String::from("61288"), orbit_index: 14 }),
                (7, Node { is_notable: None, is_jewel_socket: None, is_mastery: None, expansion_jewel: None, skill: String::from("2669"), orbit_index: 14 }),
                (8, Node { is_notable: None, is_jewel_socket: None, is_mastery: Some(true), expansion_jewel: None, skill: String::from("55809"), orbit_index: 15 })
                ],
            ),
        ),
        (
            30,
            cluster(
                "JewelPassiveTreeExpansionSmall",
                30,
                "35313",
                &["13", "14"],
                vec![
                (13, Node { is_notable: None, is_jewel_socket: None, is_mastery: Some(true), expansion_jewel: None, skill: String::from("31347"), orbit_index: 5 }),
                (14, Node { is_notable: Some(true), is_jewel_socket: None, is_mastery: None, expansion_jewel: None, skill: String::from("43848"), orbit_index: 4 })
                ],
            ),
        ),
        (
            22,
            cluster(
                "JewelPassiveTreeExpansionMedium",
                22,
                "26661",
                &[],
                vec![
                
                ],
            ),
        ),
        (
            52,
            cluster(
                "JewelPassiveTreeExpansionMedium",
                52,
                "34013",
                &["9", "10", "11", "12"],
                vec![
                (9, Node { is_notable: None, is_jewel_socket: None, is_mastery: Some(true), expansion_jewel: None, skill: String::from("27056"), orbit_index: 13 }),
                (10, Node { is_notable: Some(true), is_jewel_socket: None, is_mastery: None, expansion_jewel: None, skill: String::from("11741"), orbit_index: 11 }),
                (11, Node { is_notable: Some(true), is_jewel_socket: None, is_mastery: None, expansion_jewel: None, skill: String::from("39667"), orbit_index: 4 }),
                (12, Node { is_notable: Some(true), is_jewel_socket: None, is_mastery: None, expansion_jewel: None, skill: String::from("45721"), orbit_index: 6 })
                ],
            ),
        ),
    ];
    let items = vec![item(20, "Unique"), item(22, "Unique"), item(30, "Rare"), item(50, "Rare"), item(52, "Rare")];
    let hashes_ex = vec![12, 1072, 14, 10, 11, 1130, 7, 2, 4, 1761, 13, 8, 5];
    assert_eq!(
        resolve(hashes_ex, items, jewel_data),
        Ok(vec![65894, 65894, 65898, 64583, 66390, 65540, 66064])
    );
}

#[test]
fn resolves_layout_09() {
    let jewel_data = vec![
        (
            28,
            cluster(
                "JewelPassiveTreeExpansionMedium",
                28,
                "57194",
                &["5"],
                vec![
                (5, Node { is_notable: Some(true), is_jewel_socket: None, is_mastery: None, expansion_jewel: None, skill: String::from("28644"), orbit_index: 0 })
                ],
            ),
        ),
        (
            17,
            cluster(
                "JewelPassiveTreeExpansionLarge",
                17,
                "48132",
                &["1", "2", "3", "4"],
                vec![
                (1, Node { is_notable: Some(true), is_jewel_socket: None, is_mastery: None, expansion_jewel: None, skill: String::from("52672"), orbit_index: 1 }),
                (2, Node { is_notable: Some(true), is_jewel_socket: None, is_mastery: None, expansion_jewel: None, skill: String::from("9906"), orbit_index: 2 }),
                (3, Node { is_notable: None, is_jewel_socket: Some(true), is_mastery: None, expansion_jewel: Some(ExpansionJewel { size: 1, index: 0, proxy: String::from("35926") }), skill: String::from("6910"), orbit_index: 6 }),
                (4, Node { is_notable: None, is_jewel_socket: None, is_mastery: Some(true), expansion_jewel: None, skill: String::from("54883"), orbit_index: 6 })
                ],
            ),
        ),
        (
            50,
            cluster(
                "JewelPassiveTreeExpansionSmall",
                50,
                "56439",
                &["6", "7", "8", "9", "10"],
                vec![
                (6, Node { is_notable: None, is_jewel_socket: None, is_mastery: None, expansion_jewel: None, skill: String::from("26030"), orbit_index: 7 }),
                (7, Node { is_notable: None, is_jewel_socket: None, is_mastery: Some(true), expansion_jewel: None, skill: String::from("50551"), orbit_index: 15 }),
                (8, Node { is_notable: None, is_jewel_socket: None, is_mastery: None, expansion_jewel: None, skill: String::from("49203"), orbit_index: 5 }),
                (9, Node { is_notable: None, is_jewel_socket: None, is_mastery: None, expansion_jewel: None, skill: String::from("18313"), orbit_index: 1 }),
                (10, Node { is_notable: Some(true), is_jewel_socket: None, is_mastery: None, expansion_jewel: None, skill: String::from("47000"), orbit_index: 7 })
                ],
            ),
        ),
        (52, plain("JewelInt")),
    ];
    let items = vec![item(28, "Rare"), item(50, "Rare"), item(17, "Magic")];
    let hashes_ex = vec![6, 9, 2, 10, 1, 1986, 3, 4, 8, 7, 5];
    assert_eq!(
        resolve(hashes_ex, items, jewel_data),
        Ok(vec![65828, 6910, 6910, 65536, 65538])
    );
}

#[test]
fn resolves_layout_10() {
    let jewel_data = vec![
        (
            35,
            cluster(
                "JewelPassiveTreeExpansionMedium",
                35,
                "53203",
                &["7", "8", "9"],
                vec![
                (7, Node { is_notable: Some(true), is_jewel_socket: None, is_mastery: None, expansion_jewel: None, skill: String::from("14403"), orbit_index: 13 }),
                (8, Node { is_notable: None, is_jewel_socket: None, is_mastery: None, expansion_jewel: None, skill: String::from("33489"), orbit_index: 15 }),
                (9, Node { is_notable: None, is_jewel_socket: None, is_mastery: None, expansion_jewel: None, skill: String::from("52062"), orbit_index: 5 })
                ],
            ),
        ),
        (
            27,
            cluster(
                "JewelPassiveTreeExpansionMedium",
                27,
                "51233",
                &[],
                vec![
                
                ],
            ),
        ),
        (
            13,
            cluster(
                "JewelPassiveTreeExpansionLarge",
                13,
                "30275",
                &["1", "2", "3", "4", "5", "6"],
                vec![
                (1, Node { is_notable: None, is_jewel_socket: None, is_mastery: Some(true), expansion_jewel: None, skill: String::from("37712"), orbit_index: 8 }),
                (2, Node { is_notable: Some(true), is_jewel_socket: None, is_mastery: None, expansion_jewel: None, skill: String::from("48193"), orbit_index: 15 }),
                (3, Node { is_notable: Some(true), is_jewel_socket: None, is_mastery: None, expansion_jewel: None, skill: String::from("19420"), orbit_index: 4 }),
                (4, Node { is_notable: None, is_jewel_socket: None, is_mastery: None, expansion_jewel: None, skill: String::from("19990"), orbit_index: 14 }),
                (5, Node { is_notable: Some(true), is_jewel_socket: None, is_mastery: None, expansion_jewel: None, skill: String::from("51448"), orbit_index: 2 }),
                (6, Node { is_notable: None, is_jewel_socket: Some(true), is_mastery: None, expansion_jewel: Some(ExpansionJewel { size: 1, index: 2, proxy: String::from("53203") }), skill: String::from("44169"), orbit_index: 7 })
                ],
            ),
        ),
        (
            42,
            cluster(
                "JewelPassiveTreeExpansionSmall",
                42,
                "48128",
                &["13", "14", "15"],
                vec![
                (13, Node { is_notable: Some(true), is_jewel_socket: None, is_mastery: None, expansion_jewel: None, skill: String::from("16124"), orbit_index: 5 }),
                (14, Node { is_notable: None, is_jewel_socket: None, is_mastery: None, expansion_jewel: None, skill: String::from("15684"), orbit_index: 15 }),
                (15, Node { is_notable: None, is_jewel_socket: None, is_mastery: None, expansion_jewel: None, skill: String::from("53388"), orbit_index: 15 })
                ],
            ),
        ),
        (34, plain("JewelInt")),
        (
            37,
            cluster(
                "JewelPassiveTreeExpansionSmall",
                37,
                "49951",
                &["10", "11", "12"],
                vec![
                (10, Node { is_notable: None, is_jewel_socket: None, is_mastery: Some(true), expansion_jewel: None, skill: String::from("9715"), orbit_index: 3 }),
                (11, Node { is_notable: None, is_jewel_socket: None, is_mastery: None, expansion_jewel: None, skill: String::from("33464"), orbit_index: 3 }),
                (12, Node { is_notable: None, is_jewel_socket: None, is_mastery: None, expansion_jewel: None, skill: String::from("41279"), orbit_index: 2 })
                ],
            ),
        ),
    ];
    let items = vec![item(13, "Rare"), item(35, "Rare"), item(37, "Rare"), item(42, "Rare"), item(27, "Unique")];
    let hashes_ex = vec![1298, 15, 7, 9, 3, 12, 4, 1, 2];
    assert_eq!(
        resolve(hashes_ex, items, jewel_data),
        Ok(vec![65704, 65704, 65696, 65552])
    );
}

#[test]
fn resolves_layout_11() {
    let jewel_data = vec![
        (
            41,
            cluster(
                "JewelPassiveTreeExpansionMedium",
                41,
                "58355",
                &["7", "8", "9", "10", "11", "12"],
                vec![
                (7, Node { is_notable: None, is_jewel_socket: None, is_mastery: None, expansion_jewel: None, skill: String::from("30372"), orbit_index: 4 }),
                (8, Node { is_notable: None, is_jewel_socket: None, is_mastery: None, expansion_jewel: None, skill: String::from("13198"), orbit_index: 10 }),
                (9, Node { is_notable: None, is_jewel_socket: None, is_mastery: Some(true), expansion_jewel: None, skill: String::from("49483"), orbit_index: 13 }),
                (10, Node { is_notable: None, is_jewel_socket: None, is_mastery: None, expansion_jewel: None, skill: String::from("38639"), orbit_index: 11 }),
                (11, Node { is_notable: Some(true), is_jewel_socket: None, is_mastery: None, expansion_jewel: None, skill: String::from("29172"), orbit_index: 6 }),
                (12, Node { is_notable: Some(true), is_jewel_socket: None, is_mastery: None, expansion_jewel: None, skill: String::from("39751"), orbit_index: 15 })
                ],
            ),
        ),
        (
            25,
            cluster(
                "JewelPassiveTreeExpansionSmall",
                25,
                "18361",
                &[],
                vec![
                
                ],
            ),
        ),
        (
            15,
            cluster(
                "JewelPassiveTreeExpansionLarge",
                15,
                "28650",
                &["1", "2", "3", "4", "5", "6"],
                vec![
                (1, Node { is_notable: Some(true), is_jewel_socket: None, is_mastery: None, expansion_jewel: None, skill: String::from("26007"), orbit_index: 15 }),
                (2, Node { is_notable: None, is_jewel_socket: None, is_mastery: None, expansion_jewel: None, skill: String::from("48931"), orbit_index: 15 }),
                (3, Node { is_notable: None, is_jewel_socket: None, is_mastery: None, expansion_jewel: None, skill: String::from("55690"), orbit_index: 13 }),
                (4, Node { is_notable: None, is_jewel_socket: Some(true), is_mastery: None, expansion_jewel: Some(ExpansionJewel { size: 1, index: 2, proxy: String::from("58355") }), skill: String::from("46519"), orbit_index: 7 }),
                (5, Node { is_notable: None, is_jewel_socket: None, is_mastery: None, expansion_jewel: None, skill: String::from("35244"), orbit_index: 3 }),
                (6, Node { is_notable: None, is_jewel_socket: None, is_mastery: None, expansion_jewel: None, skill: String::from("56165"), orbit_index: 14 })
                ],
            ),
        ),
        (19, plain("JewelInt")),
    ];
    let items = vec![item(25, "Unique"), item(41, "Rare"), item(15, "Rare")];
    let hashes_ex = vec![10, 1936, 1, 11, 5, 6];
    assert_eq!(
        resolve(hashes_ex, items, jewel_data),
        Ok(vec![65770, 66774, 65536])
    );
}

#[test]
fn resolves_layout_12() {
    let jewel_data = vec![
        (
            26,
            cluster(
                "JewelPassiveTreeExpansionSmall",
                26,
                "7956",
                &["24", "25", "26", "27"],
                vec![
                (24, Node { is_notable: None, is_jewel_socket: None, is_mastery: None, expansion_jewel: None, skill: String::from("51485"), orbit_index: 10 }),
                (25, Node { is_notable: Some(true), is_jewel_socket: None, is_mastery: None, expansion_jewel: None, skill: String::from("45191"), orbit_index: 11 }),
                (26, Node { is_notable: None, is_jewel_socket: None, is_mastery: Some(true), expansion_jewel: None, skill: String::from("51534"), orbit_index: 7 }),
                (27, Node { is_notable: None, is_jewel_socket: None, is_mastery: None, expansion_jewel: None, skill: String::from("19608"), orbit_index: 11 })
                ],
            ),
        ),
        (
            45,
            cluster(
                "JewelPassiveTreeExpansionMedium",
                45,
                "35926",
                &["4", "5", "6", "7", "8", "9", "10", "11"],
                vec![
                (4, Node { is_notable: None, is_jewel_socket: None, is_mastery: None, expansion_jewel: None, skill: String::from("16200"), orbit_index: 4 }),
                (5, Node { is_notable: None, is_jewel_socket: None, is_mastery: Some(true), expansion_jewel: None, skill: String::from("48784"), orbit_index: 14 }),
                (6, Node { is_notable: None, is_jewel_socket: None, is_mastery: None, expansion_jewel: None, skill: String::from("7495"), orbit_index: 6 }),
                (7, Node { is_notable: Some(true), is_jewel_socket: None, is_mastery: None, expansion_jewel: None, skill: String::from("2854"), orbit_index: 5 }),
                (8, Node { is_notable: Some(true), is_jewel_socket: None, is_mastery: None, expansion_jewel: None, skill: String::from("12544"), orbit_index: 12 }),
                (9, Node { is_notable: None, is_jewel_socket: None, is_mastery: None, expansion_jewel: None, skill: String::from("26015"), orbit_index: 2 }),
                (10, Node { is_notable: Some(true), is_jewel_socket: None, is_mastery: None, expansion_jewel: None, skill: String::from("9336"), orbit_index: 3 }),
                (11, Node { is_notable: None, is_jewel_socket: None, is_mastery: None, expansion_jewel: None, skill: String::from("2737"), orbit_index: 2 })
                ],
            ),
        ),
        (27, plain("JewelInt")),
        (
            17,
            cluster(
                "JewelPassiveTreeExpansionLarge",
                17,
                "48132",
                &["1", "2", "3"],
                vec![
                (1, Node { is_notable: None, is_jewel_socket: Some(true), is_mastery: None, expansion_jewel: Some(ExpansionJewel { size: 1, index: 2, proxy: String::from("50179") }), skill: String::from("33753"), orbit_index: 7 }),
                (2, Node { is_notable: Some(true), is_jewel_socket: None, is_mastery: None, expansion_jewel: None, skill: String::from("21313"), orbit_index: 3 }),
                (3, Node { is_notable: None, is_jewel_socket: Some(true), is_mastery: None, expansion_jewel: Some(ExpansionJewel { size: 1, index: 0, proxy: String::from("35926") }), skill: String::from("6910"), orbit_index: 11 })
                ],
            ),
        ),
        (
            47,
            cluster(
                "JewelPassiveTreeExpansionMedium",
                47,
                "50179",
                &["12", "13", "14", "15", "16"],
                vec![
                (12, Node { is_notable: None, is_jewel_socket: None, is_mastery: Some(true), expansion_jewel: None, skill: String::from("43124"), orbit_index: 12 }),
                (13, Node { is_notable: None, is_jewel_socket: None, is_mastery: None, expansion_jewel: None, skill: String::from("23591"), orbit_index: 9 }),
                (14, Node { is_notable: None, is_jewel_socket: None, is_mastery: None, expansion_jewel: None, skill: String::from("22061"), orbit_index: 3 }),
                (15, Node { is_notable: None, is_jewel_socket: None, is_mastery: None, expansion_jewel: None, skill: String::from("12452"), orbit_index: 4 }),
                (16, Node { is_notable: None, is_jewel_socket: None, is_mastery: None, expansion_jewel: None, skill: String::from("35180"), orbit_index: 0 })
                ],
            ),
        ),
        (
            40,
            cluster(
                "JewelPassiveTreeExpansionMedium",
                40,
                "64166",
                &["17", "18", "19", "20", "21", "22", "23"],
                vec![
                (17, Node { is_notable: None, is_jewel_socket: None, is_mastery: None, expansion_jewel: None, skill: String::from("14112"), orbit_index: 2 }),
                (18, Node { is_notable: None, is_jewel_socket: None, is_mastery: Some(true), expansion_jewel: None, skill: String::from("37024"), orbit_index: 3 }),
                (19, Node { is_notable: None, is_jewel_socket: None, is_mastery: None, expansion_jewel: None, skill: String::from("40994"), orbit_index: 11 }),
                (20, Node { is_notable: None, is_jewel_socket: None, is_mastery: None, expansion_jewel: None, skill: String::from("1395"), orbit_index: 11 }),
                (21, Node { is_notable: None, is_jewel_socket: None, is_mastery: None, expansion_jewel: None, skill: String::from("2400"), orbit_index: 7 }),
                (22, Node { is_notable: Some(true), is_jewel_socket: None, is_mastery: None, expansion_jewel: None, skill: String::from("26683"), orbit_index: 11 }),
                (23, Node { is_notable: None, is_jewel_socket: None, is_mastery: None, expansion_jewel: None, skill: String::from("47131"), orbit_index: 8 })
                ],
            ),
        ),
    ];
    let items = vec![item(17, "Magic"), item(45, "Rare"), item(40, "Rare"), item(47, "Rare"), item(26, "Rare")];
    let hashes_ex = vec![9, 5, 15, 17, 1363, 1445, 11];
    assert_eq!(
        resolve(hashes_ex, items, jewel_data),
        Ok(vec![65810, 65810, 66066])
    );
}

#[test]
fn resolves_layout_13() {
    let jewel_data = vec![
        (
            13,
            cluster(
                "JewelPassiveTreeExpansionLarge",
                13,
                "30275",
                &["1", "2", "3", "4", "5"],
                vec![
                (1, Node { is_notable: Some(true), is_jewel_socket: None, is_mastery: None, expansion_jewel: None, skill: String::from("53778"), orbit_index: 4 }),
                (2, Node { is_notable: Some(true), is_jewel_socket: None, is_mastery: None, expansion_jewel: None, skill: String::from("26876"), orbit_index: 14 }),
                (3, Node { is_notable: None, is_jewel_socket: None, is_mastery: None, expansion_jewel: None, skill: String::from("42946"), orbit_index: 9 }),
                (4, Node { is_notable: None, is_jewel_socket: Some(true), is_mastery: None, expansion_jewel: Some(ExpansionJewel { size: 1, index: 2, proxy: String::from("53203") }), skill: String::from("44169"), orbit_index: 8 }),
                (5, Node { is_notable: None, is_jewel_socket: None, is_mastery: None, expansion_jewel: None, skill: String::from("7069"), orbit_index: 0 })
                ],
            ),
        ),
        (56, plain("JewelInt")),
        (
            48,
            cluster(
                "JewelPassiveTreeExpansionSmall",
                48,
                "36414",
                &[],
                vec![
                
                ],
            ),
        ),
        (
            35,
            cluster(
                "JewelPassiveTreeExpansionMedium",
                35,
                "53203",
                &[],
                vec![
                
                ],
            ),
        ),
    ];
    let items = vec![item(13, "Unique"), item(48, "Unique"), item(35, "Rare")];
    let hashes_ex = vec![1374, 4];
    assert_eq!(
        resolve(hashes_ex, items, jewel_data),
        Ok(vec![65704, 65536])
    );
}

#[test]
fn resolves_layout_14() {
    let jewel_data = vec![
        (
            11,
            cluster(
                "JewelPassiveTreeExpansionLarge",
                11,
                "43989",
                &["1", "2", "3"],
                vec![
                (1, Node { is_notable: None, is_jewel_socket: Some(true), is_mastery: None, expansion_jewel: Some(ExpansionJewel { size: 1, index: 1, proxy: String::from("26661") }), skill: String::from("48679"), orbit_index: 14 }),
                (2, Node { is_notable: None, is_jewel_socket: None, is_mastery: None, expansion_jewel: None, skill: String::from("37069"), orbit_index: 11 }),
                (3, Node { is_notable: None, is_jewel_socket: Some(true), is_mastery: None, expansion_jewel: Some(ExpansionJewel { size: 1, index: 0, proxy: String::from("55706") }), skill: String::from("29712"), orbit_index: 1 })
                ],
            ),
        ),
        (
            15,
            cluster(
                "JewelPassiveTreeExpansionLarge",
                15,
                "28650",
                &["15", "16", "17", "18", "19", "20"],
                vec![
                (15, Node { is_notable: None, is_jewel_socket: None, is_mastery: None, expansion_jewel: None, skill: String::from("380"), orbit_index: 7 }),
                (16, Node { is_notable: None, is_jewel_socket: None, is_mastery: None, expansion_jewel: None, skill: String::from("9779"), orbit_index: 9 }),
                (17, Node { is_notable: None, is_jewel_socket: None, is_mastery: Some(true), expansion_jewel: None, skill: String::from("44102"), orbit_index: 8 }),
                (18, Node { is_notable: None, is_jewel_socket: None, is_mastery: None, expansion_jewel: None, skill: String::from("11638"), orbit_index: 5 }),
                (19, Node { is_notable: None, is_jewel_socket: None, is_mastery: None, expansion_jewel: None, skill: String::from("9552"), orbit_index: 9 }),
                (20, Node { is_notable: None, is_jewel_socket: None, is_mastery: None, expansion_jewel: None, skill: String::from("1170"), orbit_index: 15 })
                ],
            ),
        ),
        (
            56,
            cluster(
                "JewelPassiveTreeExpansionSmall",
                56,
                "27819",
                &[],
                vec![
                
                ],
            ),
        ),
        (31, plain("JewelInt")),
        (
            21,
            cluster(
                "JewelPassiveTreeExpansionMedium",
                21,
                "55706",
                &["4", "5", "6", "7", "8", "9", "10"],
                vec![
                (4, Node { is_notable: Some(true), is_jewel_socket: None, is_mastery: None, expansion_jewel: None, skill: String::from("10279"), orbit_index: 4 }),
                (5, Node { is_notable: Some(true), is_jewel_socket: None, is_mastery: None, expansion_jewel: None, skill: String::from("28837"), orbit_index: 0 }),
                (6, Node { is_notable: Some(true), is_jewel_socket: None, is_mastery: None, expansion_jewel: None, skill: String::from("12134"), orbit_index: 4 }),
                (7, Node { is_notable: None, is_jewel_socket: None, is_mastery: None, expansion_jewel: None, skill: String::from("24900"), orbit_index: 2 }),
                (8, Node { is_notable: None, is_jewel_socket: None, is_mastery: None, expansion_jewel: None, skill: String::from("56683"), orbit_index: 0 }),
                (9, Node { is_notable: None, is_jewel_socket: None, is_mastery: None, expansion_jewel: None, skill: String::from("38376"), orbit_index: 1 }),
                (10, Node { is_notable: None, is_jewel_socket: None, is_mastery: None, expansion_jewel: None, skill: String::from("23298"), orbit_index: 15 })
                ],
            ),
        ),
        (
            22,
            cluster(
                "JewelPassiveTreeExpansionMedium",
                22,
                "26661",
                &["11", "12", "13", "14"],
                vec![
                (11, Node { is_notable: Some(true), is_jewel_socket: None, is_mastery: None, expansion_jewel: None, skill: String::from("8910"), orbit_index: 9 }),
                (12, Node { is_notable: Some(true), is_jewel_socket: None, is_mastery: None, expansion_jewel: None, skill: String::from("1072"), orbit_index: 2 }),
                (13, Node { is_notable: None, is_jewel_socket: None, is_mastery: Some(true), expansion_jewel: None, skill: String::from("42743"), orbit_index: 10 }),
                (14, Node { is_notable: Some(true), is_jewel_socket: None, is_mastery: None, expansion_jewel: None, skill: String::from("21141"), orbit_index: 10 })
                ],
            ),
        ),
        (
            35,
            cluster(
                "JewelPassiveTreeExpansionMedium",
                35,
                "53203",
                &["21"],
                vec![
                (21, Node { is_notable: Some(true), is_jewel_socket: None, is_mastery: None, expansion_jewel: None, skill: String::from("49326"), orbit_index: 1 })
                ],
            ),
        ),
    ];
    let items = vec![item(22, "Rare"), item(35, "Rare"), item(56, "Unique"), item(21, "Rare"), item(11, "Unique"), item(15, "Magic")];
    let hashes_ex = vec![7, 1857, 1907, 1405];
    assert_eq!(
        resolve(hashes_ex, items, jewel_data),
        Ok(vec![65554, 65536])
    );
}

#[test]
fn resolves_layout_15() {
    let jewel_data = vec![
        (
            11,
            cluster(
                "JewelPassiveTreeExpansionLarge",
                11,
                "43989",
                &["1", "2", "3", "4", "5", "6"],
                vec![
                (1, Node { is_notable: None, is_jewel_socket: Some(true), is_mastery: None, expansion_jewel: Some(ExpansionJewel { size: 1, index: 0, proxy: String::from("55706") }), skill: String::from("29712"), orbit_index: 6 }),
                (2, Node { is_notable: Some(true), is_jewel_socket: None, is_mastery: None, expansion_jewel: None, skill: String::from("14068"), orbit_index: 2 }),
                (3, Node { is_notable: Some(true), is_jewel_socket: None, is_mastery: None, expansion_jewel: None, skill: String::from("56420"), orbit_index: 8 }),
                (4, Node { is_notable: None, is_jewel_socket: Some(true), is_mastery: None, expansion_jewel: Some(ExpansionJewel { size: 1, index: 2, proxy: String::from("13201") }), skill: String::from("9408"), orbit_index: 0 }),
                (5, Node { is_notable: None, is_jewel_socket: None, is_mastery: Some(true), expansion_jewel: None, skill: String::from("28582"), orbit_index: 13 }),
                (6, Node { is_notable: Some(true), is_jewel_socket: None, is_mastery: None, expansion_jewel: None, skill: String::from("6961"), orbit_index: 14 })
                ],
            ),
        ),
        (
            39,
            cluster(
                "JewelPassiveTreeExpansionMedium",
                39,
                "37898",
                &["28", "29", "30", "31"],
                vec![
                (28, Node { is_notable: None, is_jewel_socket: None, is_mastery: None, expansion_jewel: None, skill: String::from("57619"), orbit_index: 5 }),
                (29, Node { is_notable: None, is_jewel_socket: None, is_mastery: None, expansion_jewel: None, skill: String::from("57746"), orbit_index: 5 }),
                (30, Node { is_notable: Some(true), is_jewel_socket: None, is_mastery: None, expansion_jewel: None, skill: String::from("54181"), orbit_index: 3 }),
                (31, Node { is_notable: Some(true), is_jewel_socket: None, is_mastery: None, expansion_jewel: None, skill: String::from("55770"), orbit_index: 4 })
                ],
            ),
        ),
        (
            21,
            cluster(
                "JewelPassiveTreeExpansionMedium",
                21,
                "55706",
                &["12", "13", "14", "15", "16", "17", "18"],
                vec![
                (12, Node { is_notable: None, is_jewel_socket: None, is_mastery: Some(true), expansion_jewel: None, skill: String::from("41767"), orbit_index: 8 }),
                (13, Node { is_notable: None, is_jewel_socket: None, is_mastery: None, expansion_jewel: None, skill: String::from("9588"), orbit_index: 7 }),
                (14, Node { is_notable: None, is_jewel_socket: None, is_mastery: None, expansion_jewel: None, skill: String::from("51445"), orbit_index: 3 }),
                (15, Node { is_notable: Some(true), is_jewel_socket: None, is_mastery: None, expansion_jewel: None, skill: String::from("3258"), orbit_index: 14 }),
                (16, Node { is_notable: None, is_jewel_socket: None, is_mastery: None, expansion_jewel: None, skill: String::from("34943"), orbit_index: 12 }),
                (17, Node { is_notable: Some(true), is_jewel_socket: None, is_mastery: None, expansion_jewel: None, skill: String::from("15333"), orbit_index: 13 }),
                (18, Node { is_notable: None, is_jewel_socket: None, is_mastery: None, expansion_jewel: None, skill: String::from("45660"), orbit_index: 7 })
                ],
            ),
        ),
        (
            43,
            cluster(
                "JewelPassiveTreeExpansionSmall",
                43,
                "27475",
                &[],
                vec![
                
                ],
            ),
        ),
        (
            40,
            cluster(
                "JewelPassiveTreeExpansionMedium",
                40,
                "64166",
                &["24", "25", "26", "27"],
                vec![
                (24, Node { is_notable: None, is_jewel_socket: None, is_mastery: Some(true), expansion_jewel: None, skill: String::from("41858"), orbit_index: 0 }),
                (25, Node { is_notable: Some(true), is_jewel_socket: None, is_mastery: None, expansion_jewel: None, skill: String::from("17810"), orbit_index: 1 }),
                (26, Node { is_notable: Some(true), is_jewel_socket: None, is_mastery: None, expansion_jewel: None, skill: String::from("48771"), orbit_index: 9 }),
                (27, Node { is_notable: Some(true), is_jewel_socket: None, is_mastery: None, expansion_jewel: None, skill: String::from("45923"), orbit_index: 10 })
                ],
            ),
        ),
        (
            23,
            cluster(
                "JewelPassiveTreeExpansionMedium",
                23,
                "13201",
                &["7", "8", "9", "10", "11"],
                vec![
                (7, Node { is_notable: None, is_jewel_socket: None, is_mastery: None, expansion_jewel: None, skill: String::from("51393"), orbit_index: 0 }),
                (8, Node { is_notable: Some(true), is_jewel_socket: None, is_mastery: None, expansion_jewel: None, skill: String::from("27293"), orbit_index: 13 }),
                (9, Node { is_notable: None, is_jewel_socket: None, is_mastery: Some(true), expansion_jewel: None, skill: String::from("5844"), orbit_index: 13 }),
                (10, Node { is_notable: Some(true), is_jewel_socket: None, is_mastery: None, expansion_jewel: None, skill: String::from("15952"), orbit_index: 9 }),
                (11, Node { is_notable: None, is_jewel_socket: None, is_mastery: None, expansion_jewel: None, skill: String::from("32157"), orbit_index: 0 })
                ],
            ),
        ),
        (
            15,
            cluster(
                "JewelPassiveTreeExpansionLarge",
                15,
                "28650",
                &["19", "20", "21", "22", "23"],
                vec![
                (19, Node { is_notable: None, is_jewel_socket: None, is_mastery: Some(true), expansion_jewel: None, skill: String::from("23297"), orbit_index: 12 }),
                (20, Node { is_notable: None, is_jewel_socket: Some(true), is_mastery: None, expansion_jewel: Some(ExpansionJewel { size: 1, index: 2, proxy: String::from("58355") }), skill: String::from("46519"), orbit_index: 14 }),
                (21, Node { is_notable: None, is_jewel_socket: None, is_mastery: None, expansion_jewel: None, skill: String::from("22010"), orbit_index: 8 }),
                (22, Node { is_notable: Some(true), is_jewel_socket: None, is_mastery: None, expansion_jewel: None, skill: String::from("49126"), orbit_index: 6 }),
                (23, Node { is_notable: None, is_jewel_socket: Some(true), is_mastery: None, expansion_jewel: Some(ExpansionJewel { size: 1, index: 1, proxy: String::from("64166") }), skill: String::from("23756"), orbit_index: 13 })
                ],
            ),
        ),
    ];
    let items = vec![item(21, "Rare"), item(39, "Rare"), item(23, "Rare"), item(43, "Unique"), item(40, "Rare"), item(11, "Rare"), item(15, "Magic")];
    let hashes_ex = vec![1785, 8, 1015, 1009];
    assert_eq!(
        resolve(hashes_ex, items, jewel_data),
        Ok(vec![65536])
    );
}

#[test]
fn resolves_layout_16() {
    let jewel_data = vec![
        (
            17,
            cluster(
                "JewelPassiveTreeExpansionLarge",
                17,
                "48132",
                &["1", "2", "3", "4", "5"],
                vec![
                (1, Node { is_notable: None, is_jewel_socket: None, is_mastery: None, expansion_jewel: None, skill: String::from("34975"), orbit_index: 5 }),
                (2, Node { is_notable: Some(true), is_jewel_socket: None, is_mastery: None, expansion_jewel: None, skill: String::from("47624"), orbit_index: 1 }),
                (3, Node { is_notable: None, is_jewel_socket: None, is_mastery: None, expansion_jewel: None, skill: String::from("8645"), orbit_index: 4 }),
                (4, Node { is_notable: Some(true), is_jewel_socket: None, is_mastery: None, expansion_jewel: None, skill: String::from("42580"), orbit_index: 6 }),
                (5, Node { is_notable: None, is_jewel_socket: None, is_mastery: None, expansion_jewel: None, skill: String::from("28187"), orbit_index: 12 })
                ],
            ),
        ),
        (59, plain("JewelInt")),
        (
            11,
            cluster(
                "JewelPassiveTreeExpansionLarge",
                11,
                "43989",
                &["6", "7"],
                vec![
                (6, Node { is_notable: None, is_jewel_socket: Some(true), is_mastery: None, expansion_jewel: Some(ExpansionJewel { size: 1, index: 0, proxy: String::from("55706") }), skill: String::from("29712"), orbit_index: 1 }),
                (7, Node { is_notable: None, is_jewel_socket: Some(true), is_mastery: None, expansion_jewel: Some(ExpansionJewel { size: 1, index: 2, proxy: String::from("13201") }), skill: String::from("9408"), orbit_index: 0 })
                ],
            ),
        ),
        (
            23,
            cluster(
                "JewelPassiveTreeExpansionMedium",
                23,
                "13201",
                &["8", "9", "10", "11", "12", "13"],
                vec![
                (8, Node { is_notable: None, is_jewel_socket: None, is_mastery: None, expansion_jewel: None, skill: String::from("36179"), orbit_index: 9 }),
                (9, Node { is_notable: None, is_jewel_socket: None, is_mastery: None, expansion_jewel: None, skill: String::from("21050"), orbit_index: 0 }),
                (10, Node { is_notable: Some(true), is_jewel_socket: None, is_mastery: None, expansion_jewel: None, skill: String::from("9346"), orbit_index: 7 }),
                (11, Node { is_notable: Some(true), is_jewel_socket: None, is_mastery: None, expansion_jewel: None, skill: String::from("6153"), orbit_index: 14 }),
                (12, Node { is_notable: None, is_jewel_socket: None, is_mastery: None, expansion_jewel: None, skill: String::from("13270"), orbit_index: 14 }),
                (13, Node { is_notable: None, is_jewel_socket: None, is_mastery: None, expansion_jewel: None, skill: String::from("46031"), orbit_index: 1 })
                ],
            ),
        ),
        (
            34,
            cluster(
                "JewelPassiveTreeExpansionMedium",
                34,
                "28018",
                &["14", "15", "16", "17"],
                vec![
                (14, Node { is_notable: None, is_jewel_socket: None, is_mastery: Some(true), expansion_jewel: None, skill: String::from("48605"), orbit_index: 13 }),
                (15, Node { is_notable: None, is_jewel_socket: None, is_mastery: None, expansion_jewel: None, skill: String::from("19227"), orbit_index: 11 }),
                (16, Node { is_notable: Some(true), is_jewel_socket: None, is_mastery: None, expansion_jewel: None, skill: String::from("7410"), orbit_index: 5 }),
                (17, Node { is_notable: None, is_jewel_socket: None, is_mastery: None, expansion_jewel: None, skill: String::from("37679"), orbit_index: 15 })
                ],
            ),
        ),
        (
            48,
            cluster(
                "JewelPassiveTreeExpansionSmall",
                48,
                "36414",
                &["18", "19", "20", "21", "22"],
                vec![
                (18, Node { is_notable: None, is_jewel_socket: None, is_mastery: Some(true), expansion_jewel: None, skill: String::from("45008"), orbit_index: 6 }),
                (19, Node { is_notable: None, is_jewel_socket: None, is_mastery: None, expansion_jewel: None, skill: String::from("51811"), orbit_index: 13 }),
                (20, Node { is_notable: Some(true), is_jewel_socket: None, is_mastery: None, expansion_jewel: None, skill: String::from("23540"), orbit_index: 10 }),
                (21, Node { is_notable: None, is_jewel_socket: None, is_mastery: None, expansion_jewel: None, skill: String::from("3689"), orbit_index: 5 }),
                (22, Node { is_notable: None, is_jewel_socket: None, is_mastery: None, expansion_jewel: None, skill: String::from("14386"), orbit_index: 14 })
                ],
            ),
        ),
    ];
    let items = vec![item(11, "Magic"), item(48, "Rare"), item(23, "Rare"), item(17, "Rare"), item(34, "Rare")];
    let hashes_ex = vec![1315];
    assert_eq!(
        resolve(hashes_ex, items, jewel_data),
        Ok(vec![])
    );
}
