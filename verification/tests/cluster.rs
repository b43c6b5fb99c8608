use indexmap::IndexMap;
use poe_trans::model::items::{Character, Item, Items};
use poe_trans::model::passive_skills::{
    Expansion, ExpansionJewel, JewelData, MasteryEffects, Node, PassiveSkills, SubGraph,
};
use poe_trans::transformer::cluster::{
    can_translate_oidx, pick_slots, sorted, translate_oidx, ResolveError, SlotRule,
};
use poe_trans::transformer::support::{cluster_jewel_size, node_id_of_expansion_slot, Supporter};
use poe_trans::transformer::{get_sorted_cluster_jewels, Options, Transformer};
use std::collections::{HashMap, HashSet};

fn item(x: Option<i32>, rarity: &str) -> Item {
    Item {
        id: String::from("id"),
        sockets: None,
        influences: None,
        searing: None,
        tangled: None,
        abyss_jewel: None,
        fractured: None,
        name: String::new(),
        type_line: String::from("Cluster Jewel"),
        base_type: String::from("Cluster Jewel"),
        rarity: Some(String::from(rarity)),
        ilvl: 84,
        corrupted: None,
        properties: None,
        requirements: None,
        enchant_mods: None,
        implicit_mods: None,
        explicit_mods: None,
        crafted_mods: None,
        utility_mods: None,
        fractured_mods: None,
        scourge_mods: None,
        crucible_mods: None,
        inventory_id: Some(String::from("PassiveJewels")),
        duplicated: None,
        synthesised: None,
        socketed_items: None,
        hybrid: None,
        frame_type: 2,
        x,
    }
}

fn notable(orbit_index: i32) -> Node {
    Node {
        is_notable: Some(true),
        is_jewel_socket: None,
        is_mastery: None,
        expansion_jewel: None,
        skill: String::from("0"),
        orbit_index,
    }
}

fn small(orbit_index: i32) -> Node {
    Node {
        is_notable: None,
        is_jewel_socket: None,
        is_mastery: None,
        expansion_jewel: None,
        skill: String::from("0"),
        orbit_index,
    }
}

fn mastery() -> Node {
    Node {
        is_notable: None,
        is_jewel_socket: None,
        is_mastery: Some(true),
        expansion_jewel: None,
        skill: String::from("0"),
        orbit_index: 0,
    }
}

fn socket(orbit_index: i32, skill: &str, size: i32, index: i32, proxy: &str) -> Node {
    Node {
        is_notable: None,
        is_jewel_socket: Some(true),
        is_mastery: None,
        expansion_jewel: Some(ExpansionJewel { size, index, proxy: String::from(proxy) }),
        skill: String::from(skill),
        orbit_index,
    }
}

fn jewel(kind: &str, seq: i32, proxy: &str, nodes: Vec<(i32, Node)>) -> JewelData {
    let mut groups = IndexMap::new();
    groups.insert(
        format!("expansion_{}", seq),
        Expansion {
            nodes: nodes.iter().map(|(id, _)| id.to_string()).collect(),
            proxy: String::from(proxy),
        },
    );
    let mut map = IndexMap::new();
    for (id, node) in nodes {
        map.insert(id, node);
    }
    JewelData { type_v: String::from(kind), subgraph: Some(SubGraph { groups, nodes: map }) }
}

fn skills(
    hashes_ex: Vec<i32>,
    items: Vec<Item>,
    jewel_data: Vec<(i32, JewelData)>,
) -> PassiveSkills {
    let mut data = IndexMap::new();
    for (k, v) in jewel_data {
        data.insert(k, v);
    }
    PassiveSkills {
        character: 0,
        ascendancy: 0,
        alternate_ascendancy: 0,
        hashes: vec![],
        hashes_ex,
        mastery_effects: MasteryEffects::Arr(vec![]),
        skill_overrides: IndexMap::new(),
        items,
        jewel_data: data,
    }
}

fn transformer(skills: PassiveSkills) -> Transformer {
    let items = Items {
        character: Character {
            class: String::from("Witch"),
            league: String::from("Standard"),
            level: 90,
            name: String::from("n"),
            realm: String::from("pc"),
        },
        items: vec![],
    };
    Transformer::new(items, skills, Options::default())
}

fn large() -> JewelData {
    jewel(
        "JewelPassiveTreeExpansionLarge",
        11,
        "43989",
        vec![
            (1, notable(12)),
            (2, small(7)),
            (3, small(1)),
            (4, socket(15, "9408", 1, 2, "13201")),
            (5, mastery()),
        ],
    )
}

fn medium() -> JewelData {
    jewel(
        "JewelPassiveTreeExpansionMedium",
        23,
        "13201",
        vec![
            (10, notable(15)),
            (11, notable(4)),
            (12, small(9)),
            (13, small(1)),
            (14, small(13)),
        ],
    )
}

fn unique_small() -> JewelData {
    jewel("JewelPassiveTreeExpansionSmall", 26, "7956", vec![])
}

#[test]
fn orbit_index_between_rings() {
    assert_eq!(translate_oidx(5, 7, 7), 5);
    assert_eq!(translate_oidx(-3, 0, 0), -3);
    assert_eq!(translate_oidx(7, 12, 16), 9);
    assert_eq!(translate_oidx(11, 12, 16), 15);
    assert_eq!(translate_oidx(7, 16, 12), 5);
    assert_eq!(translate_oidx(2, 16, 12), 1);
    assert_eq!(translate_oidx(3, 6, 12), 6);
    assert_eq!(translate_oidx(5, 12, 6), 2);
    assert_eq!(translate_oidx(1, 40, 72), 1);
}

#[test]
fn orbit_index_that_cannot_be_moved() {
    assert!(can_translate_oidx(11, 12, 16));
    assert!(!can_translate_oidx(12, 12, 16));
    assert!(!can_translate_oidx(-1, 12, 16));
    assert!(!can_translate_oidx(16, 16, 12));
    assert!(!can_translate_oidx(1, 0, 6));
    assert!(!can_translate_oidx(-1, 6, 12));
    assert!(!can_translate_oidx(i32::MAX, 6, 12));
    assert!(can_translate_oidx(i32::MAX, 6, 6));
}

#[test]
fn ring_of_twelve_survives_the_round_trip() {
    for i in 0..12 {
        assert_eq!(translate_oidx(translate_oidx(i, 12, 16), 16, 12), i);
    }
}

#[test]
fn ring_of_sixteen_stays_in_its_class() {
    for i in 0..16 {
        let there = translate_oidx(i, 16, 12);
        let back = translate_oidx(there, 12, 16);
        assert_eq!(translate_oidx(back, 16, 12), there);
    }
    assert_eq!(translate_oidx(translate_oidx(2, 16, 12), 12, 16), 1);
}

#[test]
fn sorting_is_ascending_and_keeps_duplicates() {
    assert_eq!(sorted(&vec![6, 10, 2, 0, 2]), vec![0, 2, 2, 6, 10]);
    assert_eq!(sorted(&vec![]), Vec::<i32>::new());
    assert_eq!(sorted(&vec![-1, i32::MIN, i32::MAX]), vec![i32::MIN, -1, i32::MAX]);
}

#[test]
fn medium_jewel_with_two_notables_and_no_socket() {
    let rule = SlotRule { medium: true, for_smalls: false, sockets: 0, notables: 2, count: 5 };
    let taken = HashMap::new();
    assert_eq!(pick_slots(&vec![6, 10, 2, 0], &rule, &taken, 2), vec![4, 8]);
}

#[test]
fn medium_jewel_with_four_nodes() {
    let taken = HashMap::new();
    let notables = SlotRule { medium: true, for_smalls: false, sockets: 0, notables: 1, count: 4 };
    assert_eq!(pick_slots(&vec![6, 10, 2, 0], &notables, &taken, 4), vec![6, 9, 3, 0]);
    let smalls = SlotRule { medium: true, for_smalls: true, sockets: 0, notables: 1, count: 4 };
    assert_eq!(
        pick_slots(&vec![0, 6, 8, 4, 10, 2], &smalls, &taken, 6),
        vec![0, 6, 9, 3, 10, 2]
    );
}

#[test]
fn medium_jewel_with_five_nodes_moves_a_small_passive() {
    let taken = HashMap::new();
    let smalls = SlotRule { medium: true, for_smalls: true, sockets: 0, notables: 2, count: 5 };
    assert_eq!(pick_slots(&vec![0, 6, 8, 4, 10, 2], &smalls, &taken, 6), vec![0, 6, 8, 3, 10, 2]);
    let large = SlotRule { medium: false, for_smalls: true, sockets: 0, notables: 2, count: 5 };
    assert_eq!(pick_slots(&vec![0, 6, 8, 4, 10, 2], &large, &taken, 6), vec![0, 6, 8, 4, 10, 2]);
}

#[test]
fn taken_slots_are_passed_over_and_picking_stops_at_the_limit() {
    let rule = SlotRule { medium: false, for_smalls: false, sockets: 1, notables: 2, count: 6 };
    let mut taken = HashMap::new();
    taken.insert(6, 9408);
    assert_eq!(pick_slots(&vec![6, 4, 8, 10, 2], &rule, &taken, 2), vec![4, 8]);
    assert_eq!(pick_slots(&vec![6, 4, 8, 10, 2], &rule, &taken, 0), Vec::<i32>::new());
    assert_eq!(pick_slots(&vec![6], &rule, &taken, 3), Vec::<i32>::new());
}

#[test]
fn jewel_sizes_by_type() {
    assert_eq!(cluster_jewel_size("JewelPassiveTreeExpansionLarge"), 2);
    assert_eq!(cluster_jewel_size("JewelPassiveTreeExpansionMedium"), 1);
    assert_eq!(cluster_jewel_size("JewelPassiveTreeExpansionSmall"), 0);
    assert_eq!(cluster_jewel_size("JewelBase"), -1);
    assert_eq!(cluster_jewel_size(""), -1);
}

#[test]
fn sockets_of_the_tree() {
    assert_eq!(node_id_of_expansion_slot(0), 26725);
    assert_eq!(node_id_of_expansion_slot(11), 7960);
    assert_eq!(node_id_of_expansion_slot(59), 18060);
}

#[test]
fn tables_of_the_game() {
    let supporter = Supporter::new();
    assert_eq!(supporter.jewel_sizes(), 3);
    let medium = supporter.get_jewel_meta(1);
    assert_eq!(medium.size_index, 1);
    assert_eq!(medium.notable_indicies, vec![6, 10, 2, 0]);
    assert_eq!(medium.socket_indicies, vec![6]);
    assert_eq!(medium.small_indicies, vec![0, 6, 8, 4, 10, 2]);
    assert_eq!(medium.total_indicies, 12);
    assert_eq!(supporter.get_jewel_meta(0).total_indicies, 6);
    assert_eq!(supporter.get_jewel_meta(2).socket_indicies, vec![4, 8, 6]);
    let tree = supporter.tree_meta();
    assert_eq!(tree.nodes.len(), 84);
    assert_eq!(tree.constants.skills_per_orbit, vec![1, 6, 16, 16, 40, 72, 72]);
    let socket = tree.nodes.get(&7960).unwrap();
    assert_eq!((socket.orbit, socket.orbit_index), (1, 1));
    let jewel = socket.expansion_jewel.as_ref().unwrap();
    assert_eq!((jewel.size, jewel.index, jewel.proxy.as_str()), (2, 0, "43989"));
    let proxy = tree.nodes.get(&43989).unwrap();
    assert_eq!((proxy.orbit, proxy.orbit_index), (3, 7));
    assert!(proxy.expansion_jewel.is_none());
}

#[test]
fn jewels_are_taken_largest_first() {
    let items = vec![item(Some(26), "Unique"), item(Some(23), "Rare"), item(Some(11), "Rare")];
    let mut data = IndexMap::new();
    data.insert(26, unique_small());
    data.insert(
        3,
        JewelData { type_v: String::from("JewelInt"), subgraph: None },
    );
    data.insert(23, medium());
    data.insert(11, large());
    let jewels = get_sorted_cluster_jewels(&data, &items).unwrap();
    let order: Vec<(i32, usize, usize, usize)> =
        jewels.iter().map(|j| (j.seq_num, j.item, j.data, j.size)).collect();
    assert_eq!(order, vec![(11, 2, 3, 2), (23, 1, 2, 1), (26, 0, 0, 0)]);
}

#[test]
fn jewel_without_its_item_is_missing_data() {
    let mut data = IndexMap::new();
    data.insert(11, large());
    assert_eq!(
        get_sorted_cluster_jewels(&data, &vec![item(Some(12), "Rare")]),
        Err(ResolveError::MissingData)
    );
    assert_eq!(
        get_sorted_cluster_jewels(&data, &vec![item(Some(11), "Rare"), item(None, "Rare")]),
        Err(ResolveError::MissingData)
    );
}

#[test]
fn a_large_jewel_in_the_tree() {
    let t = transformer(skills(
        vec![1, 2, 4, 99],
        vec![item(Some(11), "Rare")],
        vec![(11, large())],
    ));
    assert_eq!(t.get_enabled_node_ids_of_jewels(), Ok(vec![65572, 65568, 9408]));
}

#[test]
fn a_medium_jewel_in_a_large_one_and_a_unique_small_one() {
    let t = transformer(skills(
        vec![1, 2, 4, 99, 10, 12, 14],
        vec![item(Some(26), "Unique"), item(Some(23), "Rare"), item(Some(11), "Rare")],
        vec![(26, unique_small()), (23, medium()), (11, large())],
    ));
    assert_eq!(
        t.get_enabled_node_ids_of_jewels(),
        Ok(vec![65572, 65568, 9408, 66580, 66576, 66579, 65536])
    );
}

#[test]
fn resolution_is_the_same_each_time() {
    let make = || {
        transformer(skills(
            vec![14, 12, 10, 4, 2, 1],
            vec![item(Some(23), "Rare"), item(Some(11), "Rare")],
            vec![(23, medium()), (11, large())],
        ))
    };
    let first = make().get_enabled_node_ids_of_jewels();
    assert_eq!(first, make().get_enabled_node_ids_of_jewels());
    let t = make();
    assert_eq!(t.get_enabled_node_ids_of_jewels(), t.get_enabled_node_ids_of_jewels());
    assert_eq!(first, Ok(vec![65572, 65568, 9408, 66580, 66576, 66579]));
}

#[test]
fn probable_nodes_fill_in_for_what_no_jewel_claimed() {
    let none_left = transformer(skills(
        vec![],
        vec![item(Some(26), "Unique")],
        vec![(26, unique_small())],
    ));
    assert_eq!(none_left.get_enabled_node_ids_of_jewels(), Ok(vec![]));
    let one_left = transformer(skills(
        vec![500, 501],
        vec![item(Some(26), "Unique")],
        vec![(26, unique_small())],
    ));
    assert_eq!(one_left.get_enabled_node_ids_of_jewels(), Ok(vec![65536]));
    let rare = transformer(skills(
        vec![500],
        vec![item(Some(26), "Rare")],
        vec![(26, unique_small())],
    ));
    assert_eq!(rare.get_enabled_node_ids_of_jewels(), Ok(vec![]));
}

#[test]
fn one_jewel_at_a_time() {
    let t = transformer(skills(
        vec![1, 2, 4, 99],
        vec![item(Some(11), "Rare")],
        vec![(11, large())],
    ));
    let jewels = vec![poe_trans::transformer::Jewel { seq_num: 11, item: 0, data: 0, size: 2 }];
    let anchor = ExpansionJewel { size: 2, index: 0, proxy: String::from("43989") };
    let mut awaited: HashSet<i32> = [1, 2, 4, 99].into_iter().collect();
    let mut sockets = HashMap::new();
    let (enabled, probable) = t
        .get_enabled_node_ids_of_jewel(&mut awaited, &jewels[0], &anchor, None, &mut sockets)
        .unwrap();
    assert_eq!(enabled, vec![65572, 65568, 9408]);
    assert_eq!(probable, Vec::<i32>::new());
    assert_eq!(awaited, [99].into_iter().collect());
    assert_eq!(sockets.len(), 1);
    let offered = sockets.get(&13201).unwrap();
    assert_eq!(offered.0, 65536);
    assert_eq!((offered.1.size, offered.1.index, offered.1.proxy.as_str()), (1, 2, "13201"));
}

#[test]
fn errors_leave_what_awaits_untouched() {
    let t = transformer(skills(
        vec![1],
        vec![item(Some(11), "Rare")],
        vec![(11, large())],
    ));
    let jewel = poe_trans::transformer::Jewel { seq_num: 11, item: 0, data: 0, size: 2 };
    let mut awaited: HashSet<i32> = [1].into_iter().collect();
    let mut sockets = HashMap::new();
    let unknown_proxy = ExpansionJewel { size: 2, index: 0, proxy: String::from("5") };
    assert_eq!(
        t.get_enabled_node_ids_of_jewel(&mut awaited, &jewel, &unknown_proxy, None, &mut sockets),
        Err(ResolveError::MissingData)
    );
    let no_number = ExpansionJewel { size: 2, index: 0, proxy: String::from("x") };
    assert_eq!(
        t.get_enabled_node_ids_of_jewel(&mut awaited, &jewel, &no_number, None, &mut sockets),
        Err(ResolveError::Malformed)
    );
    let too_far = ExpansionJewel { size: 2, index: i32::MAX, proxy: String::from("43989") };
    assert_eq!(
        t.get_enabled_node_ids_of_jewel(&mut awaited, &jewel, &too_far, None, &mut sockets),
        Err(ResolveError::Malformed)
    );
    let stray = poe_trans::transformer::Jewel { seq_num: 11, item: 7, data: 0, size: 2 };
    let anchor = ExpansionJewel { size: 2, index: 0, proxy: String::from("43989") };
    assert_eq!(
        t.get_enabled_node_ids_of_jewel(&mut awaited, &stray, &anchor, None, &mut sockets),
        Err(ResolveError::MissingData)
    );
    assert_eq!(awaited, [1].into_iter().collect());
    assert!(sockets.is_empty());
}

#[test]
fn broken_subgraphs_are_errors() {
    let no_graph = transformer(skills(
        vec![],
        vec![item(Some(11), "Rare")],
        vec![(
            11,
            JewelData { type_v: String::from("JewelPassiveTreeExpansionLarge"), subgraph: None },
        )],
    ));
    assert_eq!(no_graph.get_enabled_node_ids_of_jewels(), Err(ResolveError::MissingData));

    let mut wrong_group = large();
    wrong_group.subgraph.as_mut().unwrap().groups = IndexMap::new();
    let t = transformer(skills(vec![], vec![item(Some(11), "Rare")], vec![(11, wrong_group)]));
    assert_eq!(t.get_enabled_node_ids_of_jewels(), Err(ResolveError::MissingData));

    let mut bad_id = large();
    bad_id
        .subgraph
        .as_mut()
        .unwrap()
        .groups
        .get_mut("expansion_11")
        .unwrap()
        .nodes
        .push(String::from("six"));
    let t = transformer(skills(vec![], vec![item(Some(11), "Rare")], vec![(11, bad_id)]));
    assert_eq!(t.get_enabled_node_ids_of_jewels(), Err(ResolveError::Malformed));

    let mut unknown_node = large();
    unknown_node
        .subgraph
        .as_mut()
        .unwrap()
        .groups
        .get_mut("expansion_11")
        .unwrap()
        .nodes
        .push(String::from("77"));
    let t = transformer(skills(vec![], vec![item(Some(11), "Rare")], vec![(11, unknown_node)]));
    assert_eq!(t.get_enabled_node_ids_of_jewels(), Err(ResolveError::MissingData));

    let out_of_tree = transformer(skills(
        vec![],
        vec![item(Some(60), "Rare")],
        vec![(60, jewel("JewelPassiveTreeExpansionLarge", 60, "43989", vec![(1, notable(0))]))],
    ));
    assert_eq!(out_of_tree.get_enabled_node_ids_of_jewels(), Err(ResolveError::MissingData));
}

#[test]
fn mod_test_deserialize() {
    let supporter = Supporter::new();
    assert_eq!(supporter.jewel_sizes(), 3);
    assert_eq!(supporter.tree_meta().nodes.len(), 84);
}
