use poe_trans::transformer::support::{
    get_class_and_ascendancy, get_class_id, get_slot_name, is_phrecia_ascendancy,
};
use poe_trans::translator::translator::zh_to_en::json::map_to_phrecia_character_class;

#[test]
fn classes_and_ascendancies() {
    assert_eq!(get_class_and_ascendancy("Witch"), ("Witch", "None"));
    assert_eq!(get_class_and_ascendancy("Elementalist"), ("Witch", "Elementalist"));
    assert_eq!(get_class_and_ascendancy("Ascendant"), ("Scion", "Ascendant"));
    assert_eq!(get_class_and_ascendancy("Surfcaster"), ("Shadow", "Surfcaster"));
    assert_eq!(get_class_and_ascendancy("None"), ("Scion", "None"));
    assert_eq!(get_class_and_ascendancy("Exile"), ("", ""));
    assert_eq!(get_class_and_ascendancy(""), ("", ""));
}

#[test]
fn class_ids() {
    assert_eq!(get_class_id("Scion"), (0, 0));
    assert_eq!(get_class_id("Shadow"), (6, 0));
    assert_eq!(get_class_id("Elementalist"), (3, 2));
    assert_eq!(get_class_id("Saboteur"), (6, 3));
    assert_eq!(get_class_id("Bog Shaman"), (3, 3));
    assert_eq!(get_class_id("Exile"), (0, 0));
}

#[test]
fn phrecia_ascendancies() {
    assert!(is_phrecia_ascendancy("Scavenger"));
    assert!(is_phrecia_ascendancy("Daughter of Oshabi"));
    assert!(is_phrecia_ascendancy("None"));
    assert!(!is_phrecia_ascendancy("Deadeye"));
    assert_eq!(map_to_phrecia_character_class("Deadeye"), "Whisperer");
    assert_eq!(map_to_phrecia_character_class("Ascendant"), "Scavenger");
    assert_eq!(map_to_phrecia_character_class("Saboteur"), "Surfcaster");
    assert_eq!(map_to_phrecia_character_class("Witch"), "Witch");
    assert_eq!(map_to_phrecia_character_class("None"), "None");
}

#[test]
fn slot_names() {
    assert_eq!(get_slot_name("Flask", 0), "Flask 1");
    assert_eq!(get_slot_name("Flask", 4), "Flask 5");
    assert_eq!(get_slot_name("Flask", i32::MAX), "Flask 2147483648");
    assert_eq!(get_slot_name("BodyArmour", 0), "Body Armour");
    assert_eq!(get_slot_name("Helm", 3), "Helmet");
    assert_eq!(get_slot_name("Offhand2", 0), "Weapon 2 Swap");
    assert_eq!(get_slot_name("Ring2", 0), "Ring 2");
    assert_eq!(get_slot_name("Weapon", 0), "Weapon 1");
    assert_eq!(get_slot_name("Trinket", 0), "Trinket");
    assert_eq!(get_slot_name("", 0), "");
}
