use indexmap::IndexMap;
use poe_trans::model::items::{Character, Items};
use poe_trans::model::passive_skills::{MasteryEffects, PassiveSkills};
use poe_trans::transformer::encoding::encode_tree;
use poe_trans::transformer::{Options, Transformer};

fn table(pairs: &[(i32, i32)]) -> MasteryEffects {
    let mut map = IndexMap::new();
    for (k, v) in pairs {
        map.insert(*k, *v);
    }
    MasteryEffects::Table(map)
}

fn transformer(class: &str, hashes: Vec<i32>, effects: MasteryEffects) -> Transformer {
    let items = Items {
        character: Character {
            class: String::from(class),
            league: String::from("Standard"),
            level: 1,
            name: String::from("n"),
            realm: String::from("pc"),
        },
        items: vec![],
    };
    let skills = PassiveSkills {
        character: 0,
        ascendancy: 0,
        alternate_ascendancy: 0,
        hashes,
        hashes_ex: vec![],
        mastery_effects: effects,
        skill_overrides: IndexMap::new(),
        items: vec![],
        jewel_data: IndexMap::new(),
    };
    Transformer::new(items, skills, Options::default())
}

#[test]
fn tree_bytes_follow_the_layout() {
    let bytes = encode_tree(3, 2, &vec![0x0102, 0xfffe], &table(&[(0x1234, 7)]));
    assert_eq!(
        bytes,
        vec![0, 0, 0, 6, 3, 2, 2, 0x01, 0x02, 0xff, 0xfe, 0, 1, 0x12, 0x34, 0x00, 0x07]
    );
    assert_eq!(bytes.len(), 6 + 1 + 2 * 2 + 2 + 4 * 1);
}

#[test]
fn tree_bytes_of_an_empty_tree() {
    assert_eq!(encode_tree(0, 0, &vec![], &table(&[])), vec![0, 0, 0, 6, 0, 0, 0, 0, 0]);
    assert_eq!(
        encode_tree(6, 3, &vec![], &MasteryEffects::Arr(vec![5, 6])),
        vec![0, 0, 0, 6, 6, 3, 0, 0, 0]
    );
}

#[test]
fn tree_bytes_keep_the_low_sixteen_bits() {
    let bytes = encode_tree(1, 0, &vec![0x1_0203, -1], &table(&[(-2, 0x7_0008)]));
    assert_eq!(
        bytes,
        vec![0, 0, 0, 6, 1, 0, 2, 0x02, 0x03, 0xff, 0xff, 0, 1, 0xff, 0xfe, 0x00, 0x08]
    );
}

#[test]
fn tree_bytes_grow_with_hashes_and_effects() {
    let hashes: Vec<i32> = (0..255).collect();
    let pairs: Vec<(i32, i32)> = (0..300).map(|i| (i, i + 1)).collect();
    let bytes = encode_tree(2, 1, &hashes, &table(&pairs));
    assert_eq!(bytes.len(), 6 + 1 + 2 * 255 + 2 + 4 * 300);
    assert_eq!(&bytes[..7], &[0, 0, 0, 6, 2, 1, 255]);
    assert_eq!(&bytes[7 + 510..7 + 512], &[0x01, 0x2c]);
}

#[test]
fn encoded_tree_is_url_safe_base64() {
    let t = transformer("Elementalist", vec![0x0102, 0xfffe], table(&[(0x1234, 7)]));
    assert!(t.can_encode_tree());
    assert_eq!(t.get_encoded_tree(), "AAAABgMCAgEC__4AARI0AAc=");
    assert_eq!(t.try_encoded_tree().unwrap(), "AAAABgMCAgEC__4AARI0AAc=");
    let unknown = transformer("Nobody", vec![], table(&[]));
    assert_eq!(unknown.get_encoded_tree(), "AAAABgAAAAAA");
}

#[test]
fn a_tree_with_too_many_hashes_is_not_encoded() {
    let t = transformer("Witch", (0..256).collect(), table(&[]));
    assert!(!t.can_encode_tree());
    assert!(t.try_encoded_tree().is_none());
}
