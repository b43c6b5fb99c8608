//! Fixed tables of the passive tree: classes, expansion sockets, the layout
//! of each cluster-jewel size and the orbit of each socket and proxy node.

use crate::model::passive_skills::ExpansionJewel;
use crate::search::{first_match, last_match, lemma_first_match_is, lemma_no_match};
use crate::text::{decimal, decimal_string, push_decimal, str_eq};
use std::collections::HashMap;
use vstd::prelude::*;

verus! {

/// The base classes, by class id.
pub const CLASSES: [&'static str; 7] = [
    "Scion",
    "Marauder",
    "Ranger",
    "Witch",
    "Duelist",
    "Templar",
    "Shadow",
];

/// The ascendancies, four to a class: entry `4 * c + a` is ascendancy `a`
/// of class `c`.
pub const ASCENDANCIES: [&'static str; 28] = [
    "None", "Ascendant", "None", "None",
    "None", "Juggernaut", "Berserker", "Chieftain",
    "None", "Warden", "Deadeye", "Pathfinder",
    "None", "Occultist", "Elementalist", "Necromancer",
    "None", "Slayer", "Gladiator", "Champion",
    "None", "Inquisitor", "Hierophant", "Guardian",
    "None", "Assassin", "Trickster", "Saboteur",
];

/// The ascendancies of the Phrecia event, laid out as [`ASCENDANCIES`].
pub const PHRECIA_ASCENDANCIES: [&'static str; 28] = [
    "None", "Scavenger", "None", "None",
    "None", "Ancestral Commander", "Behemoth", "Antiquarian",
    "None", "Wildspeaker", "Whisperer", "Daughter of Oshabi",
    "None", "Harbinger", "Herald", "Bog Shaman",
    "None", "Aristocrat", "Gambler", "Paladin",
    "None", "Architect of Chaos", "Puppeteer", "Polytheist",
    "None", "Servant of Arakaali", "Blind Prophet", "Surfcaster",
];

/// The condition that a table entry spells `name`.
pub open spec fn spells(name: Seq<char>) -> spec_fn(&'static str) -> bool {
    |entry: &'static str| entry@ == name
}

/// The first index of `table` whose entry spells `name`.
pub fn find_name(table: &[&'static str], name: &str) -> (r: Option<usize>)
    ensures
        match r {
            Some(i) => first_match(table@, spells(name@)) == Some(i as int) && i < table.len(),
            None => first_match(table@, spells(name@)) is None,
        },
{
    let mut i: usize = 0;
    while i < table.len()
        invariant
            i <= table.len(),
            forall|j: int| 0 <= j < i ==> !spells(name@)(#[trigger] table@[j]),
        decreases table.len() - i,
    {
        if str_eq(table[i], name) {
            proof {
                lemma_first_match_is(table@, spells(name@), i as int);
            }
            return Some(i);
        }
        i += 1;
    }
    proof {
        lemma_no_match(table@, spells(name@));
    }
    None
}

/// The class and ascendancy ids that a class name stands for: a base class
/// has ascendancy 0, an ascendancy of either table has the class of its row,
/// and a name in no table gives `None`.
pub open spec fn class_ids(name: Seq<char>) -> Option<(int, int)> {
    match first_match(CLASSES@, spells(name)) {
        Some(c) => Some((c, 0)),
        None => match first_match(ASCENDANCIES@, spells(name)) {
            Some(t) => Some((t / 4, t % 4)),
            None => match first_match(PHRECIA_ASCENDANCIES@, spells(name)) {
                Some(t) => Some((t / 4, t % 4)),
                None => None,
            },
        },
    }
}

/// Whether a name is in the table of the Phrecia ascendancies.
pub open spec fn phrecia_ascendancy(name: Seq<char>) -> bool {
    first_match(PHRECIA_ASCENDANCIES@, spells(name)) is Some
}

/// The class and ascendancy ids of a class name, `(0, 0)` for a name in no
/// table.
pub fn get_class_id(character_class: &str) -> (r: (usize, usize))
    ensures
        r.0 < 7,
        r.1 < 4,
        match class_ids(character_class@) {
            Some(ids) => r.0 == ids.0 && r.1 == ids.1,
            None => r == (0usize, 0usize),
        },
{
    if let Some(c) = find_name(CLASSES.as_slice(), character_class) {
        return (c, 0);
    }
    if let Some(t) = find_name(ASCENDANCIES.as_slice(), character_class) {
        return (t / 4, t % 4);
    }
    if let Some(t) = find_name(PHRECIA_ASCENDANCIES.as_slice(), character_class) {
        return (t / 4, t % 4);
    }
    (0, 0)
}

/// The names of the class and the ascendancy that a class name stands for:
/// a base class comes with `"None"`, an ascendancy with the class of its
/// row, and a name in no table gives two empty names.
pub open spec fn class_names(name: Seq<char>) -> (Seq<char>, Seq<char>) {
    match first_match(CLASSES@, spells(name)) {
        Some(c) => (CLASSES[c]@, "None"@),
        None => match first_match(ASCENDANCIES@, spells(name)) {
            Some(t) => (CLASSES[t / 4]@, ASCENDANCIES[t]@),
            None => match first_match(PHRECIA_ASCENDANCIES@, spells(name)) {
                Some(t) => (CLASSES[t / 4]@, PHRECIA_ASCENDANCIES[t]@),
                None => (""@, ""@),
            },
        },
    }
}

/// The names of the class and the ascendancy that a class name stands for.
pub fn get_class_and_ascendancy(character_class: &str) -> (r: (&'static str, &'static str))
    ensures
        r.0@ == class_names(character_class@).0,
        r.1@ == class_names(character_class@).1,
{
    if let Some(c) = find_name(CLASSES.as_slice(), character_class) {
        return (CLASSES[c], "None");
    }
    if let Some(t) = find_name(ASCENDANCIES.as_slice(), character_class) {
        return (CLASSES[t / 4], ASCENDANCIES[t]);
    }
    if let Some(t) = find_name(PHRECIA_ASCENDANCIES.as_slice(), character_class) {
        return (CLASSES[t / 4], PHRECIA_ASCENDANCIES[t]);
    }
    ("", "")
}

/// Whether a class name is an ascendancy of the Phrecia event.
pub fn is_phrecia_ascendancy(character_class: &str) -> (r: bool)
    ensures
        r == phrecia_ascendancy(character_class@),
{
    find_name(PHRECIA_ASCENDANCIES.as_slice(), character_class).is_some()
}

/// The size of a small cluster jewel.
pub const CLUSTER_JEWEL_SIZE_SMALL: usize = 0;

/// The size of a medium cluster jewel.
pub const CLUSTER_JEWEL_SIZE_MEDIUM: usize = 1;

/// The size of a large cluster jewel.
pub const CLUSTER_JEWEL_SIZE_LARGE: usize = 2;

/// The size that a jewel type stands for, or -1 for a jewel that is no
/// cluster jewel.
pub open spec fn jewel_size_of(type_v: Seq<char>) -> int {
    if type_v == "JewelPassiveTreeExpansionLarge"@ {
        2
    } else if type_v == "JewelPassiveTreeExpansionMedium"@ {
        1
    } else if type_v == "JewelPassiveTreeExpansionSmall"@ {
        0
    } else {
        -1
    }
}

/// The size of a cluster jewel from its type: 2 for large, 1 for medium,
/// 0 for small, and -1 for a jewel that is no cluster jewel.
pub fn cluster_jewel_size(type_v: &str) -> (size: i32)
    ensures
        size == jewel_size_of(type_v@),
{
    if str_eq(type_v, "JewelPassiveTreeExpansionLarge") {
        2
    } else if str_eq(type_v, "JewelPassiveTreeExpansionMedium") {
        1
    } else if str_eq(type_v, "JewelPassiveTreeExpansionSmall") {
        0
    } else {
        -1
    }
}

/// The tree node behind each of the 60 jewel sockets, by the socket's
/// position in the export.
pub const EXPANSION_SLOT_NODE_IDS: [i32; 60] = [
    26725, 36634, 33989, 41263, 60735, 61834, 31683, 28475, 6230, 48768, 34483, 7960, 46882, 55190,
    61419, 2491, 54127, 32763, 26196, 33631, 21984, 29712, 48679, 9408, 12613, 16218, 2311, 22994,
    40400, 46393, 61305, 12161, 3109, 49080, 17219, 44169, 24970, 36931, 14993, 10532, 23756,
    46519, 23984, 51198, 61666, 6910, 49684, 33753, 18436, 11150, 22748, 64583, 61288, 13170, 9797,
    41876, 59585, 43670, 29914, 18060,
];

/// The tree node behind the jewel socket at a position.
pub fn node_id_of_expansion_slot(seq_num: usize) -> (id: i32)
    requires
        seq_num < 60,
    ensures
        id == EXPANSION_SLOT_NODE_IDS[seq_num as int],
{
    EXPANSION_SLOT_NODE_IDS[seq_num]
}

/// The layout of one size of cluster jewel: where its notables, sockets and
/// small passives go on its ring, and how many positions the ring has.
#[derive(Debug)]
pub struct JewelMeta {
    pub size_index: i32,
    pub notable_indicies: Vec<i32>,
    pub socket_indicies: Vec<i32>,
    pub small_indicies: Vec<i32>,
    pub total_indicies: i32,
}

/// The layout of one size of cluster jewel, as plain values.
pub struct JewelLayout {
    pub size_index: int,
    pub notables: Seq<i32>,
    pub sockets: Seq<i32>,
    pub smalls: Seq<i32>,
    pub total: int,
}

impl View for JewelMeta {
    type V = JewelLayout;

    open spec fn view(&self) -> JewelLayout {
        JewelLayout {
            size_index: self.size_index as int,
            notables: self.notable_indicies@,
            sockets: self.socket_indicies@,
            smalls: self.small_indicies@,
            total: self.total_indicies as int,
        }
    }
}

/// The layouts that the game uses, by jewel size.
pub open spec fn standard_layout(size: int) -> JewelLayout {
    if size == 0 {
        JewelLayout {
            size_index: 0,
            notables: seq![4i32],
            sockets: seq![4i32],
            smalls: seq![0i32, 4, 2],
            total: 6,
        }
    } else if size == 1 {
        JewelLayout {
            size_index: 1,
            notables: seq![6i32, 10, 2, 0],
            sockets: seq![6i32],
            smalls: seq![0i32, 6, 8, 4, 10, 2],
            total: 12,
        }
    } else {
        JewelLayout {
            size_index: 2,
            notables: seq![6i32, 4, 8, 10, 2],
            sockets: seq![4i32, 8, 6],
            smalls: seq![0i32, 4, 6, 8, 10, 2, 7, 5, 9, 3, 11, 1],
            total: 12,
        }
    }
}

/// What the tree says of one of its nodes.
#[derive(Debug)]
pub struct Node {
    pub expansion_jewel: Option<ExpansionJewel>,
    pub orbit: i32,
    pub orbit_index: i32,
}

/// Constants of the tree.
#[derive(Debug)]
pub struct Constants {
    pub skills_per_orbit: Vec<i32>,
}

/// The nodes of the tree that cluster jewels refer to, and its constants.
#[derive(Debug)]
pub struct TreeMeta {
    pub nodes: HashMap<i32, Node>,
    pub constants: Constants,
}

/// A row of the node table: the node's id, orbit and index on the orbit,
/// then the size of the jewel socket it offers (-1 where it offers none),
/// the socket's index and its proxy node.
pub type NodeRow = (i32, i32, i32, i32, i32, i32);

/// The socket and proxy nodes of the tree.
pub const TREE_NODES: [NodeRow; 84] = [
    (2311, 2, 1, 0, 0, 7956),
    (2491, 1, 5, 2, 3, 28650),
    (3109, 2, 9, 0, 0, 37147),
    (3854, 1, 0, -1, 0, 0),
    (6910, 3, 1, 1, 0, 35926),
    (7956, 1, 3, -1, 0, 0),
    (7960, 1, 1, 2, 0, 43989),
    (9408, 3, 1, 1, 2, 13201),
    (9797, 2, 15, 0, 0, 63754),
    (10532, 3, 7, 1, 0, 37898),
    (10643, 1, 4, -1, 0, 0),
    (11150, 2, 4, 0, 0, 10643),
    (12161, 2, 7, 0, 0, 44470),
    (12613, 2, 12, 0, 0, 40114),
    (13170, 3, 4, 1, 2, 24452),
    (13201, 2, 9, -1, 0, 0),
    (14993, 2, 15, 0, 0, 22046),
    (16218, 2, 15, 0, 0, 18361),
    (17219, 3, 12, 1, 1, 28018),
    (18361, 1, 2, -1, 0, 0),
    (18436, 2, 1, 0, 0, 36414),
    (18756, 3, 9, -1, 0, 0),
    (21984, 1, 2, 2, 5, 18756),
    (22046, 1, 2, -1, 0, 0),
    (22748, 2, 7, 0, 0, 56439),
    (22994, 3, 4, 1, 0, 51233),
    (23756, 3, 9, 1, 1, 64166),
    (23984, 2, 7, 0, 0, 48128),
    (24452, 2, 12, -1, 0, 0),
    (24970, 2, 9, 0, 0, 3854),
    (25134, 3, 15, -1, 0, 0),
    (25441, 2, 1, -1, 0, 0),
    (26661, 2, 7, -1, 0, 0),
    (27475, 1, 0, -1, 0, 0),
    (27819, 1, 4, -1, 0, 0),
    (28018, 2, 4, -1, 0, 0),
    (28650, 3, 1, -1, 0, 0),
    (29712, 3, 12, 1, 0, 55706),
    (30275, 3, 4, -1, 0, 0),
    (32763, 1, 3, 2, 4, 48132),
    (33753, 3, 7, 1, 2, 50179),
    (33833, 2, 12, -1, 0, 0),
    (34013, 2, 9, -1, 0, 0),
    (35070, 1, 1, -1, 0, 0),
    (35313, 1, 4, -1, 0, 0),
    (35853, 2, 1, -1, 0, 0),
    (35926, 2, 9, -1, 0, 0),
    (36414, 1, 3, -1, 0, 0),
    (36931, 2, 12, 0, 0, 49951),
    (37147, 1, 0, -1, 0, 0),
    (37898, 2, 15, -1, 0, 0),
    (40114, 1, 1, -1, 0, 0),
    (40400, 3, 7, 1, 1, 57194),
    (41876, 2, 1, 0, 0, 54600),
    (43989, 3, 7, -1, 0, 0),
    (44169, 3, 15, 1, 2, 53203),
    (44470, 1, 5, -1, 0, 0),
    (46393, 3, 9, 1, 2, 35853),
    (46519, 3, 12, 1, 2, 58355),
    (46882, 1, 4, 2, 1, 25134),
    (48128, 1, 5, -1, 0, 0),
    (48132, 3, 12, -1, 0, 0),
    (48679, 3, 15, 1, 1, 26661),
    (49080, 3, 9, 1, 0, 25441),
    (49684, 3, 4, 1, 1, 33833),
    (49951, 1, 1, -1, 0, 0),
    (50179, 2, 15, -1, 0, 0),
    (51198, 2, 9, 0, 0, 27475),
    (51233, 2, 12, -1, 0, 0),
    (53203, 2, 7, -1, 0, 0),
    (54600, 1, 3, -1, 0, 0),
    (55190, 1, 0, 2, 2, 30275),
    (55706, 2, 4, -1, 0, 0),
    (56439, 1, 5, -1, 0, 0),
    (57194, 2, 15, -1, 0, 0),
    (58194, 2, 7, -1, 0, 0),
    (58355, 2, 4, -1, 0, 0),
    (59585, 2, 4, 0, 0, 27819),
    (61288, 3, 1, 1, 1, 34013),
    (61305, 2, 4, 0, 0, 35313),
    (61666, 2, 12, 0, 0, 35070),
    (63754, 1, 2, -1, 0, 0),
    (64166, 2, 1, -1, 0, 0),
    (64583, 3, 15, 1, 0, 58194),
];

/// How many positions each orbit of the tree has.
pub const SKILLS_PER_ORBIT: [i32; 7] = [1, 6, 16, 16, 40, 72, 72];

/// The condition that a row describes the node `id`.
pub open spec fn row_of(id: i32) -> spec_fn(NodeRow) -> bool {
    |row: NodeRow| row.0 == id
}

/// Whether a node is the one that a row describes.
pub open spec fn node_matches(node: Node, row: NodeRow) -> bool {
    &&& node.orbit == row.1
    &&& node.orbit_index == row.2
    &&& match node.expansion_jewel {
        Some(jewel) => row.3 >= 0 && jewel.size == row.3 && jewel.index == row.4 && jewel.proxy@
            == decimal(row.5 as int),
        None => row.3 < 0,
    }
}

/// Whether a table of nodes holds exactly what the first `n` rows say, a
/// later row of the same node replacing an earlier one.
pub open spec fn nodes_match(nodes: Map<i32, Node>, rows: Seq<NodeRow>, n: int) -> bool {
    forall|id: i32|
        match last_match(rows.take(n), row_of(id)) {
            Some(t) => (#[trigger] nodes.contains_key(id)) && node_matches(nodes[id], rows[t]),
            None => !nodes.contains_key(id),
        }
}

/// The tables that the resolution of cluster jewels reads, as plain values.
pub struct Tables {
    pub layouts: Seq<JewelLayout>,
    pub nodes: Map<i32, Node>,
    pub skills_per_orbit: Seq<i32>,
}

/// The tables that the resolution of cluster jewels reads.
#[derive(Debug)]
pub struct Supporter {
    jewels_meta: Vec<JewelMeta>,
    tree_meta: TreeMeta,
}

impl Supporter {
    /// The layouts of the jewel sizes, by size.
    pub closed spec fn layouts(&self) -> Seq<JewelLayout> {
        Seq::new(self.jewels_meta.len() as nat, |i: int| self.jewels_meta[i]@)
    }

    /// The nodes of the tree.
    pub closed spec fn nodes(&self) -> Map<i32, Node> {
        self.tree_meta.nodes@
    }

    /// How many positions each orbit has.
    pub closed spec fn skills_per_orbit(&self) -> Seq<i32> {
        self.tree_meta.constants.skills_per_orbit@
    }

    /// All tables together.
    pub open spec fn tables(&self) -> Tables {
        Tables {
            layouts: self.layouts(),
            nodes: self.nodes(),
            skills_per_orbit: self.skills_per_orbit(),
        }
    }

    /// The tables of the game: the three jewel layouts, the socket and proxy
    /// nodes of the tree, and the sizes of its orbits.
    pub fn new() -> (s: Supporter)
        ensures
            s.layouts().len() == 3,
            forall|size: int| 0 <= size < 3 ==> #[trigger] s.layouts()[size] == standard_layout(size),
            nodes_match(s.nodes(), TREE_NODES@, 84),
            s.skills_per_orbit() == SKILLS_PER_ORBIT@,
    {
        broadcast use vstd::std_specs::hash::group_hash_axioms;

        let mut jewels_meta: Vec<JewelMeta> = Vec::new();
        jewels_meta.push(
            JewelMeta {
                size_index: 0,
                notable_indicies: vec![4],
                socket_indicies: vec![4],
                small_indicies: vec![0, 4, 2],
                total_indicies: 6,
            },
        );
        jewels_meta.push(
            JewelMeta {
                size_index: 1,
                notable_indicies: vec![6, 10, 2, 0],
                socket_indicies: vec![6],
                small_indicies: vec![0, 6, 8, 4, 10, 2],
                total_indicies: 12,
            },
        );
        jewels_meta.push(
            JewelMeta {
                size_index: 2,
                notable_indicies: vec![6, 4, 8, 10, 2],
                socket_indicies: vec![4, 8, 6],
                small_indicies: vec![0, 4, 6, 8, 10, 2, 7, 5, 9, 3, 11, 1],
                total_indicies: 12,
            },
        );
        let mut nodes: HashMap<i32, Node> = HashMap::new();
        let mut i: usize = 0;
        assert(TREE_NODES@.take(0) == Seq::<NodeRow>::empty());
        while i < 84
            invariant
                i <= 84,
                nodes_match(nodes@, TREE_NODES@, i as int),
            decreases 84 - i,
        {
            let row = TREE_NODES[i];
            let expansion_jewel = if row.3 >= 0 {
                Some(ExpansionJewel { size: row.3, index: row.4, proxy: decimal_string(row.5 as i64) })
            } else {
                None
            };
            let node = Node { expansion_jewel, orbit: row.1, orbit_index: row.2 };
            let ghost before = nodes@;
            nodes.insert(row.0, node);
            proof {
                let rows = TREE_NODES@;
                assert(rows.take(i + 1).drop_last() == rows.take(i as int));
                assert(rows.take(i + 1).last() == rows[i as int]);
                assert forall|id: i32|
                    match last_match(rows.take(i + 1), row_of(id)) {
                        Some(t) => (#[trigger] nodes@.contains_key(id)) && node_matches(
                            nodes@[id],
                            rows[t],
                        ),
                        None => !nodes@.contains_key(id),
                    } by {
                    if id != row.0 {
                        assert(before.contains_key(id) == nodes@.contains_key(id));
                    }
                }
            }
            i += 1;
        }
        let mut skills_per_orbit: Vec<i32> = Vec::new();
        let mut k: usize = 0;
        while k < 7
            invariant
                k <= 7,
                skills_per_orbit@ == SKILLS_PER_ORBIT@.take(k as int),
            decreases 7 - k,
        {
            skills_per_orbit.push(SKILLS_PER_ORBIT[k]);
            k += 1;
        }
        assert(SKILLS_PER_ORBIT@.take(7) == SKILLS_PER_ORBIT@);
        let s = Supporter { jewels_meta, tree_meta: TreeMeta { nodes, constants: Constants { skills_per_orbit } } };
        proof {
            let l0 = s.layouts()[0];
            let l1 = s.layouts()[1];
            let l2 = s.layouts()[2];
            assert(l0.notables =~= standard_layout(0).notables);
            assert(l0.sockets =~= standard_layout(0).sockets);
            assert(l0.smalls =~= standard_layout(0).smalls);
            assert(l1.notables =~= standard_layout(1).notables);
            assert(l1.sockets =~= standard_layout(1).sockets);
            assert(l1.smalls =~= standard_layout(1).smalls);
            assert(l2.notables =~= standard_layout(2).notables);
            assert(l2.sockets =~= standard_layout(2).sockets);
            assert(l2.smalls =~= standard_layout(2).smalls);
        }
        s
    }

    /// The layout of a jewel size.
    pub fn get_jewel_meta(&self, size: usize) -> (meta: &JewelMeta)
        requires
            size < self.layouts().len(),
        ensures
            meta@ == self.layouts()[size as int],
    {
        &self.jewels_meta[size]
    }

    /// The nodes and constants of the tree.
    pub fn tree_meta(&self) -> (meta: &TreeMeta)
        ensures
            meta.nodes@ == self.nodes(),
            meta.constants.skills_per_orbit@ == self.skills_per_orbit(),
    {
        &self.tree_meta
    }

    /// How many jewel sizes have a layout.
    pub fn jewel_sizes(&self) -> (n: usize)
        ensures
            n == self.layouts().len(),
    {
        self.jewels_meta.len()
    }
}

/// The building tool's name of each inventory slot that it names otherwise
/// than the game: the game's name, then the tool's.
pub const SLOT_NAMES: [(&'static str, &'static str); 12] = [
    ("Amulet", "Amulet"),
    ("Belt", "Belt"),
    ("BodyArmour", "Body Armour"),
    ("Boots", "Boots"),
    ("Gloves", "Gloves"),
    ("Helm", "Helmet"),
    ("Offhand", "Weapon 2"),
    ("Offhand2", "Weapon 2 Swap"),
    ("Ring", "Ring 1"),
    ("Ring2", "Ring 2"),
    ("Weapon", "Weapon 1"),
    ("Weapon2", "Weapon 1 Swap"),
];

/// The condition that a pair of names begins with `name`.
pub open spec fn names_slot(name: Seq<char>) -> spec_fn((&'static str, &'static str)) -> bool {
    |entry: (&'static str, &'static str)| entry.0@ == name
}

/// The tool's name of a slot: a flask is numbered from 1 by its position, a
/// slot of the table has the name given there, and any other keeps its own.
pub open spec fn slot_name(inventory_id: Seq<char>, x: int) -> Seq<char> {
    if inventory_id == "Flask"@ {
        "Flask "@ + decimal(x + 1)
    } else {
        match first_match(SLOT_NAMES@, names_slot(inventory_id)) {
            Some(i) => SLOT_NAMES[i].1@,
            None => inventory_id,
        }
    }
}

/// The name under which the building tool knows an inventory slot.
pub fn get_slot_name(inventory_id: &str, x: i32) -> (name: String)
    ensures
        name@ == slot_name(inventory_id@, x as int),
{
    if str_eq(inventory_id, "Flask") {
        let mut name = "Flask ".to_owned();
        push_decimal(&mut name, x as i64 + 1);
        return name;
    }
    let mut i: usize = 0;
    while i < 12
        invariant
            i <= 12,
            inventory_id@ != "Flask"@,
            forall|j: int| 0 <= j < i ==> !names_slot(inventory_id@)(#[trigger] SLOT_NAMES@[j]),
        decreases 12 - i,
    {
        if str_eq(SLOT_NAMES[i].0, inventory_id) {
            proof {
                lemma_first_match_is(SLOT_NAMES@, names_slot(inventory_id@), i as int);
            }
            return SLOT_NAMES[i].1.to_owned();
        }
        i += 1;
    }
    proof {
        lemma_no_match(SLOT_NAMES@, names_slot(inventory_id@));
    }
    inventory_id.to_owned()
}

} // verus!
