//! From a character to a build: the nodes that cluster jewels enable, the
//! encoded tree and the build document.

pub mod cluster;
pub mod encoding;
pub mod support;
pub mod xml;

use crate::model::items::{Item, Items};
use crate::model::passive_skills::{
    group_entries, group_named, group_of, jewel_at, jewel_count, jewel_entries, node_count,
    node_entries, ExpansionJewel, JewelData, PassiveSkills, SubGraph,
};
use crate::model::passive_skills::{
    effect_at, effect_count, effect_entries, override_at, override_count, override_entries,
    MasteryEffects, SkillOverride,
};
use crate::search::{all_matches, last_match, lemma_all_matches_step, lemma_last_match};
use xml::path_of_building::PathOfBuilding;
use crate::text::{decimal, parse_i32, parsed_i32, push_decimal, str_eq};
use cluster::{
    ascending, can_translate_oidx, census, collect_enabled, collected, find_places, fits_i32,
    index_nodes, index_places, indexed, make_slot_nodes, members_of, notable_count,
    oidx_translatable, pick_slots, picked, place_sockets, placed, placements, read_members,
    register_sockets, registered, slot_nodes, small_count, socket_skills, socket_slots, sorted,
    translate_oidx, translated_oidx, ClusterJewelNode, Member, ResolveError, SlotRule,
};
use encoding::{encode_tree, to_url_safe_base64, tree_bytes, url_safe_base64};
use std::collections::{HashMap, HashSet};
use support::{
    class_ids, get_class_id,
    cluster_jewel_size, jewel_size_of, node_id_of_expansion_slot, JewelLayout, JewelMeta,
    Supporter, Tables, EXPANSION_SLOT_NODE_IDS,
};
use vstd::prelude::*;

verus! {

/// What a build leaves out.
#[derive(Debug)]
pub struct Options {
    /// Whether the second weapon set is left out.
    pub skip_weapon2: bool,
}

impl Default for Options {
    fn default() -> (r: Self)
        ensures
            r.skip_weapon2,
    {
        Self { skip_weapon2: true }
    }
}

/// A socketed cluster jewel: the position of its socket, where its item
/// stands among the items of the passive skills, where its data stands
/// among the jewel data, and its size.
#[derive(Debug, Clone, Copy, PartialEq, Eq, Structural)]
pub struct Jewel {
    pub seq_num: i32,
    pub item: usize,
    pub data: usize,
    pub size: usize,
}

/// The condition that an item sits at the position `seq_num`.
pub open spec fn sits_at(seq_num: i32) -> spec_fn(Item) -> bool {
    |item: Item| item.x == Some(seq_num)
}

/// Whether every item says where it sits and every cluster jewel among the
/// first `n` jewels has its item.
pub open spec fn jewels_complete(entries: Seq<(i32, JewelData)>, items: Seq<Item>, n: int) -> bool {
    &&& forall|t: int| 0 <= t < items.len() ==> (#[trigger] items[t]).x is Some
    &&& forall|i: int|
        0 <= i < n && jewel_size_of((#[trigger] entries[i]).1.type_v@) >= 0 ==> last_match(
            items,
            sits_at(entries[i].0),
        ) is Some
}

/// The cluster jewels among the first `n` jewels, in their order, each with
/// the last item that sits at its position.
pub open spec fn cluster_jewels(entries: Seq<(i32, JewelData)>, items: Seq<Item>, n: int) -> Seq<
    Jewel,
>
    decreases n,
{
    if n <= 0 {
        seq![]
    } else if jewel_size_of(entries[n - 1].1.type_v@) >= 0 {
        cluster_jewels(entries, items, n - 1).push(
            Jewel {
                seq_num: entries[n - 1].0,
                item: last_match(items, sits_at(entries[n - 1].0))->0 as usize,
                data: (n - 1) as usize,
                size: jewel_size_of(entries[n - 1].1.type_v@) as usize,
            },
        )
    } else {
        cluster_jewels(entries, items, n - 1)
    }
}

/// The jewels of one size, in their order.
pub open spec fn of_size(jewels: Seq<Jewel>, size: usize) -> Seq<Jewel>
    decreases jewels.len(),
{
    if jewels.len() == 0 {
        seq![]
    } else if jewels.last().size == size {
        of_size(jewels.drop_last(), size).push(jewels.last())
    } else {
        of_size(jewels.drop_last(), size)
    }
}

/// The jewels with the large ones first, then the medium ones, then the
/// small ones, each size in its order.
pub open spec fn largest_first(jewels: Seq<Jewel>) -> Seq<Jewel> {
    of_size(jewels, 2) + of_size(jewels, 1) + of_size(jewels, 0)
}

fn push_of_size(out: &mut Vec<Jewel>, jewels: &Vec<Jewel>, size: usize)
    ensures
        final(out)@ == old(out)@ + of_size(jewels@, size),
{
    let mut i: usize = 0;
    assert(jewels@.take(0) =~= Seq::<Jewel>::empty());
    while i < jewels.len()
        invariant
            i <= jewels.len(),
            out@ == old(out)@ + of_size(jewels@.take(i as int), size),
        decreases jewels.len() - i,
    {
        proof {
            assert(jewels@.take(i + 1).drop_last() =~= jewels@.take(i as int));
            assert(jewels@.take(i + 1).last() == jewels@[i as int]);
        }
        if jewels[i].size == size {
            out.push(jewels[i]);
        }
        i += 1;
    }
    assert(jewels@.take(jewels.len() as int) =~= jewels@);
}

/// The socketed cluster jewels, large before medium before small: a larger
/// jewel brings the sockets that a smaller one may sit in.
pub fn get_sorted_cluster_jewels(jewel_data: &indexmap::IndexMap<i32, JewelData>, items: &Vec<Item>) -> (r:
    Result<Vec<Jewel>, ResolveError>)
    ensures
        match r {
            Ok(jewels) => {
                &&& jewels_complete(
                    jewel_entries(*jewel_data),
                    items@,
                    jewel_entries(*jewel_data).len() as int,
                )
                &&& jewels@ == largest_first(
                    cluster_jewels(
                        jewel_entries(*jewel_data),
                        items@,
                        jewel_entries(*jewel_data).len() as int,
                    ),
                )
                &&& forall|t: int|
                    0 <= t < jewels.len() ==> (#[trigger] jewels@[t]).item < items.len()
                        && jewels@[t].data < jewel_entries(*jewel_data).len() && jewels@[t].size
                        < 3
            },
            Err(e) => e == ResolveError::MissingData && !jewels_complete(
                jewel_entries(*jewel_data),
                items@,
                jewel_entries(*jewel_data).len() as int,
            ),
        },
{
    broadcast use vstd::std_specs::hash::group_hash_axioms;

    let ghost entries = jewel_entries(*jewel_data);
    let mut item_idx: HashMap<i32, usize> = HashMap::new();
    let mut t: usize = 0;
    assert(items@.take(0) =~= Seq::<Item>::empty());
    while t < items.len()
        invariant
            t <= items.len(),
            forall|u: int| 0 <= u < t ==> (#[trigger] items@[u]).x is Some,
            forall|k: i32|
                match last_match(items@.take(t as int), sits_at(k)) {
                    Some(u) => (#[trigger] item_idx@.contains_key(k)) && item_idx@[k] == u,
                    None => !item_idx@.contains_key(k),
                },
        decreases items.len() - t,
    {
        let x = match items[t].x {
            Some(x) => x,
            None => {
                return Err(ResolveError::MissingData);
            },
        };
        let ghost before = item_idx@;
        item_idx.insert(x, t);
        proof {
            assert(items@.take(t + 1).drop_last() =~= items@.take(t as int));
            assert(items@.take(t + 1).last() == items@[t as int]);
            assert forall|k: i32|
                match last_match(items@.take(t + 1), sits_at(k)) {
                    Some(u) => (#[trigger] item_idx@.contains_key(k)) && item_idx@[k] == u,
                    None => !item_idx@.contains_key(k),
                } by {
                if k != x {
                    assert(before.contains_key(k) == item_idx@.contains_key(k));
                }
            }
        }
        t += 1;
    }
    assert(items@.take(items.len() as int) =~= items@);
    let n = jewel_count(jewel_data);
    let mut jewels: Vec<Jewel> = Vec::new();
    let mut i: usize = 0;
    while i < n
        invariant
            i <= n,
            n == entries.len(),
            entries == jewel_entries(*jewel_data),
            jewels_complete(entries, items@, i as int),
            jewels@ == cluster_jewels(entries, items@, i as int),
            forall|k: i32|
                match last_match(items@, sits_at(k)) {
                    Some(u) => (#[trigger] item_idx@.contains_key(k)) && item_idx@[k] == u,
                    None => !item_idx@.contains_key(k),
                },
            forall|t: int|
                0 <= t < jewels.len() ==> (#[trigger] jewels@[t]).item < items.len() && jewels@[t].data
                    < entries.len() && jewels@[t].size < 3,
        decreases n - i,
    {
        let (seq_num, data) = jewel_at(jewel_data, i);
        let size = cluster_jewel_size(data.type_v.as_str());
        if size >= 0 {
            match item_idx.get(&seq_num) {
                Some(item) => {
                    proof {
                        lemma_last_match(items@, sits_at(seq_num));
                    }
                    jewels.push(Jewel { seq_num, item: *item, data: i, size: size as usize });
                },
                None => {
                    assert(item_idx@.contains_key(seq_num) || last_match(items@, sits_at(seq_num)) is None);
                    return Err(ResolveError::MissingData);
                },
            }
        }
        i += 1;
    }
    let mut out: Vec<Jewel> = Vec::new();
    push_of_size(&mut out, &jewels, 2);
    push_of_size(&mut out, &jewels, 1);
    push_of_size(&mut out, &jewels, 0);
    proof {
        lemma_of_size(jewels@, 2);
        lemma_of_size(jewels@, 1);
        lemma_of_size(jewels@, 0);
    }
    Ok(out)
}

/// Every jewel of one size is one of the jewels.
proof fn lemma_of_size(jewels: Seq<Jewel>, size: usize)
    ensures
        forall|t: int|
            0 <= t < of_size(jewels, size).len() ==> jewels.contains(
                #[trigger] of_size(jewels, size)[t],
            ),
    decreases jewels.len(),
{
    if jewels.len() > 0 {
        let rest = jewels.drop_last();
        lemma_of_size(rest, size);
        assert forall|t: int| 0 <= t < of_size(jewels, size).len() implies jewels.contains(
            #[trigger] of_size(jewels, size)[t],
        ) by {
            if t < of_size(rest, size).len() {
                let j = of_size(rest, size)[t];
                assert(rest.contains(j));
                let k = choose|k: int| 0 <= k < rest.len() && rest[k] == j;
                assert(jewels[k] == j);
            } else {
                assert(jewels[jewels.len() - 1] == jewels.last());
            }
        }
    }
}

/// The name of the group that the jewel at a position adds.
pub open spec fn expansion_name(seq_num: i32) -> Seq<char> {
    "expansion_"@ + decimal(seq_num as int)
}

/// The name of the group that the jewel at a position adds.
pub fn expansion_key(seq_num: i32) -> (name: String)
    ensures
        name@ == expansion_name(seq_num),
{
    let mut name = "expansion_".to_owned();
    push_decimal(&mut name, seq_num as i64);
    name
}

/// What still awaits a cluster jewel: allocated nodes of cluster jewels
/// that no jewel has claimed, and the sockets that larger jewels offer, by
/// proxy node, each with the first id of its jewel and with what it takes.
pub struct Awaiting {
    pub nodes: Set<i32>,
    pub sockets: Map<i32, (i32, ExpansionJewel)>,
}

/// What one jewel contributes: the tree nodes it enables, the nodes it
/// probably enables, and what awaits a jewel after it.
pub struct JewelOutcome {
    pub enabled: Seq<i32>,
    pub probable: Seq<i32>,
    pub awaiting: Awaiting,
}

/// The first id of a jewel and the first id of its notables and small
/// passives. A jewel in the tree itself starts at 0x10000, one in a socket
/// of a larger jewel at that jewel's first id; the socket's index counts 64
/// in a large socket and 512 in a medium one, and the size index counts 16.
/// `None` where an id does not fit an `i32`.
pub open spec fn first_ids(id: Option<i32>, anchor: ExpansionJewel, size_index: int) -> Option<
    (i32, i32),
> {
    let start = match id {
        Some(i) => i as int,
        None => 0x10000,
    };
    let base = if anchor.size == 2 {
        start + anchor.index * 64
    } else if anchor.size == 1 {
        start + anchor.index * 512
    } else {
        start
    };
    if fits_i32(base) && fits_i32(base + size_index * 16) {
        Some((base as i32, (base + size_index * 16) as i32))
    } else {
        None
    }
}

/// The first id of a jewel and the first id of its notables and small
/// passives.
pub fn first_ids_of(id: Option<i32>, anchor: &ExpansionJewel, size_index: i32) -> (r: Option<
    (i32, i32),
>)
    ensures
        r == first_ids(id, *anchor, size_index as int),
{
    let start: i64 = match id {
        Some(i) => i as i64,
        None => 0x10000,
    };
    let base: i64 = if anchor.size == 2 {
        start + anchor.index as i64 * 64
    } else if anchor.size == 1 {
        start + anchor.index as i64 * 512
    } else {
        start
    };
    let first: i64 = base + size_index as i64 * 16;
    if base < -0x8000_0000 || base > 0x7fff_ffff || first < -0x8000_0000 || first > 0x7fff_ffff {
        None
    } else {
        Some((base as i32, first as i32))
    }
}

/// The nodes of a jewel, each with the position it takes on the jewel's
/// ring, and the table from position to tree node.
pub struct Slots {
    pub nodes: Seq<ClusterJewelNode>,
    pub index: Map<i32, i32>,
}

/// The rule by which the notables of a jewel are placed.
pub open spec fn notable_rule(size: int, members: Seq<Member>) -> SlotRule {
    SlotRule {
        medium: size == 1,
        for_smalls: false,
        sockets: socket_skills(members).len() as usize,
        notables: notable_count(members) as usize,
        count: (notable_count(members) + socket_skills(members).len() + small_count(
            members,
        )) as usize,
    }
}

/// The rule by which the small passives of a jewel are placed.
pub open spec fn small_rule(size: int, members: Seq<Member>) -> SlotRule {
    SlotRule {
        medium: size == 1,
        for_smalls: true,
        sockets: socket_skills(members).len() as usize,
        notables: notable_count(members) as usize,
        count: (notable_count(members) + socket_skills(members).len() + small_count(
            members,
        )) as usize,
    }
}

/// The positions that the nodes of a jewel take on its ring. The sockets
/// come first. The notables take, in ascending order, as many free notable
/// positions of the layout as there are notables; the small passives then
/// take free small positions in the layout's order. Missing data where the
/// layout has too few socket positions, malformed where an id does not fit.
pub open spec fn jewel_slots(
    size: int,
    layout: JewelLayout,
    first_id: int,
    members: Seq<Member>,
) -> Result<Slots, ResolveError> {
    match socket_slots(size, layout.sockets, socket_skills(members)) {
        None => Err(ResolveError::MissingData),
        Some(socket_nodes) => {
            let index0 = indexed(Map::empty(), socket_nodes);
            let notable_picks = ascending(
                picked(
                    layout.notables,
                    notable_rule(size, members),
                    index0.dom(),
                    notable_count(members) as int,
                ),
            );
            match slot_nodes(first_id, notable_picks) {
                None => Err(ResolveError::Malformed),
                Some(notable_nodes) => {
                    let index1 = indexed(index0, notable_nodes);
                    let small_picks = picked(
                        layout.smalls,
                        small_rule(size, members),
                        index1.dom(),
                        small_count(members) as int,
                    );
                    match slot_nodes(first_id, small_picks) {
                        None => Err(ResolveError::Malformed),
                        Some(small_nodes) => Ok(
                            Slots {
                                nodes: socket_nodes + notable_nodes + small_nodes,
                                index: indexed(index1, small_nodes),
                            },
                        ),
                    }
                },
            }
        },
    }
}

/// Gives the nodes of a jewel their positions on its ring.
pub fn build_slots(size: usize, layout: &JewelMeta, first_id: i32, members: &Vec<Member>) -> (r:
    Result<(Vec<ClusterJewelNode>, HashMap<i32, i32>), ResolveError>)
    ensures
        match r {
            Ok((nodes, index)) => jewel_slots(size as int, layout@, first_id as int, members@)
                matches Ok(slots) && slots.nodes == nodes@ && slots.index == index@,
            Err(e) => jewel_slots(size as int, layout@, first_id as int, members@) == Err::<
                Slots,
                ResolveError,
            >(e),
        },
{
    let (notables, smalls, skills) = census(members);
    let count = notables + smalls + skills.len();
    let mut nodes = match place_sockets(size, &layout.socket_indicies, &skills) {
        Some(nodes) => nodes,
        None => {
            return Err(ResolveError::MissingData);
        },
    };
    let mut index: HashMap<i32, i32> = HashMap::new();
    index_nodes(&mut index, &nodes);
    let ghost socket_nodes = nodes@;
    let rule = SlotRule {
        medium: size == 1,
        for_smalls: false,
        sockets: skills.len(),
        notables,
        count,
    };
    assert(rule == notable_rule(size as int, members@));
    let picks = sorted(&pick_slots(&layout.notable_indicies, &rule, &index, notables));
    let mut notable_nodes = match make_slot_nodes(first_id, &picks) {
        Some(nodes) => nodes,
        None => {
            return Err(ResolveError::Malformed);
        },
    };
    index_nodes(&mut index, &notable_nodes);
    let ghost notable_seq = notable_nodes@;
    let rule = SlotRule { medium: size == 1, for_smalls: true, sockets: skills.len(), notables, count };
    assert(rule == small_rule(size as int, members@));
    let picks = pick_slots(&layout.small_indicies, &rule, &index, smalls);
    let mut small_nodes = match make_slot_nodes(first_id, &picks) {
        Some(nodes) => nodes,
        None => {
            return Err(ResolveError::Malformed);
        },
    };
    index_nodes(&mut index, &small_nodes);
    let ghost small_seq = small_nodes@;
    nodes.append(&mut notable_nodes);
    nodes.append(&mut small_nodes);
    assert(nodes@ == socket_nodes + notable_seq + small_seq);
    Ok((nodes, index))
}

/// The table from position on the ring of the tree to tree node, once the
/// nodes of a jewel are also entered where they lie around the jewel's
/// proxy node. Malformed where the proxy is no number or a position has no
/// place; missing data where the tree does not know the proxy node or its
/// orbit.
pub open spec fn on_tree(tables: Tables, anchor: ExpansionJewel, total: int, slots: Slots) -> Result<
    Map<i32, i32>,
    ResolveError,
> {
    match parsed_i32(anchor.proxy@) {
        None => Err(ResolveError::Malformed),
        Some(proxy) => if !tables.nodes.contains_key(proxy) {
            Err(ResolveError::MissingData)
        } else if !(0 <= tables.nodes[proxy].orbit < tables.skills_per_orbit.len()) {
            Err(ResolveError::MissingData)
        } else if slots.nodes.len() == 0 {
            Ok(slots.index)
        } else {
            let per_orbit = tables.skills_per_orbit[tables.nodes[proxy].orbit as int] as int;
            let turn = tables.nodes[proxy].orbit_index as int;
            if !oidx_translatable(turn, per_orbit, total) {
                Err(ResolveError::Malformed)
            } else {
                match placements(slots.nodes, translated_oidx(turn, per_orbit, total), total, per_orbit) {
                    None => Err(ResolveError::Malformed),
                    Some(places) => Ok(
                        placed(slots.index, slots.nodes, places, slots.nodes.len() as int),
                    ),
                }
            }
        },
    }
}

/// What a cluster jewel contributes. A unique jewel whose subgraph names no
/// node probably enables the first of its own nodes and nothing else. Any
/// other jewel enables, of the nodes that await a jewel, those of its group
/// that lie at a position of the table, and offers its sockets to smaller
/// jewels.
#[verifier::opaque]
pub open spec fn jewel_outcome(
    tables: Tables,
    size: int,
    seq_num: i32,
    rarity: Option<String>,
    subgraph: Option<SubGraph>,
    anchor: ExpansionJewel,
    id: Option<i32>,
    awaiting: Awaiting,
) -> Result<JewelOutcome, ResolveError> {
    if !(0 <= size < tables.layouts.len()) {
        Err(ResolveError::MissingData)
    } else {
        match first_ids(id, anchor, tables.layouts[size].size_index) {
            None => Err(ResolveError::Malformed),
            Some(ids) => match subgraph {
                None => Err(ResolveError::MissingData),
                Some(graph) => match group_of(group_entries(graph.groups), expansion_name(seq_num)) {
                    None => Err(ResolveError::MissingData),
                    Some(group) => if group.nodes.len() == 0 && node_entries(graph.nodes).len()
                        == 0 && rarity is None {
                        Err(ResolveError::MissingData)
                    } else if group.nodes.len() == 0 && node_entries(graph.nodes).len() == 0
                        && rarity->0@ == "Unique"@ {
                        Ok(JewelOutcome { enabled: seq![], probable: seq![ids.1], awaiting })
                    } else {
                        match members_of(node_entries(graph.nodes), group.nodes.deep_view()) {
                            Err(e) => Err(e),
                            Ok(members) => match jewel_slots(
                                size,
                                tables.layouts[size],
                                ids.1 as int,
                                members,
                            ) {
                                Err(e) => Err(e),
                                Ok(slots) => match on_tree(
                                    tables,
                                    anchor,
                                    tables.layouts[size].total,
                                    slots,
                                ) {
                                    Err(e) => Err(e),
                                    Ok(index) => Ok(
                                        JewelOutcome {
                                            enabled: collected(members, index, awaiting.nodes).0,
                                            probable: seq![],
                                            awaiting: Awaiting {
                                                nodes: collected(members, index, awaiting.nodes).1,
                                                sockets: registered(
                                                    awaiting.sockets,
                                                    members,
                                                    ids.0,
                                                ),
                                            },
                                        },
                                    ),
                                },
                            },
                        }
                    },
                },
            },
        }
    }
}

/// The socket that a jewel sits in: the first id of the larger jewel that
/// offers it, if one does, and what the socket takes. A medium or small
/// jewel sits in the socket that awaits it under the proxy node of its
/// group; any other jewel sits in the socket of the tree at its position.
#[verifier::opaque]
pub open spec fn anchor_of(
    tables: Tables,
    sockets: Map<i32, (i32, ExpansionJewel)>,
    size: int,
    seq_num: i32,
    subgraph: Option<SubGraph>,
) -> Result<(Option<i32>, ExpansionJewel), ResolveError> {
    let offered: Result<Option<(i32, ExpansionJewel)>, ResolveError> = if size == 1 || size == 0 {
        match subgraph {
            None => Err(ResolveError::MissingData),
            Some(graph) => match group_of(group_entries(graph.groups), expansion_name(seq_num)) {
                None => Err(ResolveError::MissingData),
                Some(group) => match parsed_i32(group.proxy@) {
                    None => Err(ResolveError::Malformed),
                    Some(proxy) => if sockets.contains_key(proxy) {
                        Ok(Some(sockets[proxy]))
                    } else {
                        Ok(None)
                    },
                },
            },
        }
    } else {
        Ok(None)
    };
    match offered {
        Err(e) => Err(e),
        Ok(Some(socket)) => Ok((Some(socket.0), socket.1)),
        Ok(None) => if !(0 <= seq_num < 60) {
            Err(ResolveError::MissingData)
        } else if !tables.nodes.contains_key(EXPANSION_SLOT_NODE_IDS[seq_num as int]) {
            Err(ResolveError::MissingData)
        } else {
            match tables.nodes[EXPANSION_SLOT_NODE_IDS[seq_num as int]].expansion_jewel {
                None => Err(ResolveError::MissingData),
                Some(jewel) => Ok((None, jewel)),
            }
        },
    }
}

/// How far the resolution has come: what awaits a jewel, and the nodes
/// that the jewels so far enable and probably enable.
pub struct Progress {
    pub awaiting: Awaiting,
    pub enabled: Seq<i32>,
    pub probable: Seq<i32>,
}

/// Makes the build of a character: resolves the nodes of its cluster
/// jewels, encodes its tree and lays out its items.
#[derive(Debug)]
pub struct Transformer {
    supporter: Supporter,
    items: Items,
    skills: PassiveSkills,
    options: Options,
}

impl Transformer {
    /// The tables that the transformer reads.
    pub closed spec fn tables(&self) -> Tables {
        self.supporter.tables()
    }

    /// The items of the character.
    pub closed spec fn items(&self) -> Items {
        self.items
    }

    /// The passive skills of the character.
    pub closed spec fn skills(&self) -> PassiveSkills {
        self.skills
    }

    /// What the build leaves out.
    pub closed spec fn options(&self) -> Options {
        self.options
    }

    /// A transformer for a character, with the tables of the game.
    pub fn new(items: Items, skills: PassiveSkills, options: Options) -> (t: Transformer)
        ensures
            t.items() == items,
            t.skills() == skills,
            t.options() == options,
            t.tables().layouts.len() == 3,
            forall|size: int|
                0 <= size < 3 ==> #[trigger] t.tables().layouts[size] == support::standard_layout(
                    size,
                ),
            support::nodes_match(t.tables().nodes, support::TREE_NODES@, 84),
            t.tables().skills_per_orbit == support::SKILLS_PER_ORBIT@,
    {
        Transformer { supporter: Supporter::new(), items, skills, options }
    }

    /// What a jewel of the character contributes, for the socket it sits in
    /// and for what awaits a jewel before it. Missing data where the jewel
    /// points at no item or no jewel data of the character.
    pub open spec fn outcome_of(
        &self,
        jewel: Jewel,
        anchor: ExpansionJewel,
        id: Option<i32>,
        awaiting: Awaiting,
    ) -> Result<JewelOutcome, ResolveError> {
        if jewel.item >= self.skills().items.len() || jewel.data >= jewel_entries(
            self.skills().jewel_data,
        ).len() {
            Err(ResolveError::MissingData)
        } else {
            jewel_outcome(
                self.tables(),
                jewel.size as int,
                jewel.seq_num,
                self.skills().items[jewel.item as int].rarity,
                jewel_entries(self.skills().jewel_data)[jewel.data as int].1.subgraph,
                anchor,
                id,
                awaiting,
            )
        }
    }

    /// Whether the tree of the character can be encoded: at most 255 node
    /// hashes and at most 65535 mastery effects, as their counts must fit
    /// one and two bytes.
    pub open spec fn encodable(&self) -> bool {
        self.skills().hashes.len() <= 255 && self.skills().mastery_effects.pairs().len() <= 65535
    }

    /// The ids of the character's class and ascendancy, 0 for a class that
    /// no table knows.
    pub open spec fn class_bytes(&self) -> (u8, u8) {
        match class_ids(self.items().character.class@) {
            Some(ids) => (ids.0 as u8, ids.1 as u8),
            None => (0u8, 0u8),
        }
    }

    /// Whether the tree of the character can be encoded.
    pub fn can_encode_tree(&self) -> (r: bool)
        ensures
            r == self.encodable(),
    {
        self.skills.hashes.len() <= 255 && self.skills.mastery_effects.len() <= 65535
    }

    /// The tree of the character in its compact form: the bytes of its
    /// class, ascendancy, node hashes and mastery effects, as URL-safe
    /// base64.
    pub fn get_encoded_tree(&self) -> (code: String)
        requires
            self.encodable(),
        ensures
            code@ == url_safe_base64(
                tree_bytes(
                    self.class_bytes().0,
                    self.class_bytes().1,
                    self.skills().hashes@,
                    self.skills().mastery_effects.pairs(),
                ),
            ),
    {
        let (class_id, ascendancy_id) = get_class_id(self.items.character.class.as_str());
        let bytes = encode_tree(
            class_id as u8,
            ascendancy_id as u8,
            &self.skills.hashes,
            &self.skills.mastery_effects,
        );
        to_url_safe_base64(&bytes)
    }

    /// The tree of the character in its compact form, or `None` where its
    /// counts do not fit their bytes.
    pub fn try_encoded_tree(&self) -> (code: Option<String>)
        ensures
            match code {
                Some(text) => self.encodable() && text@ == url_safe_base64(
                    tree_bytes(
                        self.class_bytes().0,
                        self.class_bytes().1,
                        self.skills().hashes@,
                        self.skills().mastery_effects.pairs(),
                    ),
                ),
                None => !self.encodable(),
            },
    {
        if self.can_encode_tree() {
            Some(self.get_encoded_tree())
        } else {
            None
        }
    }

    /// The socket that a jewel of the character sits in.
    pub open spec fn anchor_for(&self, jewel: Jewel, sockets: Map<i32, (i32, ExpansionJewel)>) -> Result<
        (Option<i32>, ExpansionJewel),
        ResolveError,
    > {
        if jewel.data >= jewel_entries(self.skills().jewel_data).len() {
            Err(ResolveError::MissingData)
        } else {
            anchor_of(
                self.tables(),
                sockets,
                jewel.size as int,
                jewel.seq_num,
                jewel_entries(self.skills().jewel_data)[jewel.data as int].1.subgraph,
            )
        }
    }

    /// The progress after one more jewel.
    pub open spec fn after_jewel(&self, jewel: Jewel, before: Progress) -> Result<
        Progress,
        ResolveError,
    > {
        match self.anchor_for(jewel, before.awaiting.sockets) {
            Err(e) => Err(e),
            Ok(anchor) => match self.outcome_of(jewel, anchor.1, anchor.0, before.awaiting) {
                Err(e) => Err(e),
                Ok(outcome) => Ok(
                    Progress {
                        awaiting: outcome.awaiting,
                        enabled: before.enabled + outcome.enabled,
                        probable: before.probable + outcome.probable,
                    },
                ),
            },
        }
    }

    /// The progress after the first `n` jewels, or the error of the first
    /// jewel that has one. At the start the nodes that await a jewel are
    /// the character's allocated nodes of cluster jewels.
    pub open spec fn after_jewels(&self, jewels: Seq<Jewel>, n: int) -> Result<
        Progress,
        ResolveError,
    >
        decreases n,
    {
        if n <= 0 {
            Ok(
                Progress {
                    awaiting: Awaiting {
                        nodes: self.skills().hashes_ex@.to_set(),
                        sockets: Map::empty(),
                    },
                    enabled: seq![],
                    probable: seq![],
                },
            )
        } else {
            match self.after_jewels(jewels, n - 1) {
                Err(e) => Err(e),
                Ok(before) => self.after_jewel(jewels[n - 1], before),
            }
        }
    }

    /// The tree nodes that the cluster jewels of the character enable: the
    /// nodes that the jewels enable, taken largest jewel first, and then as
    /// many of the probable nodes as there are nodes left that await a
    /// jewel.
    pub open spec fn enabled_nodes(&self) -> Result<Seq<i32>, ResolveError> {
        let entries = jewel_entries(self.skills().jewel_data);
        let items = self.skills().items@;
        if !jewels_complete(entries, items, entries.len() as int) {
            Err(ResolveError::MissingData)
        } else {
            let jewels = largest_first(cluster_jewels(entries, items, entries.len() as int));
            match self.after_jewels(jewels, jewels.len() as int) {
                Err(e) => Err(e),
                Ok(end) => Ok(
                    end.enabled + end.probable.take(
                        if end.awaiting.nodes.len() <= end.probable.len() {
                            end.awaiting.nodes.len() as int
                        } else {
                            end.probable.len() as int
                        },
                    ),
                ),
            }
        }
    }

    /// The resolution is a function of the tables and the passive skills
    /// alone: two transformers that agree in both make the same progress
    /// through the same jewels, with the same nodes enabled and the same
    /// nodes left that await a jewel.
    pub proof fn lemma_resolution_is_determined(&self, other: &Transformer, jewels: Seq<Jewel>, n: int)
        requires
            self.tables() == other.tables(),
            self.skills() == other.skills(),
        ensures
            self.after_jewels(jewels, n) == other.after_jewels(jewels, n),
            self.enabled_nodes() == other.enabled_nodes(),
    {
        let entries = jewel_entries(self.skills().jewel_data);
        let all = largest_first(
            cluster_jewels(entries, self.skills().items@, entries.len() as int),
        );
        self.lemma_progress_is_determined(other, jewels, n);
        self.lemma_progress_is_determined(other, all, all.len() as int);
    }

    /// Two transformers that agree in tables and passive skills make the
    /// same progress through the same jewels.
    proof fn lemma_progress_is_determined(&self, other: &Transformer, jewels: Seq<Jewel>, n: int)
        requires
            self.tables() == other.tables(),
            self.skills() == other.skills(),
        ensures
            self.after_jewels(jewels, n) == other.after_jewels(jewels, n),
        decreases n,
    {
        if n > 0 {
            self.lemma_progress_is_determined(other, jewels, n - 1);
        }
    }

    /// An error stays the error of every longer run of jewels.
    proof fn lemma_error_stays(&self, jewels: Seq<Jewel>, n: int, m: int)
        requires
            0 <= n <= m,
            self.after_jewels(jewels, n) is Err,
        ensures
            self.after_jewels(jewels, m) == self.after_jewels(jewels, n),
        decreases m - n,
    {
        if n < m {
            self.lemma_error_stays(jewels, n, m - 1);
        }
    }

    fn anchor(&self, jewel: &Jewel, socket_ejs: &HashMap<i32, (i32, ExpansionJewel)>) -> (r: Result<
        (Option<i32>, ExpansionJewel),
        ResolveError,
    >)
        ensures
            r == self.anchor_for(*jewel, socket_ejs@),
    {
        broadcast use vstd::std_specs::hash::group_hash_axioms;

        reveal(anchor_of);
        if jewel.data >= jewel_count(&self.skills.jewel_data) {
            return Err(ResolveError::MissingData);
        }
        if jewel.size == 1 || jewel.size == 0 {
            let (_, data) = jewel_at(&self.skills.jewel_data, jewel.data);
            let graph = match &data.subgraph {
                Some(graph) => graph,
                None => {
                    return Err(ResolveError::MissingData);
                },
            };
            let key = expansion_key(jewel.seq_num);
            let group = match group_named(&graph.groups, key.as_str()) {
                Some(group) => group,
                None => {
                    return Err(ResolveError::MissingData);
                },
            };
            let proxy = match parse_i32(group.proxy.as_str()) {
                Some(proxy) => proxy,
                None => {
                    return Err(ResolveError::Malformed);
                },
            };
            match socket_ejs.get(&proxy) {
                Some(socket) => {
                    return Ok((Some(socket.0), cluster::copy_jewel(&socket.1)));
                },
                None => {},
            }
        }
        if jewel.seq_num < 0 || jewel.seq_num >= 60 {
            return Err(ResolveError::MissingData);
        }
        let slot = node_id_of_expansion_slot(jewel.seq_num as usize);
        match self.supporter.tree_meta().nodes.get(&slot) {
            None => Err(ResolveError::MissingData),
            Some(node) => match &node.expansion_jewel {
                None => Err(ResolveError::MissingData),
                Some(jewel) => Ok((None, cluster::copy_jewel(jewel))),
            },
        }
    }

    /// Resolves the cluster jewels of the character: returns the tree nodes
    /// that they enable, or the error of the first jewel that cannot be
    /// resolved.
    pub fn get_enabled_node_ids_of_jewels(&self) -> (r: Result<Vec<i32>, ResolveError>)
        ensures
            match r {
                Ok(nodes) => self.enabled_nodes() == Ok::<Seq<i32>, ResolveError>(nodes@),
                Err(e) => self.enabled_nodes() == Err::<Seq<i32>, ResolveError>(e),
            },
    {
        broadcast use vstd::std_specs::hash::group_hash_axioms;

        let jewels = match get_sorted_cluster_jewels(&self.skills.jewel_data, &self.skills.items) {
            Ok(jewels) => jewels,
            Err(e) => {
                return Err(e);
            },
        };
        let mut hash_ex_set: HashSet<i32> = HashSet::new();
        let mut t: usize = 0;
        assert(self.skills.hashes_ex@.take(0) =~= Seq::<i32>::empty());
        assert(Seq::<i32>::empty().to_set() =~= Set::<i32>::empty());
        while t < self.skills.hashes_ex.len()
            invariant
                t <= self.skills.hashes_ex.len(),
                hash_ex_set@ == self.skills.hashes_ex@.take(t as int).to_set(),
            decreases self.skills.hashes_ex.len() - t,
        {
            proof {
                let all = self.skills.hashes_ex@;
                all.take(t as int).lemma_push_to_set_commute(all[t as int]);
                assert(all.take(t + 1) =~= all.take(t as int).push(all[t as int]));
            }
            hash_ex_set.insert(self.skills.hashes_ex[t]);
            t += 1;
        }
        assert(self.skills.hashes_ex@.take(self.skills.hashes_ex.len() as int)
            =~= self.skills.hashes_ex@);
        let mut socket_ejs: HashMap<i32, (i32, ExpansionJewel)> = HashMap::new();
        let mut enabled: Vec<i32> = Vec::new();
        let mut probable: Vec<i32> = Vec::new();
        let mut i: usize = 0;
        while i < jewels.len()
            invariant
                i <= jewels.len(),
                jewels_complete(
                    jewel_entries(self.skills().jewel_data),
                    self.skills().items@,
                    jewel_entries(self.skills().jewel_data).len() as int,
                ),
                jewels@ == largest_first(
                    cluster_jewels(
                        jewel_entries(self.skills().jewel_data),
                        self.skills().items@,
                        jewel_entries(self.skills().jewel_data).len() as int,
                    ),
                ),
                self.after_jewels(jewels@, i as int) matches Ok(now) && now.enabled == enabled@
                    && now.probable == probable@ && now.awaiting.nodes == hash_ex_set@
                    && now.awaiting.sockets == socket_ejs@,
            decreases jewels.len() - i,
        {
            let ghost before = self.after_jewels(jewels@, i as int)->Ok_0;
            assert(before.awaiting == Awaiting { nodes: hash_ex_set@, sockets: socket_ejs@ });
            let (id, anchor) = match self.anchor(&jewels[i], &socket_ejs) {
                Ok(anchor) => anchor,
                Err(e) => {
                    proof {
                        self.lemma_error_stays(jewels@, i + 1, jewels.len() as int);
                    }
                    return Err(e);
                },
            };
            match self.get_enabled_node_ids_of_jewel(
                &mut hash_ex_set,
                &jewels[i],
                &anchor,
                id,
                &mut socket_ejs,
            ) {
                Ok((mut more, mut maybe)) => {
                    enabled.append(&mut more);
                    probable.append(&mut maybe);
                },
                Err(e) => {
                    proof {
                        self.lemma_error_stays(jewels@, i + 1, jewels.len() as int);
                    }
                    return Err(e);
                },
            }
            i += 1;
        }
        let n = if hash_ex_set.len() <= probable.len() {
            hash_ex_set.len()
        } else {
            probable.len()
        };
        let ghost resolved = enabled@;
        let mut k: usize = 0;
        while k < n
            invariant
                k <= n <= probable.len(),
                enabled@ == resolved + probable@.take(k as int),
            decreases n - k,
        {
            enabled.push(probable[k]);
            assert(probable@.take(k + 1) =~= probable@.take(k as int).push(probable@[k as int]));
            k += 1;
        }
        Ok(enabled)
    }

    fn put_on_tree(
        &self,
        anchor: &ExpansionJewel,
        total: i32,
        nodes: &Vec<ClusterJewelNode>,
        index: HashMap<i32, i32>,
    ) -> (r: Result<HashMap<i32, i32>, ResolveError>)
        ensures
            match r {
                Ok(table) => on_tree(
                    self.tables(),
                    *anchor,
                    total as int,
                    Slots { nodes: nodes@, index: index@ },
                ) == Ok::<Map<i32, i32>, ResolveError>(table@),
                Err(e) => on_tree(
                    self.tables(),
                    *anchor,
                    total as int,
                    Slots { nodes: nodes@, index: index@ },
                ) == Err::<Map<i32, i32>, ResolveError>(e),
            },
    {
        broadcast use vstd::std_specs::hash::group_hash_axioms;

        let proxy = match parse_i32(anchor.proxy.as_str()) {
            Some(proxy) => proxy,
            None => {
                return Err(ResolveError::Malformed);
            },
        };
        let tree = self.supporter.tree_meta();
        let node = match tree.nodes.get(&proxy) {
            Some(node) => node,
            None => {
                return Err(ResolveError::MissingData);
            },
        };
        if node.orbit < 0 || node.orbit as usize >= tree.constants.skills_per_orbit.len() {
            return Err(ResolveError::MissingData);
        }
        let mut index = index;
        if nodes.len() == 0 {
            return Ok(index);
        }
        let per_orbit = tree.constants.skills_per_orbit[node.orbit as usize];
        if !can_translate_oidx(node.orbit_index, per_orbit, total) {
            return Err(ResolveError::Malformed);
        }
        let turn = translate_oidx(node.orbit_index, per_orbit, total);
        match find_places(nodes, turn, total, per_orbit) {
            Some(places) => {
                index_places(&mut index, nodes, &places);
                Ok(index)
            },
            None => Err(ResolveError::Malformed),
        }
    }

    /// Resolves one cluster jewel: returns the tree nodes that it enables
    /// and those that it probably enables, takes the nodes it claims out of
    /// `hash_ex_set` and enters the sockets it offers into `socket_ejs`. On
    /// an error both are left as they were.
    pub fn get_enabled_node_ids_of_jewel(
        &self,
        hash_ex_set: &mut HashSet<i32>,
        jewel: &Jewel,
        expansion_jewel: &ExpansionJewel,
        id: Option<i32>,
        socket_ejs: &mut HashMap<i32, (i32, ExpansionJewel)>,
    ) -> (r: Result<(Vec<i32>, Vec<i32>), ResolveError>)
        ensures
            match r {
                Ok((enabled, probable)) => {
                    &&& self.outcome_of(
                        *jewel,
                        *expansion_jewel,
                        id,
                        Awaiting { nodes: old(hash_ex_set)@, sockets: old(socket_ejs)@ },
                    ) matches Ok(outcome)
                    &&& outcome.enabled == enabled@
                    &&& outcome.probable == probable@
                    &&& outcome.awaiting.nodes == final(hash_ex_set)@
                    &&& outcome.awaiting.sockets == final(socket_ejs)@
                },
                Err(e) => {
                    &&& self.outcome_of(
                        *jewel,
                        *expansion_jewel,
                        id,
                        Awaiting { nodes: old(hash_ex_set)@, sockets: old(socket_ejs)@ },
                    ) == Err::<JewelOutcome, ResolveError>(e)
                    &&& final(hash_ex_set)@ == old(hash_ex_set)@
                    &&& final(socket_ejs)@ == old(socket_ejs)@
                },
            },
    {
        reveal(jewel_outcome);
        if jewel.item >= self.skills.items.len() || jewel.data >= jewel_count(
            &self.skills.jewel_data,
        ) {
            return Err(ResolveError::MissingData);
        }
        if jewel.size >= self.supporter.jewel_sizes() {
            return Err(ResolveError::MissingData);
        }
        let layout = self.supporter.get_jewel_meta(jewel.size);
        let (base, first_id) = match first_ids_of(id, expansion_jewel, layout.size_index) {
            Some(ids) => ids,
            None => {
                return Err(ResolveError::Malformed);
            },
        };
        let (_, data) = jewel_at(&self.skills.jewel_data, jewel.data);
        let graph = match &data.subgraph {
            Some(graph) => graph,
            None => {
                return Err(ResolveError::MissingData);
            },
        };
        let key = expansion_key(jewel.seq_num);
        let group = match group_named(&graph.groups, key.as_str()) {
            Some(group) => group,
            None => {
                return Err(ResolveError::MissingData);
            },
        };
        if group.nodes.len() == 0 && node_count(&graph.nodes) == 0 {
            match &self.skills.items[jewel.item].rarity {
                None => {
                    return Err(ResolveError::MissingData);
                },
                Some(rarity) => {
                    if str_eq(rarity.as_str(), "Unique") {
                        let enabled: Vec<i32> = Vec::new();
                        let mut probable: Vec<i32> = Vec::new();
                        probable.push(first_id);
                        assert(probable@ =~= seq![first_id]);
                        return Ok((enabled, probable));
                    }
                },
            }
        }
        let members = match read_members(&graph.nodes, &group.nodes) {
            Ok(members) => members,
            Err(e) => {
                return Err(e);
            },
        };
        let (nodes, index) = match build_slots(jewel.size, layout, first_id, &members) {
            Ok(slots) => slots,
            Err(e) => {
                return Err(e);
            },
        };
        let index = match self.put_on_tree(expansion_jewel, layout.total_indicies, &nodes, index) {
            Ok(index) => index,
            Err(e) => {
                return Err(e);
            },
        };
        let enabled = collect_enabled(&members, &index, hash_ex_set);
        register_sockets(socket_ejs, &members, base);
        Ok((enabled, Vec::new()))
    }
}

/// Whether an item of the character goes into the build: not what lies
/// in the main inventory, not a trinket, and not the second weapon set
/// where the options leave it out.
pub open spec fn in_build(skip_weapon2: bool, item: Item) -> bool {
    &&& item.inventory_id matches Some(id) ==> {
        &&& !(skip_weapon2 && (id@ == "Weapon2"@ || id@ == "Offhand2"@))
        &&& id@ != "MainInventory"@
        &&& id@ != "ExpandedMainInventory"@
    }
    &&& item.base_type@ != "THIEFS_TRINKET"@
}

/// The condition that an item goes into the build.
pub open spec fn builds(skip_weapon2: bool) -> spec_fn(Item) -> bool {
    |item: Item| in_build(skip_weapon2, item)
}

/// An item of the build as it is planned: its number, the item of the
/// export that it is made of, and the name of its slot.
pub struct BuiltItem {
    pub id: i32,
    pub source: Item,
    pub slot: Seq<char>,
}

/// A group of gems as it is planned: the slot of the item that holds them,
/// and the items of the export that the gems are made of.
pub struct BuiltSkill {
    pub slot: Seq<char>,
    pub gems: Seq<Item>,
}

/// The plan of the items and skills of a build, and the number that the
/// next item gets.
pub struct Layout {
    pub items: Seq<BuiltItem>,
    pub skills: Seq<BuiltSkill>,
    pub next_id: int,
}

/// How far the sockets of an item are read: the plan so far, the gems of
/// the group that is being read and the number of that group, and the
/// number of abyss jewels met.
pub struct Walk {
    pub layout: Layout,
    pub group: Seq<Item>,
    pub prev_group: usize,
    pub abyssal: nat,
}

/// The name of the slot of the `n`th abyss jewel in an item.
pub open spec fn abyssal_slot(slot: Seq<char>, n: nat) -> Seq<char> {
    slot + " Abyssal Socket "@ + crate::text::decimal_nat(n)
}

/// The reading of the first `n` sockets of an item. An abyss jewel becomes
/// an item of the build in a slot of its own. A gem joins the group that is
/// being read if its socket belongs to it; else that group is closed as a
/// skill and the gem begins the next.
pub open spec fn walk_sockets(
    slot: Seq<char>,
    socketed: Seq<Box<Item>>,
    sockets: Seq<crate::model::items::Socket>,
    start: Layout,
    n: int,
) -> Result<Walk, ResolveError>
    decreases n,
{
    if n <= 0 {
        Ok(Walk { layout: start, group: seq![], prev_group: 0, abyssal: 0 })
    } else {
        match walk_sockets(slot, socketed, sockets, start, n - 1) {
            Err(e) => Err(e),
            Ok(w) => if socketed[n - 1].abyss_jewel == Some(true) {
                if w.layout.next_id > i32::MAX {
                    Err(ResolveError::Malformed)
                } else if !xml::items::convertible(*socketed[n - 1]) {
                    Err(ResolveError::MissingData)
                } else {
                    Ok(
                        Walk {
                            layout: Layout {
                                items: w.layout.items.push(
                                    BuiltItem {
                                        id: w.layout.next_id as i32,
                                        source: *socketed[n - 1],
                                        slot: abyssal_slot(slot, w.abyssal + 1),
                                    },
                                ),
                                skills: w.layout.skills,
                                next_id: w.layout.next_id + 1,
                            },
                            group: w.group,
                            prev_group: w.prev_group,
                            abyssal: w.abyssal + 1,
                        },
                    )
                }
            } else if n - 1 >= sockets.len() {
                Err(ResolveError::MissingData)
            } else if !xml::skills::gem_readable(*socketed[n - 1]) {
                Err(ResolveError::Malformed)
            } else if sockets[n - 1].group == w.prev_group {
                Ok(
                    Walk {
                        layout: w.layout,
                        group: w.group.push(*socketed[n - 1]),
                        prev_group: w.prev_group,
                        abyssal: w.abyssal,
                    },
                )
            } else {
                Ok(
                    Walk {
                        layout: Layout {
                            items: w.layout.items,
                            skills: w.layout.skills.push(BuiltSkill { slot, gems: w.group }),
                            next_id: w.layout.next_id,
                        },
                        group: seq![*socketed[n - 1]],
                        prev_group: sockets[n - 1].group,
                        abyssal: w.abyssal,
                    },
                )
            },
        }
    }
}

/// The plan once the sockets of an item are read: the reading of all its
/// sockets, with the last group closed as a skill if it holds a gem.
pub open spec fn after_sockets(
    slot: Seq<char>,
    socketed: Seq<Box<Item>>,
    sockets: Seq<crate::model::items::Socket>,
    start: Layout,
) -> Result<Layout, ResolveError> {
    match walk_sockets(slot, socketed, sockets, start, socketed.len() as int) {
        Err(e) => Err(e),
        Ok(w) => if w.group.len() > 0 {
            Ok(
                Layout {
                    items: w.layout.items,
                    skills: w.layout.skills.push(BuiltSkill { slot, gems: w.group }),
                    next_id: w.layout.next_id,
                },
            )
        } else {
            Ok(w.layout)
        },
    }
}

/// The plan once one more item of the character is laid out: the item
/// itself in its slot, then what sits in its sockets.
pub open spec fn lay_item(start: Layout, data: Item) -> Result<Layout, ResolveError> {
    if start.next_id > i32::MAX {
        Err(ResolveError::Malformed)
    } else if !xml::items::convertible(data) {
        Err(ResolveError::MissingData)
    } else if data.inventory_id is None || data.x is None {
        Err(ResolveError::MissingData)
    } else {
        let slot = support::slot_name(data.inventory_id->0@, data.x->0 as int);
        let own = Layout {
            items: start.items.push(BuiltItem { id: start.next_id as i32, source: data, slot }),
            skills: start.skills,
            next_id: start.next_id + 1,
        };
        match data.socketed_items {
            None => Ok(own),
            Some(socketed) => if socketed.len() == 0 {
                Ok(own)
            } else {
                match data.sockets {
                    None => Err(ResolveError::MissingData),
                    Some(sockets) => after_sockets(slot, socketed@, sockets@, own),
                }
            },
        }
    }
}

/// The plan once the first `n` of some items are laid out, numbered from 1.
pub open spec fn lay_items(items: Seq<Item>, n: int) -> Result<Layout, ResolveError>
    decreases n,
{
    if n <= 0 {
        Ok(Layout { items: seq![], skills: seq![], next_id: 1 })
    } else {
        match lay_items(items, n - 1) {
            Err(e) => Err(e),
            Ok(layout) => lay_item(layout, items[n - 1]),
        }
    }
}

/// Whether the items, slots and skills of a build are those of a plan.
pub open spec fn built(
    layout: Layout,
    items: Seq<xml::items::Item>,
    slots: Seq<xml::slot::SlotItem>,
    skills: Seq<xml::skills::Skill>,
) -> bool {
    &&& items.len() == layout.items.len()
    &&& slots.len() == layout.items.len()
    &&& skills.len() == layout.skills.len()
    &&& forall|k: int|
        0 <= k < layout.items.len() ==> xml::items::item_converted(
            layout.items[k].id as usize,
            layout.items[k].source,
            #[trigger] items[k],
        )
    &&& forall|k: int|
        0 <= k < layout.items.len() ==> slot_built(layout.items[k], #[trigger] slots[k])
    &&& forall|j: int|
        0 <= j < layout.skills.len() ==> (#[trigger] skills[j]).slot@ == layout.skills[j].slot
            && gems_built(layout.skills[j].gems, skills[j].gems@)
}

/// Whether an entry of an item set is the slot of a planned item.
pub open spec fn slot_built(planned: BuiltItem, entry: xml::slot::SlotItem) -> bool {
    match entry {
        xml::slot::SlotItem::Slot(slot) => {
            &&& slot.name() == planned.slot
            &&& slot.item_pb_url() == Seq::<char>::empty()
            &&& slot.item_id() == Some(planned.id)
            &&& slot.node_id() is None
            &&& slot.active() == "Flask "@.is_prefix_of(planned.slot)
        },
        xml::slot::SlotItem::SocketIdURL(_) => false,
    }
}

/// A jewel in the tree as it is planned: its number, the item of the
/// export that it is made of, and the node of its socket.
pub struct BuiltJewel {
    pub id: i32,
    pub source: Item,
    pub node: i32,
}

/// The plan of the first `n` jewels in the tree, numbered from `first_id`:
/// each jewel sits in the socket of the tree at its position.
pub open spec fn lay_jewels(first_id: int, items: Seq<Item>, n: int) -> Result<
    Seq<BuiltJewel>,
    ResolveError,
>
    decreases n,
{
    if n <= 0 {
        Ok(seq![])
    } else {
        match lay_jewels(first_id, items, n - 1) {
            Err(e) => Err(e),
            Ok(jewels) => if first_id + n - 1 > i32::MAX {
                Err(ResolveError::Malformed)
            } else if !xml::items::convertible(items[n - 1]) {
                Err(ResolveError::MissingData)
            } else if !(items[n - 1].x matches Some(x) && 0 <= x < 60) {
                Err(ResolveError::MissingData)
            } else {
                Ok(
                    jewels.push(
                        BuiltJewel {
                            id: (first_id + n - 1) as i32,
                            source: items[n - 1],
                            node: EXPANSION_SLOT_NODE_IDS[items[n - 1].x->0 as int],
                        },
                    ),
                )
            },
        }
    }
}

/// Whether the jewels of a build and their sockets are those of a plan.
pub open spec fn jewels_built(
    jewels: Seq<BuiltJewel>,
    items: Seq<xml::items::Item>,
    sockets: Seq<xml::tree::Socket>,
) -> bool {
    &&& items.len() == jewels.len()
    &&& sockets.len() == jewels.len()
    &&& forall|k: int|
        0 <= k < jewels.len() ==> xml::items::item_converted(
            jewels[k].id as usize,
            jewels[k].source,
            #[trigger] items[k],
        )
    &&& forall|k: int|
        0 <= k < jewels.len() ==> (#[trigger] sockets[k]).node_id() == jewels[k].node
            && sockets[k].item_id() == jewels[k].id
}

/// Whether some gems of a build are made of some items of the export.
pub open spec fn gems_built(sources: Seq<Item>, gems: Seq<xml::skills::Gem>) -> bool {
    &&& gems.len() == sources.len()
    &&& forall|g: int|
        0 <= g < sources.len() ==> (#[trigger] gems[g])@ == xml::skills::gem_facts(sources[g])
}

fn flush_group(
    slot_name: &str,
    group: Vec<xml::skills::Gem>,
    skills: &mut Vec<xml::skills::Skill>,
    Ghost(sources): Ghost<Seq<Item>>,
)
    requires
        gems_built(sources, group@),
    ensures
        final(skills)@.len() == old(skills)@.len() + 1,
        forall|j: int| 0 <= j < old(skills)@.len() ==> final(skills)@[j] == old(skills)@[j],
        final(skills)@.last().slot@ == slot_name@,
        gems_built(sources, final(skills)@.last().gems@),
{
    let mut skill = xml::skills::Skill::new(slot_name);
    skill.gems = group;
    skills.push(skill);
}

fn lay_sockets(
    slot_name: &str,
    socketed: &Vec<Box<Item>>,
    sockets: &Vec<crate::model::items::Socket>,
    next_id: &mut i64,
    items: &mut Vec<xml::items::Item>,
    slots: &mut Vec<xml::slot::SlotItem>,
    skills: &mut Vec<xml::skills::Skill>,
    Ghost(start): Ghost<Layout>,
) -> (r: Result<(), ResolveError>)
    requires
        built(start, old(items)@, old(slots)@, old(skills)@),
        *old(next_id) == start.next_id,
        1 <= start.next_id <= i32::MAX + 1,
    ensures
        match r {
            Ok(()) => {
                &&& after_sockets(slot_name@, socketed@, sockets@, start) matches Ok(layout)
                &&& built(layout, final(items)@, final(slots)@, final(skills)@)
                &&& *final(next_id) == layout.next_id
                &&& 1 <= layout.next_id <= i32::MAX + 1
            },
            Err(e) => after_sockets(slot_name@, socketed@, sockets@, start) == Err::<
                Layout,
                ResolveError,
            >(e),
        },
{
    let mut group: Vec<xml::skills::Gem> = Vec::new();
    let mut prev_group_num: usize = 0;
    let mut abyss_jewel_count: usize = 0;
    let ghost mut w = Walk { layout: start, group: seq![], prev_group: 0, abyssal: 0 };
    let mut i: usize = 0;
    while i < socketed.len()
        invariant
            i <= socketed.len(),
            walk_sockets(slot_name@, socketed@, sockets@, start, i as int) == Ok::<
                Walk,
                ResolveError,
            >(w),
            built(w.layout, items@, slots@, skills@),
            gems_built(w.group, group@),
            prev_group_num == w.prev_group,
            abyss_jewel_count == w.abyssal,
            abyss_jewel_count <= i,
            *next_id == w.layout.next_id,
            1 <= w.layout.next_id <= i32::MAX + 1,
        decreases socketed.len() - i,
    {
        let si = &socketed[i];
        let abyss = match si.abyss_jewel {
            Some(b) => b,
            None => false,
        };
        let ghost next = walk_sockets(slot_name@, socketed@, sockets@, start, i + 1);
        if abyss {
            if *next_id > 0x7fff_ffff {
                proof {
                    walk_error_stays(slot_name@, socketed@, sockets@, start, i + 1, socketed.len() as int);
                }
                return Err(ResolveError::Malformed);
            }
            if !xml::items::Item::can_convert(si) {
                proof {
                    walk_error_stays(slot_name@, socketed@, sockets@, start, i + 1, socketed.len() as int);
                }
                return Err(ResolveError::MissingData);
            }
            abyss_jewel_count += 1;
            let item_id = *next_id as i32;
            *next_id += 1;
            items.push(xml::items::Item::new(item_id as usize, si));
            let mut si_slot_name = crate::text::concat(slot_name, " Abyssal Socket ");
            crate::text::push_decimal_nat(&mut si_slot_name, abyss_jewel_count as u128);
            slots.push(
                xml::slot::SlotItem::Slot(
                    xml::slot::Slot::new_equipment(si_slot_name.as_str(), item_id),
                ),
            );
            proof {
                w = next->Ok_0;
            }
        } else {
            if i >= sockets.len() {
                proof {
                    walk_error_stays(slot_name@, socketed@, sockets@, start, i + 1, socketed.len() as int);
                }
                return Err(ResolveError::MissingData);
            }
            let gem = match xml::skills::Gem::try_new(si) {
                Some(gem) => gem,
                None => {
                    proof {
                        walk_error_stays(slot_name@, socketed@, sockets@, start, i + 1, socketed.len() as int);
                    }
                    return Err(ResolveError::Malformed);
                },
            };
            let group_num = sockets[i].group;
            if group_num == prev_group_num {
                group.push(gem);
            } else {
                flush_group(slot_name, group, skills, Ghost(w.group));
                prev_group_num = group_num;
                group = Vec::new();
                group.push(gem);
            }
            proof {
                w = next->Ok_0;
            }
        }
        i += 1;
    }
    if group.len() > 0 {
        flush_group(slot_name, group, skills, Ghost(w.group));
    }
    Ok(())
}

/// An error of reading sockets stays the error of reading more of them.
proof fn walk_error_stays(
    slot: Seq<char>,
    socketed: Seq<Box<Item>>,
    sockets: Seq<crate::model::items::Socket>,
    start: Layout,
    n: int,
    m: int,
)
    requires
        0 <= n <= m,
        walk_sockets(slot, socketed, sockets, start, n) is Err,
    ensures
        walk_sockets(slot, socketed, sockets, start, m) == walk_sockets(
            slot,
            socketed,
            sockets,
            start,
            n,
        ),
    decreases m - n,
{
    if n < m {
        walk_error_stays(slot, socketed, sockets, start, n, m - 1);
    }
}

/// What a build is made of: the plan of its equipment, the plan of the
/// jewels in its tree, and the nodes that its cluster jewels enable.
pub struct Plan {
    pub layout: Layout,
    pub jewels: Seq<BuiltJewel>,
    pub enabled: Seq<i32>,
}

/// Whether the mastery effects of a build are the given pairs of node and
/// effect.
pub open spec fn effects_built(pairs: Seq<(i32, i32)>, effects: Seq<xml::tree::MasteryEffect>) -> bool {
    &&& effects.len() == pairs.len()
    &&& forall|k: int|
        0 <= k < pairs.len() ==> (#[trigger] effects[k]).node_id == pairs[k].0
            && effects[k].effect_id == pairs[k].1
}

/// Whether the replaced skills of a build are those of the character.
pub open spec fn overrides_built(
    entries: Seq<(i32, SkillOverride)>,
    members: Seq<xml::tree::Override>,
) -> bool {
    &&& members.len() == entries.len()
    &&& forall|k: int|
        0 <= k < entries.len() ==> (#[trigger] members[k]).dn@ == entries[k].1.name@
            && members[k].node_id == entries[k].0
}

impl Transformer {
    /// The items of the character that go into the build, in their order.
    pub open spec fn equipment(&self) -> Seq<Item> {
        Seq::new(
            all_matches(self.items().items@, builds(self.options().skip_weapon2)).len(),
            |k: int|
                self.items().items[all_matches(
                    self.items().items@,
                    builds(self.options().skip_weapon2),
                )[k]],
        )
    }

    /// What the build of the character is made of, or why there is none:
    /// the equipment is laid out first, then the jewels in the tree, and
    /// then the cluster jewels are resolved.
    pub open spec fn plan(&self) -> Result<Plan, ResolveError> {
        match lay_items(self.equipment(), self.equipment().len() as int) {
            Err(e) => Err(e),
            Ok(layout) => match lay_jewels(
                layout.next_id,
                self.skills().items@,
                self.skills().items.len() as int,
            ) {
                Err(e) => Err(e),
                Ok(jewels) => match self.enabled_nodes() {
                    Err(e) => Err(e),
                    Ok(enabled) => Ok(Plan { layout, jewels, enabled }),
                },
            },
        }
    }

    /// Whether a build is the build of the character: its level and class,
    /// its equipment with slots and skills, the jewels in its tree, and
    /// the tree with the nodes of the character and of its cluster jewels.
    pub open spec fn transformed(&self, b: PathOfBuilding) -> bool {
        &&& self.plan() matches Ok(plan)
        &&& b.build.level == self.items().character.level
        &&& b.build.class_name@ == support::class_names(self.items().character.class@).0
        &&& b.build.ascend_class_name@ == support::class_names(self.items().character.class@).1
        &&& b.items.items.len() == plan.layout.items.len() + plan.jewels.len()
        &&& built(
            plan.layout,
            b.items.items@.take(plan.layout.items.len() as int),
            b.items.item_set.slots@,
            b.skills.skill_set.skills@,
        )
        &&& jewels_built(
            plan.jewels,
            b.items.items@.skip(plan.layout.items.len() as int),
            b.tree.spec.sockets.sockets@,
        )
        &&& !b.items.item_set.use_second_weapon_set
        &&& b.items.item_set.id == 1
        &&& b.tree.spec.tree_version@ == "3_25"@
        &&& b.tree.spec.class_id == self.class_bytes().0
        &&& b.tree.spec.ascend_class_id == self.class_bytes().1
        &&& b.tree.spec.secondary_ascend_class_id == self.skills().alternate_ascendancy
        &&& effects_built(self.skills().mastery_effects.pairs(), b.tree.spec.mastery_effects@)
        &&& b.tree.spec.nodes@ == self.skills().hashes@ + plan.enabled
        &&& overrides_built(
            override_entries(self.skills().skill_overrides),
            b.tree.spec.overrides.members(),
        )
        &&& b.config.inputs().len() == 1
        &&& b.config.inputs()[0].name() == xml::config::K_ENEMY_IS_BOSS@
        &&& b.config.inputs()[0].kind() == "string"@
        &&& b.config.inputs()[0].value() == xml::config::V_ENEMY_SHAPER@
    }

    /// The items of the character that go into the build.
    pub fn get_building_items(&self) -> (r: Vec<&Item>)
        ensures
            r.len() == self.equipment().len(),
            forall|k: int| 0 <= k < r.len() ==> *(#[trigger] r@[k]) == self.equipment()[k],
    {
        let ghost all = self.items.items@;
        let ghost pred = builds(self.options.skip_weapon2);
        let mut places: Vec<usize> = Vec::new();
        let mut i: usize = 0;
        assert(all.take(0) =~= Seq::<Item>::empty());
        while i < self.items.items.len()
            invariant
                i <= self.items.items.len(),
                all == self.items.items@,
                pred == builds(self.options.skip_weapon2),
                places@.map_values(|i: usize| i as int) == all_matches(all.take(i as int), pred),
                forall|k: int| 0 <= k < places.len() ==> (#[trigger] places@[k]) < i,
            decreases self.items.items.len() - i,
        {
            proof {
                lemma_all_matches_step(all, pred, i as int);
            }
            let item = &self.items.items[i];
            let placed = match &item.inventory_id {
                Some(id) => {
                    let second = str_eq(id.as_str(), "Weapon2") || str_eq(id.as_str(), "Offhand2");
                    !(self.options.skip_weapon2 && second) && !str_eq(
                        id.as_str(),
                        "MainInventory",
                    ) && !str_eq(id.as_str(), "ExpandedMainInventory")
                },
                None => true,
            };
            if placed && !str_eq(item.base_type.as_str(), "THIEFS_TRINKET") {
                let ghost before = places@;
                places.push(i);
                assert(places@.map_values(|i: usize| i as int) =~= before.map_values(
                    |i: usize| i as int,
                ).push(i as int));
            }
            i += 1;
        }
        assert(all.take(self.items.items.len() as int) =~= all);
        let r = crate::db::pick(&self.items.items, &places);
        proof {
            let ints = places@.map_values(|i: usize| i as int);
            assert(ints.len() == places.len());
            assert forall|k: int| 0 <= k < r.len() implies *(#[trigger] r@[k])
                == self.equipment()[k] by {
                assert(ints[k] == places@[k] as int);
            }
        }
        r
    }

    fn parse_items(&self, next_id: &mut i64, building: &mut PathOfBuilding) -> (r: Result<
        (),
        ResolveError,
    >)
        requires
            *old(next_id) == 1,
            old(building).items.items@.len() == 0,
            old(building).items.item_set.slots@.len() == 0,
            old(building).skills.skill_set.skills@.len() == 0,
        ensures
            match r {
                Ok(()) => {
                    &&& lay_items(self.equipment(), self.equipment().len() as int) matches Ok(
                        layout,
                    )
                    &&& built(
                        layout,
                        final(building).items.items@,
                        final(building).items.item_set.slots@,
                        final(building).skills.skill_set.skills@,
                    )
                    &&& *final(next_id) == layout.next_id
                    &&& 1 <= layout.next_id <= i32::MAX + 1
                    &&& final(building).build == old(building).build
                    &&& final(building).tree == old(building).tree
                    &&& final(building).config == old(building).config
                    &&& final(building).items.item_set.id == old(building).items.item_set.id
                    &&& final(building).items.item_set.use_second_weapon_set == old(
                        building,
                    ).items.item_set.use_second_weapon_set
                },
                Err(e) => lay_items(self.equipment(), self.equipment().len() as int) == Err::<
                    Layout,
                    ResolveError,
                >(e),
            },
    {
        let items = self.get_building_items();
        let ghost all = self.equipment();
        let ghost mut layout = Layout { items: seq![], skills: seq![], next_id: 1 };
        let mut i: usize = 0;
        while i < items.len()
            invariant
                i <= items.len(),
                all == self.equipment(),
                items.len() == all.len(),
                forall|k: int| 0 <= k < items.len() ==> *(#[trigger] items@[k]) == all[k],
                lay_items(all, i as int) == Ok::<Layout, ResolveError>(layout),
                built(
                    layout,
                    building.items.items@,
                    building.items.item_set.slots@,
                    building.skills.skill_set.skills@,
                ),
                *next_id == layout.next_id,
                1 <= layout.next_id <= i32::MAX + 1,
                building.build == old(building).build,
                building.tree == old(building).tree,
                building.config == old(building).config,
                building.items.item_set.id == old(building).items.item_set.id,
                building.items.item_set.use_second_weapon_set == old(
                    building,
                ).items.item_set.use_second_weapon_set,
            decreases items.len() - i,
        {
            let data = items[i];
            assert(*data == all[i as int]);
            let ghost next = lay_item(layout, *data);
            proof {
                assert(lay_items(all, i + 1) == next);
            }
            if *next_id > 0x7fff_ffff {
                proof {
                    lay_error_stays(all, i + 1, all.len() as int);
                }
                return Err(ResolveError::Malformed);
            }
            if !xml::items::Item::can_convert(data) {
                proof {
                    lay_error_stays(all, i + 1, all.len() as int);
                }
                return Err(ResolveError::MissingData);
            }
            let (inventory_id, x) = match (&data.inventory_id, data.x) {
                (Some(inventory_id), Some(x)) => (inventory_id, x),
                _ => {
                    proof {
                        lay_error_stays(all, i + 1, all.len() as int);
                    }
                    return Err(ResolveError::MissingData);
                },
            };
            let item_id = *next_id as i32;
            *next_id += 1;
            building.items.items.push(xml::items::Item::new(item_id as usize, data));
            let slot_name = support::get_slot_name(inventory_id.as_str(), x);
            building.items.item_set.slots.push(
                xml::slot::SlotItem::Slot(
                    xml::slot::Slot::new_equipment(slot_name.as_str(), item_id),
                ),
            );
            let ghost own = Layout {
                items: layout.items.push(
                    BuiltItem { id: item_id, source: *data, slot: slot_name@ },
                ),
                skills: layout.skills,
                next_id: layout.next_id + 1,
            };
            assert(built(
                own,
                building.items.items@,
                building.items.item_set.slots@,
                building.skills.skill_set.skills@,
            ));
            match &data.socketed_items {
                Some(socketed) => {
                    if socketed.len() > 0 {
                        let sockets = match &data.sockets {
                            Some(sockets) => sockets,
                            None => {
                                proof {
                                    lay_error_stays(all, i + 1, all.len() as int);
                                }
                                return Err(ResolveError::MissingData);
                            },
                        };
                        match lay_sockets(
                            slot_name.as_str(),
                            socketed,
                            sockets,
                            next_id,
                            &mut building.items.items,
                            &mut building.items.item_set.slots,
                            &mut building.skills.skill_set.skills,
                            Ghost(own),
                        ) {
                            Ok(()) => {},
                            Err(e) => {
                                proof {
                                    lay_error_stays(all, i + 1, all.len() as int);
                                }
                                return Err(e);
                            },
                        }
                    }
                },
                None => {},
            }
            proof {
                layout = next->Ok_0;
            }
            i += 1;
        }
        Ok(())
    }

    fn parse_tree(&self, next_id: &mut i64, building: &mut PathOfBuilding) -> (r: Result<
        (),
        ResolveError,
    >)
        requires
            1 <= *old(next_id) <= i32::MAX + 1,
            old(building).tree.spec.sockets.sockets@.len() == 0,
            old(building).tree.spec.mastery_effects@.len() == 0,
            old(building).tree.spec.overrides.members().len() == 0,
        ensures
            match r {
                Ok(()) => {
                    &&& lay_jewels(
                        *old(next_id) as int,
                        self.skills().items@,
                        self.skills().items.len() as int,
                    ) matches Ok(jewels)
                    &&& self.enabled_nodes() matches Ok(enabled)
                    &&& final(building).items.items@.take(old(building).items.items@.len() as int)
                        == old(building).items.items@
                    &&& final(building).items.items@.len() == old(building).items.items@.len()
                        + jewels.len()
                    &&& jewels_built(
                        jewels,
                        final(building).items.items@.skip(
                            old(building).items.items@.len() as int,
                        ),
                        final(building).tree.spec.sockets.sockets@,
                    )
                    &&& final(building).tree.spec.class_id == self.class_bytes().0
                    &&& final(building).tree.spec.ascend_class_id == self.class_bytes().1
                    &&& final(building).tree.spec.secondary_ascend_class_id
                        == self.skills().alternate_ascendancy
                    &&& effects_built(
                        self.skills().mastery_effects.pairs(),
                        final(building).tree.spec.mastery_effects@,
                    )
                    &&& final(building).tree.spec.nodes@ == self.skills().hashes@ + enabled
                    &&& overrides_built(
                        override_entries(self.skills().skill_overrides),
                        final(building).tree.spec.overrides.members(),
                    )
                    &&& final(building).tree.spec.tree_version == old(
                        building,
                    ).tree.spec.tree_version
                    &&& final(building).build == old(building).build
                    &&& final(building).config == old(building).config
                    &&& final(building).skills == old(building).skills
                    &&& final(building).items.item_set == old(building).items.item_set
                },
                Err(e) => match lay_jewels(
                    *old(next_id) as int,
                    self.skills().items@,
                    self.skills().items.len() as int,
                ) {
                    Err(first) => e == first,
                    Ok(_) => self.enabled_nodes() == Err::<Seq<i32>, ResolveError>(e),
                },
            },
    {
        let ghost first_id = *old(next_id) as int;
        let ghost all = self.skills.items@;
        let ghost before = old(building).items.items@;
        let ghost mut jewels: Seq<BuiltJewel> = seq![];
        let mut i: usize = 0;
        assert(building.items.items@.skip(before.len() as int) =~= Seq::<
            xml::items::Item,
        >::empty());
        assert(building.items.items@.take(before.len() as int) =~= before);
        while i < self.skills.items.len()
            invariant
                i <= self.skills.items.len(),
                all == self.skills.items@,
                all == self.skills().items@,
                before == old(building).items.items@,
                first_id == *old(next_id),
                1 <= first_id,
                lay_jewels(first_id, all, i as int) == Ok::<Seq<BuiltJewel>, ResolveError>(
                    jewels,
                ),
                jewels.len() == i,
                building.items.items@.len() == before.len() + i,
                building.items.items@.take(before.len() as int) == before,
                jewels_built(
                    jewels,
                    building.items.items@.skip(before.len() as int),
                    building.tree.spec.sockets.sockets@,
                ),
                *next_id == first_id + i,
                *next_id <= i32::MAX + 1,
                building.tree.spec.mastery_effects == old(building).tree.spec.mastery_effects,
                building.tree.spec.overrides == old(building).tree.spec.overrides,
                building.tree.spec.tree_version == old(building).tree.spec.tree_version,
                building.build == old(building).build,
                building.config == old(building).config,
                building.skills == old(building).skills,
                building.items.item_set == old(building).items.item_set,
            decreases self.skills.items.len() - i,
        {
            let data = &self.skills.items[i];
            let ghost next = lay_jewels(first_id, all, i + 1);
            if *next_id > 0x7fff_ffff {
                proof {
                    jewels_error_stays(first_id, all, i + 1, all.len() as int);
                }
                return Err(ResolveError::Malformed);
            }
            if !xml::items::Item::can_convert(data) {
                proof {
                    jewels_error_stays(first_id, all, i + 1, all.len() as int);
                }
                return Err(ResolveError::MissingData);
            }
            let x = match data.x {
                Some(x) => x,
                None => {
                    proof {
                        jewels_error_stays(first_id, all, i + 1, all.len() as int);
                    }
                    return Err(ResolveError::MissingData);
                },
            };
            if x < 0 || x >= 60 {
                proof {
                    jewels_error_stays(first_id, all, i + 1, all.len() as int);
                }
                return Err(ResolveError::MissingData);
            }
            let item_id = *next_id as i32;
            *next_id += 1;
            let ghost items_before = building.items.items@;
            building.items.items.push(xml::items::Item::new(item_id as usize, data));
            building.tree.spec.sockets.push(
                xml::tree::Socket::new(node_id_of_expansion_slot(x as usize), item_id),
            );
            proof {
                jewels = next->Ok_0;
                assert(building.items.items@.skip(before.len() as int) =~= items_before.skip(
                    before.len() as int,
                ).push(building.items.items@.last()));
                assert(building.items.items@.take(before.len() as int) =~= items_before.take(
                    before.len() as int,
                ));
            }
            i += 1;
        }
        let (class_id, ascendancy_id) = get_class_id(self.items.character.class.as_str());
        building.tree.spec.class_id = class_id as i32;
        building.tree.spec.ascend_class_id = ascendancy_id as i32;
        building.tree.spec.secondary_ascend_class_id = self.skills.alternate_ascendancy;
        match &self.skills.mastery_effects {
            MasteryEffects::Table(effects) => {
                let n = effect_count(effects);
                let ghost pairs = effect_entries(*effects);
                let mut k: usize = 0;
                while k < n
                    invariant
                        k <= n,
                        n == pairs.len(),
                        pairs == effect_entries(*effects),
                        building.tree.spec.mastery_effects@.len() == k,
                        forall|t: int|
                            0 <= t < k ==> (#[trigger] building.tree.spec.mastery_effects@[t]).node_id
                                == pairs[t].0 && building.tree.spec.mastery_effects@[t].effect_id
                                == pairs[t].1,
                        building.tree.spec.class_id == class_id as i32,
                        building.tree.spec.ascend_class_id == ascendancy_id as i32,
                        building.tree.spec.secondary_ascend_class_id
                            == self.skills.alternate_ascendancy,
                        building.items.items@.len() == before.len() + jewels.len(),
                        building.items.items@.take(before.len() as int) == before,
                        jewels_built(
                            jewels,
                            building.items.items@.skip(before.len() as int),
                            building.tree.spec.sockets.sockets@,
                        ),
                        building.tree.spec.overrides == old(building).tree.spec.overrides,
                        building.tree.spec.tree_version == old(building).tree.spec.tree_version,
                        building.build == old(building).build,
                        building.config == old(building).config,
                        building.skills == old(building).skills,
                        building.items.item_set == old(building).items.item_set,
                    decreases n - k,
                {
                    let (node, effect) = effect_at(effects, k);
                    building.tree.spec.mastery_effects.push(
                        xml::tree::MasteryEffect::new(node, effect),
                    );
                    k += 1;
                }
            },
            MasteryEffects::Arr(_) => {},
        }
        let enabled = match self.get_enabled_node_ids_of_jewels() {
            Ok(enabled) => enabled,
            Err(e) => {
                return Err(e);
            },
        };
        let mut nodes: Vec<i32> = Vec::new();
        let mut h: usize = 0;
        while h < self.skills.hashes.len()
            invariant
                h <= self.skills.hashes.len(),
                nodes@ == self.skills.hashes@.take(h as int),
            decreases self.skills.hashes.len() - h,
        {
            nodes.push(self.skills.hashes[h]);
            assert(self.skills.hashes@.take(h + 1) =~= self.skills.hashes@.take(h as int).push(
                self.skills.hashes@[h as int],
            ));
            h += 1;
        }
        assert(self.skills.hashes@.take(self.skills.hashes.len() as int) =~= self.skills.hashes@);
        let mut enabled = enabled;
        nodes.append(&mut enabled);
        building.tree.spec.nodes = nodes;
        let m = override_count(&self.skills.skill_overrides);
        let ghost entries = override_entries(self.skills.skill_overrides);
        let mut o: usize = 0;
        while o < m
            invariant
                o <= m,
                m == entries.len(),
                entries == override_entries(self.skills.skill_overrides),
                building.tree.spec.overrides.members().len() == o,
                forall|t: int|
                    0 <= t < o ==> (#[trigger] building.tree.spec.overrides.members()[t]).dn@
                        == entries[t].1.name@ && building.tree.spec.overrides.members()[t].node_id
                        == entries[t].0,
                building.tree.spec.class_id == class_id as i32,
                building.tree.spec.ascend_class_id == ascendancy_id as i32,
                building.tree.spec.secondary_ascend_class_id == self.skills.alternate_ascendancy,
                effects_built(
                    self.skills.mastery_effects.pairs(),
                    building.tree.spec.mastery_effects@,
                ),
                building.tree.spec.nodes@ == self.skills.hashes@ + self.enabled_nodes()->Ok_0,
                self.enabled_nodes() is Ok,
                building.items.items@.len() == before.len() + jewels.len(),
                building.items.items@.take(before.len() as int) == before,
                jewels_built(
                    jewels,
                    building.items.items@.skip(before.len() as int),
                    building.tree.spec.sockets.sockets@,
                ),
                building.tree.spec.tree_version == old(building).tree.spec.tree_version,
                building.build == old(building).build,
                building.config == old(building).config,
                building.skills == old(building).skills,
                building.items.item_set == old(building).items.item_set,
            decreases m - o,
        {
            let (node, over) = override_at(&self.skills.skill_overrides, o);
            building.tree.spec.overrides.push(xml::tree::Override::new(over.name.as_str(), node));
            o += 1;
        }
        Ok(())
    }

    /// The build of the character, or why there is none: something that the
    /// build needs is missing, or a number is no number or does not fit.
    pub fn transform(&self) -> (r: Result<PathOfBuilding, ResolveError>)
        ensures
            match r {
                Ok(building) => self.transformed(building),
                Err(e) => self.plan() == Err::<Plan, ResolveError>(e),
            },
    {
        let mut building = PathOfBuilding::default();
        let mut next_id: i64 = 1;
        building.build.level = self.items.character.level;
        let (class_name, ascend_class_name) = support::get_class_and_ascendancy(
            self.items.character.class.as_str(),
        );
        building.build.class_name = class_name.to_owned();
        building.build.ascend_class_name = ascend_class_name.to_owned();
        match self.parse_items(&mut next_id, &mut building) {
            Ok(()) => {},
            Err(e) => {
                return Err(e);
            },
        }
        match self.parse_tree(&mut next_id, &mut building) {
            Ok(()) => {},
            Err(e) => {
                return Err(e);
            },
        }
        Ok(building)
    }
}

/// An error of laying out items stays the error of laying out more.
proof fn lay_error_stays(items: Seq<Item>, n: int, m: int)
    requires
        0 <= n <= m,
        lay_items(items, n) is Err,
    ensures
        lay_items(items, m) == lay_items(items, n),
    decreases m - n,
{
    if n < m {
        lay_error_stays(items, n, m - 1);
    }
}

/// An error of laying out jewels stays the error of laying out more.
proof fn jewels_error_stays(first_id: int, items: Seq<Item>, n: int, m: int)
    requires
        0 <= n <= m,
        lay_jewels(first_id, items, n) is Err,
    ensures
        lay_jewels(first_id, items, m) == lay_jewels(first_id, items, n),
    decreases m - n,
{
    if n < m {
        jewels_error_stays(first_id, items, n, m - 1);
    }
}

} // verus!
