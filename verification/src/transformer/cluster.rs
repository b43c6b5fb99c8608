//! The steps by which the nodes of one cluster jewel are placed on the tree.

use crate::model::passive_skills::{
    node_entries, node_of, node_with_id, ExpansionJewel, Node,
};
use crate::search::{first_match, lemma_first_match_is, lemma_no_match};
use crate::text::{parse_i32, parsed_i32};
use indexmap::IndexMap;
use std::collections::{HashMap, HashSet};
use vstd::prelude::*;

verus! {

/// Where each position of a ring of 12 lies on a ring of 16.
pub const RING_12_TO_16: [i32; 12] = [0, 1, 3, 4, 5, 7, 8, 9, 11, 12, 13, 15];

/// Where each position of a ring of 16 lies on a ring of 12.
pub const RING_16_TO_12: [i32; 16] = [0, 1, 1, 2, 3, 4, 4, 5, 6, 7, 7, 8, 9, 10, 10, 11];

/// Whether a position on a ring of `from` positions has a place on a ring
/// of `to` positions: any position where the rings are alike, a position of
/// the ring between rings of 12 and 16, and otherwise a position that is not
/// negative, on rings that are not empty, whose scaled value fits an `i32`.
pub open spec fn oidx_translatable(src: int, from: int, to: int) -> bool {
    if from == to {
        true
    } else if from == 12 && to == 16 {
        0 <= src < 12
    } else if from == 16 && to == 12 {
        0 <= src < 16
    } else {
        from > 0 && to >= 0 && src >= 0 && src * to <= i32::MAX
    }
}

/// The place of a position of one ring on another: the same position where
/// the rings are alike, the tables between rings of 12 and 16, and otherwise
/// the position scaled by the sizes of the rings.
pub open spec fn translated_oidx(src: int, from: int, to: int) -> int {
    if from == to {
        src
    } else if from == 12 && to == 16 {
        RING_12_TO_16[src] as int
    } else if from == 16 && to == 12 {
        RING_16_TO_12[src] as int
    } else {
        src * to / from
    }
}

/// Whether `translate_oidx` can be asked for this position.
pub fn can_translate_oidx(src_oidx: i32, src_nodes_per_orbit: i32, dest_nodes_per_orbit: i32) -> (r:
    bool)
    ensures
        r == oidx_translatable(
            src_oidx as int,
            src_nodes_per_orbit as int,
            dest_nodes_per_orbit as int,
        ),
{
    if src_nodes_per_orbit == dest_nodes_per_orbit {
        true
    } else if src_nodes_per_orbit == 12 && dest_nodes_per_orbit == 16 {
        0 <= src_oidx && src_oidx < 12
    } else if src_nodes_per_orbit == 16 && dest_nodes_per_orbit == 12 {
        0 <= src_oidx && src_oidx < 16
    } else if src_nodes_per_orbit > 0 && dest_nodes_per_orbit >= 0 && src_oidx >= 0 {
        assert(0 <= src_oidx * dest_nodes_per_orbit <= 0x7fff_ffff * 0x7fff_ffff)
            by (nonlinear_arith)
            requires
                0 <= src_oidx <= 0x7fff_ffff,
                0 <= dest_nodes_per_orbit <= 0x7fff_ffff,
        ;
        (src_oidx as i64) * (dest_nodes_per_orbit as i64) <= 0x7fff_ffff
    } else {
        false
    }
}

/// Moves a position from a ring of `src_nodes_per_orbit` positions to a ring
/// of `dest_nodes_per_orbit` positions.
pub fn translate_oidx(src_oidx: i32, src_nodes_per_orbit: i32, dest_nodes_per_orbit: i32) -> (r:
    i32)
    requires
        oidx_translatable(
            src_oidx as int,
            src_nodes_per_orbit as int,
            dest_nodes_per_orbit as int,
        ),
    ensures
        r == translated_oidx(
            src_oidx as int,
            src_nodes_per_orbit as int,
            dest_nodes_per_orbit as int,
        ),
{
    if src_nodes_per_orbit == dest_nodes_per_orbit {
        src_oidx
    } else if src_nodes_per_orbit == 12 && dest_nodes_per_orbit == 16 {
        RING_12_TO_16[src_oidx as usize]
    } else if src_nodes_per_orbit == 16 && dest_nodes_per_orbit == 12 {
        RING_16_TO_12[src_oidx as usize]
    } else {
        src_oidx * dest_nodes_per_orbit / src_nodes_per_orbit
    }
}

/// From a ring of 12 to a ring of 16 and back, a position is where it was.
pub proof fn lemma_ring_12_round_trip(i: int)
    requires
        0 <= i < 12,
    ensures
        oidx_translatable(i, 12, 16),
        oidx_translatable(translated_oidx(i, 12, 16), 16, 12),
        translated_oidx(translated_oidx(i, 12, 16), 16, 12) == i,
{
}

/// From a ring of 16 to a ring of 12 and back, a position may move, but
/// only to one that has the same place on the ring of 12.
pub proof fn lemma_ring_16_round_trip(i: int)
    requires
        0 <= i < 16,
    ensures
        oidx_translatable(i, 16, 12),
        oidx_translatable(translated_oidx(i, 16, 12), 12, 16),
        translated_oidx(translated_oidx(translated_oidx(i, 16, 12), 12, 16), 16, 12)
            == translated_oidx(i, 16, 12),
{
}

/// `x` put into an ascending sequence, behind the entries that are not
/// greater.
pub open spec fn inserted(s: Seq<i32>, x: i32) -> Seq<i32>
    decreases s.len(),
{
    if s.len() == 0 {
        seq![x]
    } else if s.last() <= x {
        s.push(x)
    } else {
        inserted(s.drop_last(), x).push(s.last())
    }
}

/// The entries of `s` in ascending order.
pub open spec fn ascending(s: Seq<i32>) -> Seq<i32>
    decreases s.len(),
{
    if s.len() == 0 {
        seq![]
    } else {
        inserted(ascending(s.drop_last()), s.last())
    }
}

/// Whether no entry is greater than one behind it.
pub open spec fn is_ascending(s: Seq<i32>) -> bool {
    forall|i: int, j: int| 0 <= i < j < s.len() ==> s[i] <= s[j]
}

/// Putting `x` at `p` is `inserted` where the entries from `p` on are the
/// greater ones.
proof fn lemma_inserted_at(s: Seq<i32>, x: i32, p: int)
    requires
        0 <= p <= s.len(),
        forall|j: int| p <= j < s.len() ==> s[j] > x,
        p > 0 ==> s[p - 1] <= x,
    ensures
        inserted(s, x) == s.insert(p, x),
    decreases s.len() - p,
{
    if p == s.len() {
        assert(s.insert(p, x) =~= s.push(x));
    } else {
        let t = s.drop_last();
        lemma_inserted_at(t, x, p);
        assert(t.insert(p, x).push(s.last()) =~= s.insert(p, x));
    }
}

/// `inserted` keeps an ascending sequence ascending, adds one entry and
/// keeps all others.
pub proof fn lemma_inserted(s: Seq<i32>, x: i32)
    requires
        is_ascending(s),
    ensures
        is_ascending(inserted(s, x)),
        inserted(s, x).len() == s.len() + 1,
        inserted(s, x).to_multiset() == s.to_multiset().insert(x),
    decreases s.len(),
{
    broadcast use vstd::seq_lib::group_to_multiset_ensures;

    if s.len() == 0 {
        assert(s =~= Seq::<i32>::empty());
        assert(inserted(s, x) =~= Seq::<i32>::empty().push(x));
    } else if s.last() <= x {
    } else {
        let t = s.drop_last();
        assert(is_ascending(t));
        lemma_inserted(t, x);
        let u = inserted(t, x);
        assert(s =~= t.push(s.last()));
        assert forall|i: int, j: int| 0 <= i < j < u.push(s.last()).len() implies u.push(
            s.last(),
        )[i] <= u.push(s.last())[j] by {
            if j == u.len() {
                assert(u.to_multiset().count(u[i]) > 0);
                if u[i] != x {
                    assert(t.to_multiset().count(u[i]) > 0);
                    assert(t.contains(u[i]));
                    let k = choose|k: int| 0 <= k < t.len() && t[k] == u[i];
                    assert(s[k] <= s[s.len() - 1]);
                }
            }
        }
    }
}

/// `ascending` gives the same entries, as often as they occurred, in
/// ascending order.
pub proof fn lemma_ascending(s: Seq<i32>)
    ensures
        is_ascending(ascending(s)),
        ascending(s).len() == s.len(),
        ascending(s).to_multiset() == s.to_multiset(),
    decreases s.len(),
{
    broadcast use vstd::seq_lib::group_to_multiset_ensures;

    if s.len() > 0 {
        lemma_ascending(s.drop_last());
        lemma_inserted(ascending(s.drop_last()), s.last());
        assert(s =~= s.drop_last().push(s.last()));
    }
}

/// The entries of `v` in ascending order.
pub fn sorted(v: &Vec<i32>) -> (out: Vec<i32>)
    ensures
        out@ == ascending(v@),
        is_ascending(out@),
        out@.to_multiset() == v@.to_multiset(),
{
    let mut out: Vec<i32> = Vec::new();
    let mut i: usize = 0;
    assert(v@.take(0) =~= Seq::<i32>::empty());
    while i < v.len()
        invariant
            i <= v.len(),
            out@ == ascending(v@.take(i as int)),
            out.len() == i,
        decreases v.len() - i,
    {
        let x = v[i];
        let mut p: usize = out.len();
        while p > 0 && out[p - 1] > x
            invariant
                p <= out.len(),
                forall|j: int| p <= j < out.len() ==> out@[j] > x,
            decreases p,
        {
            p -= 1;
        }
        proof {
            lemma_inserted_at(out@, x, p as int);
            assert(v@.take(i + 1).drop_last() =~= v@.take(i as int));
            assert(v@.take(i + 1).last() == x);
        }
        out.insert(p, x);
        i += 1;
    }
    assert(v@.take(v.len() as int) =~= v@);
    proof {
        lemma_ascending(v@);
    }
    out
}

/// Why the nodes of a character's cluster jewels could not be resolved.
#[derive(Debug, Clone, Copy, PartialEq, Eq, Structural)]
pub enum ResolveError {
    /// Something that the data refers to is not there: a jewel without its
    /// item or subgraph, a node or a socket that no table knows.
    MissingData,
    /// A number is no number, or lies outside what the tree can hold.
    Malformed,
}

/// A jewel socket among the nodes of a cluster jewel: the socket's own node
/// in the tree, its proxy node, and what the socket takes.
#[derive(Debug)]
pub struct SocketNode {
    pub skill: i32,
    pub proxy: i32,
    pub jewel: ExpansionJewel,
}

/// What a node of a cluster jewel is.
#[derive(Debug)]
pub enum Role {
    Notable,
    Socket(SocketNode),
    Mastery,
    Small,
}

/// A node of a cluster jewel as the export names it: its id there, its
/// position on the jewel's ring, and its role.
#[derive(Debug)]
pub struct Member {
    pub id: i32,
    pub orbit_index: i32,
    pub role: Role,
}

/// Whether a flag of the export is set.
pub open spec fn is_set(flag: Option<bool>) -> bool {
    flag == Some(true)
}

/// The member that a node id of a group stands for. The id must be a number
/// and the subgraph must know the node; a jewel socket must say what it
/// takes, and its own node and proxy must be numbers.
pub open spec fn member_of(nodes: Seq<(i32, Node)>, text: Seq<char>) -> Result<
    Member,
    ResolveError,
> {
    match parsed_i32(text) {
        None => Err(ResolveError::Malformed),
        Some(id) => match node_of(nodes, id) {
            None => Err(ResolveError::MissingData),
            Some(node) => if is_set(node.is_notable) {
                Ok(Member { id, orbit_index: node.orbit_index, role: Role::Notable })
            } else if is_set(node.is_jewel_socket) {
                match node.expansion_jewel {
                    None => Err(ResolveError::MissingData),
                    Some(jewel) => match (parsed_i32(node.skill@), parsed_i32(jewel.proxy@)) {
                        (Some(skill), Some(proxy)) => Ok(
                            Member {
                                id,
                                orbit_index: node.orbit_index,
                                role: Role::Socket(SocketNode { skill, proxy, jewel }),
                            },
                        ),
                        _ => Err(ResolveError::Malformed),
                    },
                }
            } else if is_set(node.is_mastery) {
                Ok(Member { id, orbit_index: node.orbit_index, role: Role::Mastery })
            } else {
                Ok(Member { id, orbit_index: node.orbit_index, role: Role::Small })
            },
        },
    }
}

/// The condition that a node id of a group stands for no member.
pub open spec fn is_no_member(nodes: Seq<(i32, Node)>) -> spec_fn(Seq<char>) -> bool {
    |text: Seq<char>| member_of(nodes, text) is Err
}

/// The members of a group in the order of the export, or the error of the
/// first node id that stands for none.
pub open spec fn members_of(nodes: Seq<(i32, Node)>, texts: Seq<Seq<char>>) -> Result<
    Seq<Member>,
    ResolveError,
> {
    match first_match(texts, is_no_member(nodes)) {
        Some(i) => Err(member_of(nodes, texts[i])->Err_0),
        None => Ok(Seq::new(texts.len(), |i: int| member_of(nodes, texts[i])->Ok_0)),
    }
}

fn flag_is_set(flag: &Option<bool>) -> (r: bool)
    ensures
        r == is_set(*flag),
{
    match flag {
        Some(b) => *b,
        None => false,
    }
}

/// A copy of what a socket takes.
pub fn copy_jewel(jewel: &ExpansionJewel) -> (r: ExpansionJewel)
    ensures
        r == *jewel,
{
    ExpansionJewel { size: jewel.size, index: jewel.index, proxy: jewel.proxy.clone() }
}

/// The member that a node id of a group stands for.
pub fn read_member(nodes: &IndexMap<i32, Node>, text: &str) -> (r: Result<Member, ResolveError>)
    ensures
        r == member_of(node_entries(*nodes), text@),
{
    let id = match parse_i32(text) {
        Some(id) => id,
        None => {
            return Err(ResolveError::Malformed);
        },
    };
    let node = match node_with_id(nodes, id) {
        Some(node) => node,
        None => {
            return Err(ResolveError::MissingData);
        },
    };
    if flag_is_set(&node.is_notable) {
        Ok(Member { id, orbit_index: node.orbit_index, role: Role::Notable })
    } else if flag_is_set(&node.is_jewel_socket) {
        match &node.expansion_jewel {
            None => Err(ResolveError::MissingData),
            Some(jewel) => {
                let skill = parse_i32(node.skill.as_str());
                let proxy = parse_i32(jewel.proxy.as_str());
                match (skill, proxy) {
                    (Some(skill), Some(proxy)) => Ok(
                        Member {
                            id,
                            orbit_index: node.orbit_index,
                            role: Role::Socket(
                                SocketNode { skill, proxy, jewel: copy_jewel(jewel) },
                            ),
                        },
                    ),
                    _ => Err(ResolveError::Malformed),
                }
            },
        }
    } else if flag_is_set(&node.is_mastery) {
        Ok(Member { id, orbit_index: node.orbit_index, role: Role::Mastery })
    } else {
        Ok(Member { id, orbit_index: node.orbit_index, role: Role::Small })
    }
}

/// The members of a group, in the order of the export.
pub fn read_members(nodes: &IndexMap<i32, Node>, texts: &Vec<String>) -> (r: Result<
    Vec<Member>,
    ResolveError,
>)
    ensures
        match r {
            Ok(members) => members_of(node_entries(*nodes), texts.deep_view()) == Ok::<
                Seq<Member>,
                ResolveError,
            >(members@),
            Err(e) => members_of(node_entries(*nodes), texts.deep_view()) == Err::<
                Seq<Member>,
                ResolveError,
            >(e),
        },
{
    let ghost entries = node_entries(*nodes);
    let ghost all = texts.deep_view();
    let mut members: Vec<Member> = Vec::new();
    let mut i: usize = 0;
    while i < texts.len()
        invariant
            i <= texts.len(),
            entries == node_entries(*nodes),
            all == texts.deep_view(),
            members.len() == i,
            forall|j: int| 0 <= j < i ==> !is_no_member(entries)(#[trigger] all[j]),
            forall|j: int| 0 <= j < i ==> (#[trigger] members@[j]) == member_of(entries, all[j])->Ok_0,
        decreases texts.len() - i,
    {
        assert(all[i as int] == texts[i as int]@);
        match read_member(nodes, texts[i].as_str()) {
            Ok(member) => {
                members.push(member);
            },
            Err(e) => {
                proof {
                    lemma_first_match_is(all, is_no_member(entries), i as int);
                }
                return Err(e);
            },
        }
        i += 1;
    }
    proof {
        lemma_no_match(all, is_no_member(entries));
        assert(members@ =~= Seq::new(all.len(), |i: int| member_of(entries, all[i])->Ok_0));
    }
    Ok(members)
}

/// A node of a cluster jewel as the tree knows it: its id there and the
/// position on the jewel's ring that it takes.
#[derive(Debug, Clone, Copy, PartialEq, Eq, Structural)]
pub struct ClusterJewelNode {
    pub id: i32,
    pub o_idx: i32,
}

/// How many of the members are notables.
pub open spec fn notable_count(members: Seq<Member>) -> nat
    decreases members.len(),
{
    if members.len() == 0 {
        0
    } else if members.last().role is Notable {
        notable_count(members.drop_last()) + 1
    } else {
        notable_count(members.drop_last())
    }
}

/// How many of the members are small passives.
pub open spec fn small_count(members: Seq<Member>) -> nat
    decreases members.len(),
{
    if members.len() == 0 {
        0
    } else if members.last().role is Small {
        small_count(members.drop_last()) + 1
    } else {
        small_count(members.drop_last())
    }
}

/// The tree nodes of the jewel sockets among the members, in order.
pub open spec fn socket_skills(members: Seq<Member>) -> Seq<i32>
    decreases members.len(),
{
    if members.len() == 0 {
        seq![]
    } else {
        match members.last().role {
            Role::Socket(socket) => socket_skills(members.drop_last()).push(socket.skill),
            _ => socket_skills(members.drop_last()),
        }
    }
}

/// Counts the notables and the small passives among the members and lists
/// the tree nodes of their jewel sockets.
pub fn census(members: &Vec<Member>) -> (r: (usize, usize, Vec<i32>))
    ensures
        r.0 == notable_count(members@),
        r.1 == small_count(members@),
        r.2@ == socket_skills(members@),
        r.0 + r.1 + r.2.len() <= members.len(),
{
    let mut notables: usize = 0;
    let mut smalls: usize = 0;
    let mut sockets: Vec<i32> = Vec::new();
    let mut i: usize = 0;
    assert(members@.take(0) =~= Seq::<Member>::empty());
    while i < members.len()
        invariant
            i <= members.len(),
            notables == notable_count(members@.take(i as int)),
            smalls == small_count(members@.take(i as int)),
            sockets@ == socket_skills(members@.take(i as int)),
            notables + smalls + sockets.len() <= i,
        decreases members.len() - i,
    {
        proof {
            assert(members@.take(i + 1).drop_last() =~= members@.take(i as int));
            assert(members@.take(i + 1).last() == members@[i as int]);
        }
        match &members[i].role {
            Role::Notable => {
                notables += 1;
            },
            Role::Socket(socket) => {
                sockets.push(socket.skill);
            },
            Role::Mastery => {},
            Role::Small => {
                smalls += 1;
            },
        }
        i += 1;
    }
    assert(members@.take(members.len() as int) =~= members@);
    (notables, smalls, sockets)
}

/// The nodes of the jewel sockets of a cluster jewel: the only socket of a
/// large jewel takes position 6, and otherwise the sockets take the socket
/// positions of the layout in order. `None` where the layout has fewer
/// socket positions than the jewel has sockets.
pub open spec fn socket_slots(size: int, positions: Seq<i32>, skills: Seq<i32>) -> Option<
    Seq<ClusterJewelNode>,
> {
    if size == 2 && skills.len() == 1 {
        Some(seq![ClusterJewelNode { id: skills[0], o_idx: 6 }])
    } else if skills.len() <= positions.len() {
        Some(Seq::new(skills.len(), |i: int| ClusterJewelNode { id: skills[i], o_idx: positions[i] }))
    } else {
        None
    }
}

/// The nodes of the jewel sockets of a cluster jewel.
pub fn place_sockets(size: usize, positions: &Vec<i32>, skills: &Vec<i32>) -> (r: Option<
    Vec<ClusterJewelNode>,
>)
    ensures
        match r {
            Some(nodes) => socket_slots(size as int, positions@, skills@) == Some(nodes@),
            None => socket_slots(size as int, positions@, skills@) is None,
        },
{
    let mut nodes: Vec<ClusterJewelNode> = Vec::new();
    if size == 2 && skills.len() == 1 {
        nodes.push(ClusterJewelNode { id: skills[0], o_idx: 6 });
        assert(nodes@ =~= seq![ClusterJewelNode { id: skills@[0], o_idx: 6 }]);
        return Some(nodes);
    }
    if skills.len() > positions.len() {
        return None;
    }
    let mut i: usize = 0;
    while i < skills.len()
        invariant
            i <= skills.len() <= positions.len(),
            nodes.len() == i,
            forall|j: int|
                0 <= j < i ==> (#[trigger] nodes@[j]) == (ClusterJewelNode {
                    id: skills@[j],
                    o_idx: positions@[j],
                }),
        decreases skills.len() - i,
    {
        nodes.push(ClusterJewelNode { id: skills[i], o_idx: positions[i] });
        i += 1;
    }
    assert(nodes@ =~= Seq::new(
        skills@.len(),
        |i: int| ClusterJewelNode { id: skills@[i], o_idx: positions@[i] },
    ));
    Some(nodes)
}

/// The table from ring position to tree node after the nodes are entered, a
/// later node replacing an earlier one at the same position.
pub open spec fn indexed(start: Map<i32, i32>, nodes: Seq<ClusterJewelNode>) -> Map<i32, i32>
    decreases nodes.len(),
{
    if nodes.len() == 0 {
        start
    } else {
        indexed(start, nodes.drop_last()).insert(nodes.last().o_idx, nodes.last().id)
    }
}

/// Enters each node into the table under its ring position.
pub fn index_nodes(index: &mut HashMap<i32, i32>, nodes: &Vec<ClusterJewelNode>)
    ensures
        final(index)@ == indexed(old(index)@, nodes@),
{
    broadcast use vstd::std_specs::hash::group_hash_axioms;

    let mut i: usize = 0;
    assert(nodes@.take(0) =~= Seq::<ClusterJewelNode>::empty());
    while i < nodes.len()
        invariant
            i <= nodes.len(),
            index@ == indexed(old(index)@, nodes@.take(i as int)),
        decreases nodes.len() - i,
    {
        proof {
            assert(nodes@.take(i + 1).drop_last() =~= nodes@.take(i as int));
            assert(nodes@.take(i + 1).last() == nodes@[i as int]);
        }
        index.insert(nodes[i].o_idx, nodes[i].id);
        i += 1;
    }
    assert(nodes@.take(nodes.len() as int) =~= nodes@);
}

/// The counts of a cluster jewel that decide which positions its notables
/// and small passives take.
#[derive(Debug, Clone, Copy)]
pub struct SlotRule {
    /// Whether the jewel is of medium size.
    pub medium: bool,
    /// Whether small passives are placed, not notables.
    pub for_smalls: bool,
    pub sockets: usize,
    pub notables: usize,
    /// How many notables, sockets and small passives the jewel has.
    pub count: usize,
}

impl SlotRule {
    /// The position that is taken in place of a position of the layout. Only
    /// a medium jewel departs from its layout. With two notables and no
    /// socket its notables go to 4 for 6 and to 8 for 10; with four nodes
    /// they go to 9 for 10 and to 3 for 2. Its small passives go to 3 for 4
    /// with five nodes, and to 9 for 8 and to 3 for 4 with four.
    pub open spec fn slot(self, n: i32) -> i32 {
        if !self.medium {
            n
        } else if self.for_smalls {
            if self.count == 5 && n == 4 {
                3
            } else if self.count == 4 {
                if n == 8 {
                    9
                } else if n == 4 {
                    3
                } else {
                    n
                }
            } else {
                n
            }
        } else if self.sockets == 0 && self.notables == 2 {
            if n == 6 {
                4
            } else if n == 10 {
                8
            } else {
                n
            }
        } else if self.count == 4 {
            if n == 10 {
                9
            } else if n == 2 {
                3
            } else {
                n
            }
        } else {
            n
        }
    }

    /// The position that is taken in place of a position of the layout.
    pub fn slot_of(&self, n: i32) -> (r: i32)
        ensures
            r == self.slot(n),
    {
        if !self.medium {
            n
        } else if self.for_smalls {
            if self.count == 5 && n == 4 {
                3
            } else if self.count == 4 {
                if n == 8 {
                    9
                } else if n == 4 {
                    3
                } else {
                    n
                }
            } else {
                n
            }
        } else if self.sockets == 0 && self.notables == 2 {
            if n == 6 {
                4
            } else if n == 10 {
                8
            } else {
                n
            }
        } else if self.count == 4 {
            if n == 10 {
                9
            } else if n == 2 {
                3
            } else {
                n
            }
        } else {
            n
        }
    }
}

/// The positions that are picked from those of a layout, in its order: each
/// position is replaced as the rule says and picked unless it is taken,
/// until `limit` positions are picked.
pub open spec fn picked(list: Seq<i32>, rule: SlotRule, taken: Set<i32>, limit: int) -> Seq<i32>
    decreases list.len(),
{
    if list.len() == 0 {
        seq![]
    } else {
        let before = picked(list.drop_last(), rule, taken, limit);
        if before.len() >= limit || taken.contains(rule.slot(list.last())) {
            before
        } else {
            before.push(rule.slot(list.last()))
        }
    }
}

/// Picks up to `limit` positions of a layout that the table does not hold.
pub fn pick_slots(list: &Vec<i32>, rule: &SlotRule, taken: &HashMap<i32, i32>, limit: usize) -> (r:
    Vec<i32>)
    ensures
        r@ == picked(list@, *rule, taken@.dom(), limit as int),
        r.len() <= limit,
{
    broadcast use vstd::std_specs::hash::group_hash_axioms;

    let mut out: Vec<i32> = Vec::new();
    let mut i: usize = 0;
    assert(list@.take(0) =~= Seq::<i32>::empty());
    while i < list.len()
        invariant
            i <= list.len(),
            out@ == picked(list@.take(i as int), *rule, taken@.dom(), limit as int),
            out.len() <= limit,
        decreases list.len() - i,
    {
        proof {
            assert(list@.take(i + 1).drop_last() =~= list@.take(i as int));
            assert(list@.take(i + 1).last() == list@[i as int]);
        }
        if out.len() < limit {
            let n = rule.slot_of(list[i]);
            if !taken.contains_key(&n) {
                out.push(n);
            }
        }
        i += 1;
    }
    assert(list@.take(list.len() as int) =~= list@);
    out
}

/// Whether a number fits an `i32`.
pub open spec fn fits_i32(n: int) -> bool {
    i32::MIN <= n <= i32::MAX
}

/// The nodes that take the picked positions: the position added to the
/// jewel's first id gives the node's id. `None` where an id does not fit.
pub open spec fn slot_nodes(first_id: int, picks: Seq<i32>) -> Option<Seq<ClusterJewelNode>> {
    if forall|i: int| 0 <= i < picks.len() ==> fits_i32(first_id + #[trigger] picks[i]) {
        Some(
            Seq::new(
                picks.len(),
                |i: int| ClusterJewelNode { id: (first_id + picks[i]) as i32, o_idx: picks[i] },
            ),
        )
    } else {
        None
    }
}

/// The nodes that take the picked positions.
pub fn make_slot_nodes(first_id: i32, picks: &Vec<i32>) -> (r: Option<Vec<ClusterJewelNode>>)
    ensures
        match r {
            Some(nodes) => slot_nodes(first_id as int, picks@) == Some(nodes@),
            None => slot_nodes(first_id as int, picks@) is None,
        },
{
    let mut nodes: Vec<ClusterJewelNode> = Vec::new();
    let mut i: usize = 0;
    while i < picks.len()
        invariant
            i <= picks.len(),
            nodes.len() == i,
            forall|j: int| 0 <= j < i ==> fits_i32(first_id + #[trigger] picks@[j]),
            forall|j: int|
                0 <= j < i ==> (#[trigger] nodes@[j]) == (ClusterJewelNode {
                    id: (first_id + picks@[j]) as i32,
                    o_idx: picks@[j],
                }),
        decreases picks.len() - i,
    {
        let id = first_id as i64 + picks[i] as i64;
        if id < -0x8000_0000 || id > 0x7fff_ffff {
            assert(!fits_i32(first_id + picks@[i as int]));
            return None;
        }
        nodes.push(ClusterJewelNode { id: id as i32, o_idx: picks[i] });
        i += 1;
    }
    assert(nodes@ =~= Seq::new(
        picks@.len(),
        |i: int| ClusterJewelNode { id: (first_id + picks@[i]) as i32, o_idx: picks@[i] },
    ));
    Some(nodes)
}

/// Where a node of a cluster jewel lies on the ring of the tree around the
/// jewel's proxy node: its position on the jewel's ring is turned by that of
/// the proxy node, as the jewel's ring counts, and moved to the tree's ring.
/// `None` where the jewel's ring is empty, the turned position is negative
/// or the position cannot be moved.
pub open spec fn placed_at(o_idx: int, anchor: int, total: int, per_orbit: int) -> Option<i32> {
    if total > 0 && o_idx + anchor >= 0 && oidx_translatable(
        (o_idx + anchor) % total,
        total,
        per_orbit,
    ) {
        Some(translated_oidx((o_idx + anchor) % total, total, per_orbit) as i32)
    } else {
        None
    }
}

/// Where the nodes of a cluster jewel lie on the ring of the tree, or `None`
/// where one of them has no place.
pub open spec fn placements(
    nodes: Seq<ClusterJewelNode>,
    anchor: int,
    total: int,
    per_orbit: int,
) -> Option<Seq<i32>> {
    if forall|i: int|
        0 <= i < nodes.len() ==> placed_at(
            (#[trigger] nodes[i]).o_idx as int,
            anchor,
            total,
            per_orbit,
        ) is Some {
        Some(
            Seq::new(
                nodes.len(),
                |i: int| placed_at(nodes[i].o_idx as int, anchor, total, per_orbit)->0,
            ),
        )
    } else {
        None
    }
}

/// Where the nodes of a cluster jewel lie on the ring of the tree.
pub fn find_places(nodes: &Vec<ClusterJewelNode>, anchor: i32, total: i32, per_orbit: i32) -> (r:
    Option<Vec<i32>>)
    ensures
        match r {
            Some(places) => placements(nodes@, anchor as int, total as int, per_orbit as int)
                == Some(places@),
            None => placements(nodes@, anchor as int, total as int, per_orbit as int) is None,
        },
{
    let mut places: Vec<i32> = Vec::new();
    let mut i: usize = 0;
    while i < nodes.len()
        invariant
            i <= nodes.len(),
            places.len() == i,
            forall|j: int|
                0 <= j < i ==> placed_at(
                    (#[trigger] nodes@[j]).o_idx as int,
                    anchor as int,
                    total as int,
                    per_orbit as int,
                ) == Some(places@[j]),
        decreases nodes.len() - i,
    {
        let turned = nodes[i].o_idx as i64 + anchor as i64;
        if total <= 0 || turned < 0 {
            assert(placed_at(
                nodes@[i as int].o_idx as int,
                anchor as int,
                total as int,
                per_orbit as int,
            ) is None);
            return None;
        }
        let on_ring = (turned % (total as i64)) as i32;
        if !can_translate_oidx(on_ring, total, per_orbit) {
            assert(placed_at(
                nodes@[i as int].o_idx as int,
                anchor as int,
                total as int,
                per_orbit as int,
            ) is None);
            return None;
        }
        places.push(translate_oidx(on_ring, total, per_orbit));
        i += 1;
    }
    assert(places@ =~= Seq::new(
        nodes@.len(),
        |i: int|
            placed_at(nodes@[i].o_idx as int, anchor as int, total as int, per_orbit as int)->0,
    ));
    Some(places)
}

/// The table after the first `n` nodes are entered under their places on
/// the ring of the tree.
pub open spec fn placed(
    start: Map<i32, i32>,
    nodes: Seq<ClusterJewelNode>,
    places: Seq<i32>,
    n: int,
) -> Map<i32, i32>
    decreases n,
{
    if n <= 0 {
        start
    } else {
        placed(start, nodes, places, n - 1).insert(places[n - 1], nodes[n - 1].id)
    }
}

/// Enters each node into the table under its place on the ring of the tree.
pub fn index_places(index: &mut HashMap<i32, i32>, nodes: &Vec<ClusterJewelNode>, places: &Vec<i32>)
    requires
        places.len() == nodes.len(),
    ensures
        final(index)@ == placed(old(index)@, nodes@, places@, nodes.len() as int),
{
    broadcast use vstd::std_specs::hash::group_hash_axioms;

    let mut i: usize = 0;
    while i < nodes.len()
        invariant
            i <= nodes.len(),
            places.len() == nodes.len(),
            index@ == placed(old(index)@, nodes@, places@, i as int),
        decreases nodes.len() - i,
    {
        index.insert(places[i], nodes[i].id);
        i += 1;
    }
}

/// The tree nodes that the members enable, and what is left of the nodes
/// that await a cluster jewel: a member that is awaited enables the node at
/// its ring position, if the table holds one, and is awaited no longer.
pub open spec fn collected(members: Seq<Member>, index: Map<i32, i32>, awaited: Set<i32>) -> (
    Seq<i32>,
    Set<i32>,
)
    decreases members.len(),
{
    if members.len() == 0 {
        (seq![], awaited)
    } else {
        let before = collected(members.drop_last(), index, awaited);
        let member = members.last();
        (
            if before.1.contains(member.id) && index.contains_key(member.orbit_index) {
                before.0.push(index[member.orbit_index])
            } else {
                before.0
            },
            before.1.remove(member.id),
        )
    }
}

/// Collects the tree nodes that the members enable and takes the members
/// out of the nodes that await a cluster jewel.
pub fn collect_enabled(
    members: &Vec<Member>,
    index: &HashMap<i32, i32>,
    awaited: &mut HashSet<i32>,
) -> (enabled: Vec<i32>)
    ensures
        enabled@ == collected(members@, index@, old(awaited)@).0,
        final(awaited)@ == collected(members@, index@, old(awaited)@).1,
{
    broadcast use vstd::std_specs::hash::group_hash_axioms;

    let mut enabled: Vec<i32> = Vec::new();
    let mut i: usize = 0;
    assert(members@.take(0) =~= Seq::<Member>::empty());
    while i < members.len()
        invariant
            i <= members.len(),
            enabled@ == collected(members@.take(i as int), index@, old(awaited)@).0,
            awaited@ == collected(members@.take(i as int), index@, old(awaited)@).1,
        decreases members.len() - i,
    {
        proof {
            assert(members@.take(i + 1).drop_last() =~= members@.take(i as int));
            assert(members@.take(i + 1).last() == members@[i as int]);
        }
        let id = members[i].id;
        if awaited.contains(&id) {
            match index.get(&members[i].orbit_index) {
                Some(node) => {
                    enabled.push(*node);
                },
                None => {},
            }
        }
        awaited.remove(&id);
        i += 1;
    }
    assert(members@.take(members.len() as int) =~= members@);
    enabled
}

/// The sockets that await a smaller jewel, by proxy node, after those among
/// the members are entered: each with the first id of the jewel it belongs
/// to and with what it takes.
pub open spec fn registered(
    sockets: Map<i32, (i32, ExpansionJewel)>,
    members: Seq<Member>,
    base: i32,
) -> Map<i32, (i32, ExpansionJewel)>
    decreases members.len(),
{
    if members.len() == 0 {
        sockets
    } else {
        match members.last().role {
            Role::Socket(socket) => registered(sockets, members.drop_last(), base).insert(
                socket.proxy,
                (base, socket.jewel),
            ),
            _ => registered(sockets, members.drop_last(), base),
        }
    }
}

/// Enters the jewel sockets among the members into the sockets that await
/// a smaller jewel.
pub fn register_sockets(
    sockets: &mut HashMap<i32, (i32, ExpansionJewel)>,
    members: &Vec<Member>,
    base: i32,
)
    ensures
        final(sockets)@ == registered(old(sockets)@, members@, base),
{
    broadcast use vstd::std_specs::hash::group_hash_axioms;

    let mut i: usize = 0;
    assert(members@.take(0) =~= Seq::<Member>::empty());
    while i < members.len()
        invariant
            i <= members.len(),
            sockets@ == registered(old(sockets)@, members@.take(i as int), base),
        decreases members.len() - i,
    {
        proof {
            assert(members@.take(i + 1).drop_last() =~= members@.take(i as int));
            assert(members@.take(i + 1).last() == members@[i as int]);
        }
        match &members[i].role {
            Role::Socket(socket) => {
                sockets.insert(socket.proxy, (base, copy_jewel(&socket.jewel)));
            },
            _ => {},
        }
        i += 1;
    }
    assert(members@.take(members.len() as int) =~= members@);
}

} // verus!
