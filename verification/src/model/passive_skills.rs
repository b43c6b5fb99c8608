//! Passive skills of a character: allocated nodes, socketed jewels and the
//! subgraphs that cluster jewels add to the tree.

use super::items;
use indexmap::IndexMap;
use crate::search::first_match;
use vstd::prelude::*;

verus! {

/// The insertion-ordered hash map of the `indexmap` crate. Verus sees
/// nothing inside a value of it.
#[verifier::external_type_specification]
#[verifier::external_body]
#[verifier::reject_recursive_types(K)]
#[verifier::reject_recursive_types(V)]
#[verifier::reject_recursive_types(S)]
pub struct ExIndexMap<K, V, S>(IndexMap<K, V, S>);

/// The passive skills of a character.
#[derive(Debug)]
pub struct PassiveSkills {
    pub character: i32,
    pub ascendancy: i32,
    pub alternate_ascendancy: i32,
    pub hashes: Vec<i32>,
    pub hashes_ex: Vec<i32>,
    pub mastery_effects: MasteryEffects,
    pub skill_overrides: IndexMap<i32, SkillOverride>,
    pub items: Vec<items::Item>,
    pub jewel_data: IndexMap<i32, JewelData>,
}

/// The mastery effects of a character, which arrive either keyed by node or
/// as a plain list.
#[derive(Debug)]
pub enum MasteryEffects {
    Table(IndexMap<i32, i32>),
    Arr(Vec<i32>),
}

/// What a socketed jewel adds to the tree.
#[derive(Debug)]
pub struct JewelData {
    pub type_v: String,
    pub subgraph: Option<SubGraph>,
}

/// The nodes that a cluster jewel adds, and the groups they form.
#[derive(Debug)]
pub struct SubGraph {
    pub groups: IndexMap<String, Expansion>,
    pub nodes: IndexMap<i32, Node>,
}

/// A group of added nodes.
#[derive(Debug)]
pub struct Expansion {
    pub nodes: Vec<String>,
    pub proxy: String,
}

/// A node that a cluster jewel adds.
#[derive(Debug)]
pub struct Node {
    pub is_notable: Option<bool>,
    pub is_jewel_socket: Option<bool>,
    pub is_mastery: Option<bool>,
    pub expansion_jewel: Option<ExpansionJewel>,
    pub skill: String,
    pub orbit_index: i32,
}

/// The jewel socket that a node offers: which size it takes, its index among
/// the sockets of its parent, and the node that stands proxy for it.
#[derive(Debug)]
pub struct ExpansionJewel {
    pub size: i32,
    pub index: i32,
    pub proxy: String,
}

/// A node whose skill was replaced.
#[derive(Debug)]
pub struct SkillOverride {
    pub name: String,
    pub is_keystone: Option<bool>,
}

/// The entries of a table of mastery effects, in insertion order.
pub uninterp spec fn effect_entries(m: IndexMap<i32, i32>) -> Seq<(i32, i32)>;

/// `IndexMap::len`: the number of entries.
#[verifier::external_body]
pub(crate) fn effect_count(m: &IndexMap<i32, i32>) -> (n: usize)
    ensures
        n == effect_entries(*m).len(),
{
    m.len()
}

/// `IndexMap::get_index`: the entry at a position in insertion order.
#[verifier::external_body]
pub(crate) fn effect_at(m: &IndexMap<i32, i32>, i: usize) -> (e: (i32, i32))
    requires
        i < effect_entries(*m).len(),
    ensures
        e == effect_entries(*m)[i as int],
{
    let (k, v) = m.get_index(i).unwrap();
    (*k, *v)
}

/// The jewels of a character with what each adds to the tree, by the
/// position of the jewel's socket, in insertion order.
pub uninterp spec fn jewel_entries(m: IndexMap<i32, JewelData>) -> Seq<(i32, JewelData)>;

/// `IndexMap::len`: the number of entries.
#[verifier::external_body]
pub(crate) fn jewel_count(m: &IndexMap<i32, JewelData>) -> (n: usize)
    ensures
        n == jewel_entries(*m).len(),
{
    m.len()
}

/// `IndexMap::get_index`: the entry at a position in insertion order.
#[verifier::external_body]
pub(crate) fn jewel_at(m: &IndexMap<i32, JewelData>, i: usize) -> (e: (i32, &JewelData))
    requires
        i < jewel_entries(*m).len(),
    ensures
        e.0 == jewel_entries(*m)[i as int].0,
        *e.1 == jewel_entries(*m)[i as int].1,
{
    let (k, v) = m.get_index(i).unwrap();
    (*k, v)
}

/// The groups of a subgraph by name, in insertion order.
pub uninterp spec fn group_entries(m: IndexMap<String, Expansion>) -> Seq<(Seq<char>, Expansion)>;

/// The condition that an entry has the name `name`.
pub open spec fn named(name: Seq<char>) -> spec_fn((Seq<char>, Expansion)) -> bool {
    |entry: (Seq<char>, Expansion)| entry.0 == name
}

/// The group of a name among the entries of a subgraph.
pub open spec fn group_of(entries: Seq<(Seq<char>, Expansion)>, name: Seq<char>) -> Option<
    Expansion,
> {
    match first_match(entries, named(name)) {
        Some(i) => Some(entries[i].1),
        None => None,
    }
}

/// `IndexMap::get`: the value stored for a key, or `None` where the map has
/// no such key.
#[verifier::external_body]
pub(crate) fn group_named<'a>(m: &'a IndexMap<String, Expansion>, name: &str) -> (r: Option<
    &'a Expansion,
>)
    ensures
        match r {
            Some(group) => group_of(group_entries(*m), name@) == Some(*group),
            None => group_of(group_entries(*m), name@) is None,
        },
{
    m.get(name)
}

/// The nodes of a subgraph by id, in insertion order.
pub uninterp spec fn node_entries(m: IndexMap<i32, Node>) -> Seq<(i32, Node)>;

/// The condition that an entry is that of the node `id`.
pub open spec fn has_id(id: i32) -> spec_fn((i32, Node)) -> bool {
    |entry: (i32, Node)| entry.0 == id
}

/// The node of an id among the entries of a subgraph.
pub open spec fn node_of(entries: Seq<(i32, Node)>, id: i32) -> Option<Node> {
    match first_match(entries, has_id(id)) {
        Some(i) => Some(entries[i].1),
        None => None,
    }
}

/// `IndexMap::len`: the number of entries.
#[verifier::external_body]
pub(crate) fn node_count(m: &IndexMap<i32, Node>) -> (n: usize)
    ensures
        n == node_entries(*m).len(),
{
    m.len()
}

/// `IndexMap::get`: the value stored for a key, or `None` where the map has
/// no such key.
#[verifier::external_body]
pub(crate) fn node_with_id<'a>(m: &'a IndexMap<i32, Node>, id: i32) -> (r: Option<&'a Node>)
    ensures
        match r {
            Some(node) => node_of(node_entries(*m), id) == Some(*node),
            None => node_of(node_entries(*m), id) is None,
        },
{
    m.get(&id)
}

/// The replaced skills of a character by node, in insertion order.
pub uninterp spec fn override_entries(m: IndexMap<i32, SkillOverride>) -> Seq<(i32, SkillOverride)>;

/// `IndexMap::len`: the number of entries.
#[verifier::external_body]
pub(crate) fn override_count(m: &IndexMap<i32, SkillOverride>) -> (n: usize)
    ensures
        n == override_entries(*m).len(),
{
    m.len()
}

/// `IndexMap::get_index`: the entry at a position in insertion order.
#[verifier::external_body]
pub(crate) fn override_at(m: &IndexMap<i32, SkillOverride>, i: usize) -> (e: (i32, &SkillOverride))
    requires
        i < override_entries(*m).len(),
    ensures
        e.0 == override_entries(*m)[i as int].0,
        *e.1 == override_entries(*m)[i as int].1,
{
    let (k, v) = m.get_index(i).unwrap();
    (*k, v)
}

/// `IndexMap::get_index_mut`: gives the name of the entry at a position a
/// new value. The entry's key and place, its other fields and all other
/// entries stay as they are.
#[verifier::external_body]
pub(crate) fn override_rename(m: &mut IndexMap<i32, SkillOverride>, i: usize, name: String)
    requires
        i < override_entries(*old(m)).len(),
    ensures
        override_entries(*final(m)) == override_entries(*old(m)).update(
            i as int,
            (
                override_entries(*old(m))[i as int].0,
                SkillOverride {
                    name,
                    is_keystone: override_entries(*old(m))[i as int].1.is_keystone,
                },
            ),
        ),
{
    m.get_index_mut(i).unwrap().1.name = name;
}

impl MasteryEffects {
    /// The mastery effects as (node, effect) pairs: the entries of a table,
    /// and nothing for a plain list.
    pub open spec fn pairs(self) -> Seq<(i32, i32)> {
        match self {
            MasteryEffects::Table(effects) => effect_entries(effects),
            MasteryEffects::Arr(_) => seq![],
        }
    }

    /// The number of keyed mastery effects: that of the entries of a table,
    /// and zero for a plain list.
    pub fn len(&self) -> (n: usize)
        ensures
            n == self.pairs().len(),
    {
        match self {
            MasteryEffects::Table(effects) => effect_count(effects),
            MasteryEffects::Arr(_) => 0,
        }
    }
}

} // verus!
