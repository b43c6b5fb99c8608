//! The passive tree of the build.

use super::{join_parts, joined, texts_of, Xml};
use crate::text::{decimal, push_decimal};
use vstd::prelude::*;

verus! {

/// The passive tree.
#[derive(Debug)]
pub struct Tree {
    pub spec: Spec,
}

/// One allocation of the passive tree.
#[derive(Debug)]
pub struct Spec {
    pub tree_version: String,
    pub ascend_class_id: i32,
    pub secondary_ascend_class_id: i32,
    pub class_id: i32,
    pub mastery_effects: Vec<MasteryEffect>,
    pub nodes: Vec<i32>,
    pub sockets: Sockets,
    pub overrides: Overrides,
}

/// The effect chosen at a mastery.
#[derive(Debug)]
pub struct MasteryEffect {
    pub node_id: i32,
    pub effect_id: i32,
}

/// The jewels in the sockets of the tree.
#[derive(Debug)]
pub struct Sockets {
    pub sockets: Vec<Socket>,
}

/// A jewel in a socket of the tree.
#[derive(Debug)]
pub struct Socket {
    node_id: i32,
    item_id: i32,
}

/// The replaced skills of the tree.
#[derive(Debug)]
pub struct Overrides {
    members: Vec<Override>,
}

/// A replaced skill: its name and its node.
#[derive(Debug)]
pub struct Override {
    pub dn: String,
    pub node_id: i32,
}

impl MasteryEffect {
    /// The effect `effect_id` at the mastery `node_id`.
    pub fn new(node_id: i32, effect_id: i32) -> (r: MasteryEffect)
        ensures
            r.node_id == node_id,
            r.effect_id == effect_id,
    {
        MasteryEffect { node_id, effect_id }
    }
}

impl Xml for MasteryEffect {
    open spec fn xml(&self) -> Seq<char> {
        "{"@ + decimal(self.node_id as int) + ","@ + decimal(self.effect_id as int) + "}"@
    }

    fn to_string(&self) -> (text: String) {
        let mut s = "{".to_owned();
        push_decimal(&mut s, self.node_id as i64);
        s.append(",");
        push_decimal(&mut s, self.effect_id as i64);
        s.append("}");
        s
    }
}

impl Socket {
    /// The node of the socket.
    pub closed spec fn node_id(&self) -> i32 {
        self.node_id
    }

    /// The item in the socket.
    pub closed spec fn item_id(&self) -> i32 {
        self.item_id
    }

    /// The item `item_id` in the socket at the node `node_id`.
    pub fn new(node_id: i32, item_id: i32) -> (r: Socket)
        ensures
            r.node_id() == node_id,
            r.item_id() == item_id,
    {
        Socket { node_id, item_id }
    }
}

impl Xml for Socket {
    open spec fn xml(&self) -> Seq<char> {
        "<Socket nodeId=\""@ + decimal(self.node_id() as int) + "\" itemId=\""@ + decimal(
            self.item_id() as int,
        ) + "\"/>"@
    }

    fn to_string(&self) -> (text: String) {
        let mut s = "<Socket nodeId=\"".to_owned();
        push_decimal(&mut s, self.node_id as i64);
        s.append("\" itemId=\"");
        push_decimal(&mut s, self.item_id as i64);
        s.append("\"/>");
        s
    }
}

impl Default for Sockets {
    fn default() -> (r: Self)
        ensures
            r.sockets@.len() == 0,
    {
        Self { sockets: Vec::new() }
    }
}

impl Sockets {
    /// Adds a socket behind the others.
    pub fn push(&mut self, socket: Socket)
        ensures
            final(self).sockets@ == old(self).sockets@.push(socket),
    {
        self.sockets.push(socket);
    }
}

impl Xml for Sockets {
    open spec fn xml(&self) -> Seq<char> {
        "<Sockets>\n"@ + joined(texts_of(self.sockets@), "\n"@, self.sockets.len() as int)
            + "\n</Sockets>"@
    }

    fn to_string(&self) -> (text: String) {
        let mut s = "<Sockets>\n".to_owned();
        let body = join_parts(&self.sockets, "\n");
        s.append(body.as_str());
        s.append("\n</Sockets>");
        s
    }
}

impl Override {
    /// The skill named `dn` at the node `node_id`.
    pub fn new(dn: &str, node_id: i32) -> (r: Override)
        ensures
            r.dn@ == dn@,
            r.node_id == node_id,
    {
        Override { dn: dn.to_owned(), node_id }
    }
}

impl Xml for Override {
    open spec fn xml(&self) -> Seq<char> {
        "<Override dn=\""@ + self.dn@ + "\" nodeId=\""@ + decimal(self.node_id as int)
            + "\">\n</Override>"@
    }

    fn to_string(&self) -> (text: String) {
        let mut s = "<Override dn=\"".to_owned();
        s.append(self.dn.as_str());
        s.append("\" nodeId=\"");
        push_decimal(&mut s, self.node_id as i64);
        s.append("\">\n</Override>");
        s
    }
}

impl Default for Overrides {
    fn default() -> (r: Self)
        ensures
            r.members().len() == 0,
    {
        Self { members: Vec::new() }
    }
}

impl Overrides {
    /// The replaced skills, in the order in which they were added.
    pub closed spec fn members(&self) -> Seq<Override> {
        self.members@
    }

    /// Adds a replaced skill behind the others.
    pub fn push(&mut self, o: Override)
        ensures
            final(self).members() == old(self).members().push(o),
    {
        self.members.push(o);
    }
}

impl Xml for Overrides {
    open spec fn xml(&self) -> Seq<char> {
        "<Overrides>\n"@ + joined(texts_of(self.members()), "\n"@, self.members().len() as int)
            + "\n</Overrides>"@
    }

    fn to_string(&self) -> (text: String) {
        let mut s = "<Overrides>\n".to_owned();
        let body = join_parts(&self.members, "\n");
        s.append(body.as_str());
        s.append("\n</Overrides>");
        s
    }
}

/// The decimal texts of some numbers.
pub open spec fn number_texts(nodes: Seq<i32>) -> Seq<Seq<char>> {
    Seq::new(nodes.len(), |i: int| decimal(nodes[i] as int))
}

/// Writes some numbers with commas between them.
pub fn join_numbers(nodes: &Vec<i32>) -> (r: String)
    ensures
        r@ == joined(number_texts(nodes@), ","@, nodes.len() as int),
{
    let mut r = String::new();
    let mut i: usize = 0;
    while i < nodes.len()
        invariant
            i <= nodes.len(),
            r@ == joined(number_texts(nodes@), ","@, i as int),
        decreases nodes.len() - i,
    {
        if i > 0 {
            r.append(",");
        }
        push_decimal(&mut r, nodes[i] as i64);
        assert(Seq::<char>::empty() + decimal(nodes@[i as int] as int) =~= decimal(
            nodes@[i as int] as int,
        ));
        i += 1;
    }
    r
}

impl Default for Spec {
    fn default() -> (r: Self)
        ensures
            r.tree_version@ == "3_25"@,
            r.ascend_class_id == 0,
            r.secondary_ascend_class_id == 0,
            r.class_id == 0,
            r.mastery_effects@.len() == 0,
            r.nodes@.len() == 0,
            r.sockets.sockets@.len() == 0,
            r.overrides.members().len() == 0,
    {
        Self {
            tree_version: "3_25".to_owned(),
            ascend_class_id: 0,
            secondary_ascend_class_id: 0,
            class_id: 0,
            mastery_effects: Vec::new(),
            nodes: Vec::new(),
            sockets: Sockets::default(),
            overrides: Overrides::default(),
        }
    }
}

impl Xml for Spec {
    open spec fn xml(&self) -> Seq<char> {
        "<Spec treeVersion=\""@ + self.tree_version@ + "\" ascendClassId=\""@ + decimal(
            self.ascend_class_id as int,
        ) + "\" secondaryAscendClassId=\""@ + decimal(self.secondary_ascend_class_id as int)
            + "\" classId=\""@ + decimal(self.class_id as int) + "\" masteryEffects=\""@ + joined(
            texts_of(self.mastery_effects@),
            ","@,
            self.mastery_effects.len() as int,
        ) + "\" nodes=\""@ + joined(number_texts(self.nodes@), ","@, self.nodes.len() as int)
            + "\">\n"@ + self.sockets.xml() + "\n"@ + self.overrides.xml() + "\n</Spec>"@
    }

    fn to_string(&self) -> (text: String) {
        let mut s = "<Spec treeVersion=\"".to_owned();
        s.append(self.tree_version.as_str());
        s.append("\" ascendClassId=\"");
        push_decimal(&mut s, self.ascend_class_id as i64);
        s.append("\" secondaryAscendClassId=\"");
        push_decimal(&mut s, self.secondary_ascend_class_id as i64);
        s.append("\" classId=\"");
        push_decimal(&mut s, self.class_id as i64);
        s.append("\" masteryEffects=\"");
        let effects = join_parts(&self.mastery_effects, ",");
        s.append(effects.as_str());
        s.append("\" nodes=\"");
        let nodes = join_numbers(&self.nodes);
        s.append(nodes.as_str());
        s.append("\">\n");
        let sockets = self.sockets.to_string();
        s.append(sockets.as_str());
        s.append("\n");
        let overrides = self.overrides.to_string();
        s.append(overrides.as_str());
        s.append("\n</Spec>");
        s
    }
}

impl Default for Tree {
    fn default() -> (r: Self)
        ensures
            r.spec.tree_version@ == "3_25"@,
            r.spec.ascend_class_id == 0,
            r.spec.secondary_ascend_class_id == 0,
            r.spec.class_id == 0,
            r.spec.mastery_effects@.len() == 0,
            r.spec.nodes@.len() == 0,
            r.spec.sockets.sockets@.len() == 0,
            r.spec.overrides.members().len() == 0,
    {
        Self { spec: Spec::default() }
    }
}

impl Xml for Tree {
    open spec fn xml(&self) -> Seq<char> {
        "<Tree activeSpec=\"1\">\n"@ + self.spec.xml() + "\n</Tree>"@
    }

    fn to_string(&self) -> (text: String) {
        let mut s = "<Tree activeSpec=\"1\">\n".to_owned();
        let spec = self.spec.to_string();
        s.append(spec.as_str());
        s.append("\n</Tree>");
        s
    }
}

} // verus!
