//! The slots of the build and what sits in them.

use super::{flag_text, join_parts, joined, push_flag, texts_of, Xml};
use crate::text::{decimal, push_decimal, starts_with};
use vstd::prelude::*;

verus! {

/// A set of items, each in its slot.
#[derive(Debug)]
pub struct ItemSet {
    pub use_second_weapon_set: bool,
    pub id: i32,
    pub slots: Vec<SlotItem>,
}

/// What an item set lists: a slot, or the address of a socket.
#[derive(Debug)]
pub enum SlotItem {
    Slot(Slot),
    SocketIdURL(SocketIdURL),
}

/// A slot: its name, and the item or the node in it.
#[derive(Debug)]
pub struct Slot {
    name: String,
    item_pb_url: String,
    item_id: Option<i32>,
    node_id: Option<i32>,
    active: bool,
}

/// The address of a socket.
#[derive(Debug)]
pub struct SocketIdURL {
    node_id: i32,
    name: String,
    item_pb_url: String,
}

impl Slot {
    /// The name of the slot.
    pub closed spec fn name(&self) -> Seq<char> {
        self.name@
    }

    /// The address of the item.
    pub closed spec fn item_pb_url(&self) -> Seq<char> {
        self.item_pb_url@
    }

    /// The item in the slot.
    pub closed spec fn item_id(&self) -> Option<i32> {
        self.item_id
    }

    /// The node in the slot.
    pub closed spec fn node_id(&self) -> Option<i32> {
        self.node_id
    }

    /// Whether the slot is in use.
    pub closed spec fn active(&self) -> bool {
        self.active
    }

    /// The slot of a piece of equipment. A flask is in use.
    pub fn new_equipment(name: &str, item_id: i32) -> (slot: Slot)
        ensures
            slot.name() == name@,
            slot.item_pb_url() == Seq::<char>::empty(),
            slot.item_id() == Some(item_id),
            slot.node_id() is None,
            slot.active() == "Flask "@.is_prefix_of(name@),
    {
        let mut slot = Self::default();
        slot.name = name.to_owned();
        slot.item_id = Some(item_id);
        if starts_with(name, "Flask ") {
            slot.active = true;
        }
        slot
    }

    /// The slot of a jewel in the tree.
    pub fn new_jewel(name: &str, node_id: i32) -> (slot: Slot)
        ensures
            slot.name() == name@,
            slot.item_pb_url() == Seq::<char>::empty(),
            slot.item_id() is None,
            slot.node_id() == Some(node_id),
            !slot.active(),
    {
        let mut slot = Self::default();
        slot.name = name.to_owned();
        slot.node_id = Some(node_id);
        slot
    }
}

impl Default for Slot {
    fn default() -> (r: Self)
        ensures
            r.name() == Seq::<char>::empty(),
            r.item_pb_url() == Seq::<char>::empty(),
            r.item_id() is None,
            r.node_id() is None,
            !r.active(),
    {
        Self {
            name: String::new(),
            item_pb_url: String::new(),
            item_id: None,
            node_id: None,
            active: false,
        }
    }
}

/// An attribute that holds a number, or nothing where there is none.
pub open spec fn number_attr(name: Seq<char>, value: Option<i32>) -> Seq<char> {
    match value {
        Some(n) => name + "=\""@ + decimal(n as int) + "\""@,
        None => Seq::<char>::empty(),
    }
}

fn push_number_attr(out: &mut String, name: &str, value: Option<i32>)
    ensures
        final(out)@ == old(out)@ + number_attr(name@, value),
{
    match value {
        Some(n) => {
            out.append(name);
            out.append("=\"");
            push_decimal(out, n as i64);
            out.append("\"");
            assert(out@ =~= old(out)@ + number_attr(name@, value));
        },
        None => {
            assert(out@ =~= old(out)@ + number_attr(name@, value));
        },
    }
}

impl Xml for Slot {
    open spec fn xml(&self) -> Seq<char> {
        "<Slot itemPbURL=\""@ + self.item_pb_url() + "\" "@ + if self.active() {
            "active=\"true\""@
        } else {
            Seq::<char>::empty()
        } + " name=\""@ + self.name() + "\" "@ + number_attr("itemId"@, self.item_id()) + " "@
            + number_attr("nodeId"@, self.node_id()) + "/>"@
    }

    fn to_string(&self) -> (text: String) {
        let mut s = "<Slot itemPbURL=\"".to_owned();
        s.append(self.item_pb_url.as_str());
        s.append("\" ");
        let ghost head = s@;
        if self.active {
            s.append("active=\"true\"");
        } else {
            assert(head + Seq::<char>::empty() =~= head);
        }
        s.append(" name=\"");
        s.append(self.name.as_str());
        s.append("\" ");
        push_number_attr(&mut s, "itemId", self.item_id);
        s.append(" ");
        push_number_attr(&mut s, "nodeId", self.node_id);
        s.append("/>");
        s
    }
}

impl SocketIdURL {
    /// The node of the socket.
    pub closed spec fn node_id(&self) -> i32 {
        self.node_id
    }

    /// The name of the socket.
    pub closed spec fn name(&self) -> Seq<char> {
        self.name@
    }

    /// The address of the item.
    pub closed spec fn item_pb_url(&self) -> Seq<char> {
        self.item_pb_url@
    }
}

impl Default for SocketIdURL {
    fn default() -> (r: Self)
        ensures
            r.node_id() == 0,
            r.name() == Seq::<char>::empty(),
            r.item_pb_url() == Seq::<char>::empty(),
    {
        Self { node_id: 0, name: String::new(), item_pb_url: String::new() }
    }
}

impl Xml for SocketIdURL {
    open spec fn xml(&self) -> Seq<char> {
        "<SocketIdURL nodeId=\""@ + decimal(self.node_id() as int) + "\" name=\""@ + self.name()
            + "\" itemPbURL=\""@ + self.item_pb_url() + "\"/>"@
    }

    fn to_string(&self) -> (text: String) {
        let mut s = "<SocketIdURL nodeId=\"".to_owned();
        push_decimal(&mut s, self.node_id as i64);
        s.append("\" name=\"");
        s.append(self.name.as_str());
        s.append("\" itemPbURL=\"");
        s.append(self.item_pb_url.as_str());
        s.append("\"/>");
        s
    }
}

impl Xml for SlotItem {
    open spec fn xml(&self) -> Seq<char> {
        match self {
            SlotItem::Slot(slot) => slot.xml(),
            SlotItem::SocketIdURL(url) => url.xml(),
        }
    }

    fn to_string(&self) -> (text: String) {
        match self {
            SlotItem::Slot(slot) => slot.to_string(),
            SlotItem::SocketIdURL(url) => url.to_string(),
        }
    }
}

impl Default for ItemSet {
    fn default() -> (r: Self)
        ensures
            !r.use_second_weapon_set,
            r.id == 1,
            r.slots@.len() == 0,
    {
        Self { use_second_weapon_set: false, id: 1, slots: Vec::new() }
    }
}

impl Xml for ItemSet {
    open spec fn xml(&self) -> Seq<char> {
        "<ItemSet useSecondWeaponSet=\""@ + flag_text(self.use_second_weapon_set) + "\" id=\""@
            + decimal(self.id as int) + "\">\n"@ + joined(
            texts_of(self.slots@),
            "\n"@,
            self.slots.len() as int,
        ) + "\n</ItemSet>"@
    }

    fn to_string(&self) -> (text: String) {
        let mut s = "<ItemSet useSecondWeaponSet=\"".to_owned();
        push_flag(&mut s, self.use_second_weapon_set);
        s.append("\" id=\"");
        push_decimal(&mut s, self.id as i64);
        s.append("\">\n");
        let body = join_parts(&self.slots, "\n");
        s.append(body.as_str());
        s.append("\n</ItemSet>");
        s
    }
}

} // verus!
