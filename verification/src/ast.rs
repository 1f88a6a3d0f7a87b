//! The syntax tree that the assembler expands and commits.
//!
//! A tree is made of nodes, each of one of eight kinds and each with an
//! ordered list of children. What the children of a node mean depends on
//! its kind: the arguments of a reference, the statements of a sequence,
//! the flags and operands of an instruction.

use vstd::prelude::*;

verus! {

/// What a node is.
#[derive(Debug, PartialEq, Eq)]
pub enum Kind {
    /// An integer literal.
    Integer(u8),
    /// A bare word that stands for itself and is never looked up: a
    /// register, a flag, or with its operands for children the mnemonic
    /// of an instruction or the `@` of a position statement.
    Identifier(String),
    /// A reference to a symbol; the node's children are the arguments.
    Call(String),
    /// A sequence of statements, the node's children.
    Sequence,
    /// The declaration of a label at the current position.
    Label(String),
    /// The definition of a macro. The body is kept apart from the node's
    /// children: it is stored, not evaluated.
    Definition { name: String, params: Vec<String>, body: Box<Node> },
    /// A (bank, address) pair packed into sixteen bits, bank high.
    Location(u16),
    /// No value.
    Void,
}

/// A node of the tree. The order of the children is the order in which
/// they are evaluated.
#[derive(Debug, PartialEq, Eq)]
pub struct Node {
    pub kind: Kind,
    pub children: Vec<Node>,
}

/// The mathematical value of a `Kind`.
pub ghost enum KindModel {
    Integer(u8),
    Identifier(Seq<char>),
    Call(Seq<char>),
    Sequence,
    Label(Seq<char>),
    Definition { name: Seq<char>, params: Seq<Seq<char>>, body: Box<NodeModel> },
    Location(u16),
    Void,
}

/// The mathematical value of a `Node`.
pub ghost struct NodeModel {
    pub kind: KindModel,
    pub children: Seq<NodeModel>,
}

impl NodeModel {
    /// A node without children.
    pub open spec fn leaf(kind: KindModel) -> NodeModel {
        NodeModel { kind, children: Seq::empty() }
    }
}

/// The texts of a list of names.
pub open spec fn names_view(names: Seq<String>) -> Seq<Seq<char>> {
    Seq::new(names.len(), |i: int| names[i]@)
}

/// The values of a list of nodes.
pub open spec fn nodes_view(nodes: Seq<Node>) -> Seq<NodeModel> {
    Seq::new(nodes.len(), |i: int| nodes[i]@)
}

/// The location of `addr` in `bank`: the bank is the high byte.
pub open spec fn pack(bank: u8, addr: u8) -> u16 {
    (bank as int * 256 + addr as int) as u16
}

/// The bank of a location: its high byte.
pub open spec fn bank_of(location: u16) -> u8 {
    (location / 256) as u8
}

/// The address of a location within its bank: its low byte.
pub open spec fn address_of(location: u16) -> u8 {
    (location % 256) as u8
}

/// The location of `addr` in `bank`.
pub fn pack_location(bank: u8, addr: u8) -> (location: u16)
    ensures
        location == pack(bank, addr),
        bank_of(location) == bank,
        address_of(location) == addr,
{
    (bank as u16) * 256 + (addr as u16)
}

/// The bank of a location.
pub fn location_bank(location: u16) -> (bank: u8)
    ensures
        bank == bank_of(location),
{
    (location / 256) as u8
}

/// The address of a location within its bank.
pub fn location_address(location: u16) -> (addr: u8)
    ensures
        addr == address_of(location),
{
    (location % 256) as u8
}

/// Every location is the pair of its bank and its address.
pub proof fn lemma_location_round_trip(location: u16)
    ensures
        pack(bank_of(location), address_of(location)) == location,
{
}

impl Kind {
    /// A copy of the kind, with the body it may hold.
    pub fn deep_copy(&self) -> (copy: Kind)
        ensures
            copy@ == self@,
        decreases self,
    {
        match self {
            Kind::Integer(value) => Kind::Integer(*value),
            Kind::Identifier(name) => Kind::Identifier(name.clone()),
            Kind::Call(name) => Kind::Call(name.clone()),
            Kind::Sequence => Kind::Sequence,
            Kind::Label(name) => Kind::Label(name.clone()),
            Kind::Definition { name, params, body } => Kind::Definition {
                name: name.clone(),
                params: copy_names(params),
                body: Box::new(body.deep_copy()),
            },
            Kind::Location(location) => Kind::Location(*location),
            Kind::Void => Kind::Void,
        }
    }

    pub open spec fn view(&self) -> KindModel
        decreases self,
    {
        match self {
            Kind::Integer(value) => KindModel::Integer(*value),
            Kind::Identifier(name) => KindModel::Identifier(name@),
            Kind::Call(name) => KindModel::Call(name@),
            Kind::Sequence => KindModel::Sequence,
            Kind::Label(name) => KindModel::Label(name@),
            Kind::Definition { name, params, body } => KindModel::Definition {
                name: name@,
                params: names_view(params@),
                body: Box::new(body.view()),
            },
            Kind::Location(location) => KindModel::Location(*location),
            Kind::Void => KindModel::Void,
        }
    }
}

impl Node {
    pub open spec fn view(&self) -> NodeModel
        decreases self,
    {
        NodeModel {
            kind: self.kind.view(),
            children: Seq::new(
                self.children@.len(),
                |i: int|
                    if 0 <= i < self.children@.len() {
                        self.children@[i].view()
                    } else {
                        NodeModel::leaf(KindModel::Void)
                    },
            ),
        }
    }

    /// The children of a node's value are the values of its children.
    pub proof fn lemma_view_children(&self)
        ensures
            self@.children == nodes_view(self.children@),
            self@.kind == self.kind@,
    {
        assert(self@.children =~= nodes_view(self.children@));
    }

    /// A node of the given kind without children.
    pub fn leaf(kind: Kind) -> (node: Node)
        ensures
            node@ == NodeModel::leaf(kind@),
            node.kind == kind,
            node.children@.len() == 0,
    {
        let node = Node { kind, children: Vec::new() };
        assert(node@.children =~= Seq::<NodeModel>::empty());
        node
    }

    /// A node of the given kind over the given children.
    pub fn new(kind: Kind, children: Vec<Node>) -> (node: Node)
        ensures
            node@ == (NodeModel { kind: kind@, children: nodes_view(children@) }),
            node.kind == kind,
            node.children == children,
    {
        let node = Node { kind, children };
        proof {
            node.lemma_view_children();
        }
        node
    }

    /// A copy of the whole tree.
    pub fn deep_copy(&self) -> (copy: Node)
        ensures
            copy@ == self@,
        decreases self,
    {
        let mut children: Vec<Node> = Vec::new();
        let mut i: usize = 0;
        while i < self.children.len()
            invariant
                i <= self.children@.len(),
                children@.len() == i,
                forall|j: int| 0 <= j < i ==> children@[j]@ == self.children@[j]@,
            decreases self.children@.len() - i,
        {
            let child = self.children[i].deep_copy();
            children.push(child);
            i += 1;
        }
        let kind = self.kind.deep_copy();
        let copy = Node { kind, children };
        assert(copy@.children =~= self@.children);
        copy
    }
}

/// A copy of a list of names.
pub fn copy_names(names: &Vec<String>) -> (copy: Vec<String>)
    ensures
        names_view(copy@) == names_view(names@),
{
    let mut copy: Vec<String> = Vec::new();
    let mut i: usize = 0;
    while i < names.len()
        invariant
            i <= names@.len(),
            copy@.len() == i,
            forall|j: int| 0 <= j < i ==> copy@[j]@ == names@[j]@,
        decreases names@.len() - i,
    {
        copy.push(names[i].clone());
        i += 1;
    }
    assert(names_view(copy@) =~= names_view(names@));
    copy
}

} // verus!
