//! The outcome of one parsed statement, and its mathematical view.
use vstd::prelude::*;
use crate::container::{ContainerNode, KeyNode, LeafNode, ListNode};
use crate::modules::{
    ContactNode, DescriptionNode, FeatureNode, IdentityNode, ImportNode, IncludeNode, NamespaceNode,
    OrganizationNode, PrefixNode, ReferenceNode, RevisionDateNode, RevisionNode, YangVersionNode,
};
use crate::types::{
    BaseNode, DefaultNode, EnumNode, EnumerationNode, TypeKind, TypeNode, TypedefNode, ValueNode,
};

verus! {

broadcast use vstd::std_specs::vec::axiom_vec_index_decreases;

#[derive(Debug, PartialEq)]
pub enum Node {
    EmptyNode,
    Namespace(Box<NamespaceNode>),
    Prefix(Box<PrefixNode>),
    Organization(Box<OrganizationNode>),
    Contact(Box<ContactNode>),
    Description(Box<DescriptionNode>),
    Reference(Box<ReferenceNode>),
    ValueNode(Box<ValueNode>),
    EnumNode(Box<EnumNode>),
    EnumerationNode(Box<EnumerationNode>),
    Revision(Box<RevisionNode>),
    Typedef(Box<TypedefNode>),
    Type(Box<TypeNode>),
    Default(Box<DefaultNode>),
    Base(Box<BaseNode>),
    YangVersion(Box<YangVersionNode>),
    Import(Box<ImportNode>),
    Include(Box<IncludeNode>),
    RevisionDate(Box<RevisionDateNode>),
    Identity(Box<IdentityNode>),
    Feature(Box<FeatureNode>),
    Leaf(Box<LeafNode>),
    List(Box<ListNode>),
    Container(Box<ContainerNode>),
    Key(Box<KeyNode>),
}

/// A statement's outcome with its texts as character sequences.
pub enum NodeV {
    Empty,
    Namespace(Seq<char>),
    Prefix(Seq<char>),
    Organization(Seq<char>),
    Contact(Seq<char>),
    Description(Seq<char>),
    Reference(Seq<char>),
    Value(Seq<char>),
    Enum(Seq<char>, Seq<NodeV>),
    Enumeration(Seq<char>, Seq<NodeV>, i32, i32),
    /// Date, description, reference.
    Revision(Seq<char>, Option<Seq<char>>, Option<Seq<char>>),
    Typedef(Seq<char>, Option<Box<NodeV>>),
    Type(TypeKind, Seq<char>),
    Default(Seq<char>),
    Base(Seq<char>),
    YangVersion(Seq<char>),
    /// Name, prefix, description, reference, revision date.
    Import(Seq<char>, Seq<char>, Option<Seq<char>>, Option<Seq<char>>, Seq<char>),
    /// Name, description, reference.
    Include(Seq<char>, Option<Seq<char>>, Option<Seq<char>>),
    RevisionDate(Seq<char>),
    /// Name, description.
    Identity(Seq<char>, Option<Seq<char>>),
    /// Name, description.
    Feature(Seq<char>, Option<Seq<char>>),
    Leaf(Seq<char>),
    List(Seq<char>),
    Container(Seq<char>),
    Key(Seq<char>),
}

pub open spec fn opt_view(o: Option<String>) -> Option<Seq<char>> {
    match o {
        Some(s) => Some(s@),
        None => None,
    }
}

pub open spec fn revision_view(r: RevisionNode) -> NodeV {
    NodeV::Revision(r.name@, opt_view(r.description), opt_view(r.reference))
}

pub open spec fn import_view(n: ImportNode) -> NodeV {
    NodeV::Import(n.name@, n.prefix@, opt_view(n.description), opt_view(n.reference), n.revision_date@)
}

pub open spec fn nodes_view(v: Vec<Node>) -> Seq<NodeV>
    decreases v,
{
    Seq::new(
        v.len() as nat,
        |k: int|
            if 0 <= k < v.len() {
                node_view(v[k])
            } else {
                NodeV::Empty
            },
    )
}

pub open spec fn typedef_view(t: TypedefNode) -> NodeV
    decreases t,
{
    NodeV::Typedef(
        t.name@,
        match t.typ {
            Some(n) => Some(Box::new(node_view(n))),
            None => None,
        },
    )
}

pub open spec fn node_view(n: Node) -> NodeV
    decreases n,
{
    match n {
        Node::EmptyNode => NodeV::Empty,
        Node::Namespace(b) => NodeV::Namespace(b.name@),
        Node::Prefix(b) => NodeV::Prefix(b.name@),
        Node::Organization(b) => NodeV::Organization(b.name@),
        Node::Contact(b) => NodeV::Contact(b.name@),
        Node::Description(b) => NodeV::Description(b.name@),
        Node::Reference(b) => NodeV::Reference(b.name@),
        Node::ValueNode(b) => NodeV::Value(b.name@),
        Node::EnumNode(b) => NodeV::Enum(b.name@, nodes_view(b.nodes.0)),
        Node::EnumerationNode(b) => NodeV::Enumeration(b.name@, nodes_view(b.nodes.0), b.min, b.max),
        Node::Revision(b) => revision_view(*b),
        Node::Typedef(b) => typedef_view(*b),
        Node::Type(b) => NodeV::Type(b.kind, b.name@),
        Node::Default(b) => NodeV::Default(b.name@),
        Node::Base(b) => NodeV::Base(b.name@),
        Node::YangVersion(b) => NodeV::YangVersion(b.name@),
        Node::Import(b) => import_view(*b),
        Node::Include(b) => NodeV::Include(b.name@, opt_view(b.description), opt_view(b.reference)),
        Node::RevisionDate(b) => NodeV::RevisionDate(b.name@),
        Node::Identity(b) => NodeV::Identity(b.name@, opt_view(b.description)),
        Node::Feature(b) => NodeV::Feature(b.name@, opt_view(b.description)),
        Node::Leaf(b) => NodeV::Leaf(b.name@),
        Node::List(b) => NodeV::List(b.name@),
        Node::Container(b) => NodeV::Container(b.name@),
        Node::Key(b) => NodeV::Key(b.name@),
    }
}

impl View for Node {
    type V = NodeV;

    open spec fn view(&self) -> NodeV {
        node_view(*self)
    }
}

} // verus!
