//! Folding a statement's substatements into the fields of its node.
use vstd::prelude::*;
use crate::node::NodeV;

verus! {

/// The single-text substatements that a statement may take a field from.
pub enum Field {
    Description,
    Reference,
    Prefix,
    RevisionDate,
    Namespace,
    Organization,
    Contact,
    YangVersion,
}

/// The text that node `v` gives field `f`, if it is of the matching kind.
pub open spec fn field_of(f: Field, v: NodeV) -> Option<Seq<char>> {
    match f {
        Field::Description => match v {
            NodeV::Description(d) => Some(d),
            _ => None,
        },
        Field::Reference => match v {
            NodeV::Reference(d) => Some(d),
            _ => None,
        },
        Field::Prefix => match v {
            NodeV::Prefix(d) => Some(d),
            _ => None,
        },
        Field::RevisionDate => match v {
            NodeV::RevisionDate(d) => Some(d),
            _ => None,
        },
        Field::Namespace => match v {
            NodeV::Namespace(d) => Some(d),
            _ => None,
        },
        Field::Organization => match v {
            NodeV::Organization(d) => Some(d),
            _ => None,
        },
        Field::Contact => match v {
            NodeV::Contact(d) => Some(d),
            _ => None,
        },
        Field::YangVersion => match v {
            NodeV::YangVersion(d) => Some(d),
            _ => None,
        },
    }
}

/// The text of the first node in `vs` that gives field `f`.
pub open spec fn find_first(vs: Seq<NodeV>, f: Field) -> Option<Seq<char>>
    decreases vs.len(),
{
    if vs.len() == 0 {
        None
    } else {
        match field_of(f, vs[0]) {
            Some(x) => Some(x),
            None => find_first(vs.subrange(1, vs.len() as int), f),
        }
    }
}

/// The text of the last node in `vs` that gives field `f`.
pub open spec fn find_last(vs: Seq<NodeV>, f: Field) -> Option<Seq<char>>
    decreases vs.len(),
{
    if vs.len() == 0 {
        None
    } else {
        match field_of(f, vs.last()) {
            Some(x) => Some(x),
            None => find_last(vs.drop_last(), f),
        }
    }
}

/// A text field with the empty text as its default.
pub open spec fn or_empty(o: Option<Seq<char>>) -> Seq<char> {
    match o {
        Some(x) => x,
        None => Seq::empty(),
    }
}

} // verus!
