//! Nodes of type statements, and the values of range expressions.
use vstd::prelude::*;
use crate::node::Node;

verus! {

#[derive(Debug, PartialEq, Eq, Structural, Clone, Copy)]
pub enum TypeKind {
    Ynone,
    Yint8,
    Yint16,
    Yint32,
    Yint64,
    Yuint8,
    Yuint16,
    Yuint32,
    Yuint64,
}

#[derive(Debug, PartialEq)]
pub struct TypeNode {
    pub kind: TypeKind,
    pub name: String,
}

impl Default for TypeNode {
    fn default() -> (r: Self)
        ensures
            r.kind == TypeKind::Ynone,
            r.name@.len() == 0,
    {
        TypeNode { kind: TypeKind::Ynone, name: String::new() }
    }
}

impl TypeNode {
    /// A type node of the given kind, with an empty name.
    pub fn new(kind: TypeKind) -> (r: Self)
        ensures
            r.kind == kind,
            r.name@ == Seq::<char>::empty(),
    {
        TypeNode { kind, name: String::new() }
    }

    /// Matching a value against a type is not performed: this accepts any text.
    pub fn match_with(_str: &str) {
    }
}

/// A typedef: its name and the type-constraint node found among its substatements.
#[derive(Debug, PartialEq)]
pub struct TypedefNode {
    pub name: String,
    pub typ: Option<Node>,
}

impl TypedefNode {
    pub fn new(name: String, typ: Option<Node>) -> (r: Self)
        ensures
            r.name == name,
            r.typ == typ,
    {
        TypedefNode { name, typ }
    }
}

#[derive(Debug, PartialEq)]
pub struct ValueNode {
    pub name: String,
    pub nodes: (),
}

#[derive(Debug)]
pub struct Uint8Node {
    pub name: String,
}

#[derive(Debug, PartialEq)]
pub struct EnumNode {
    pub name: String,
    pub nodes: (Vec<Node>,),
}

#[derive(Debug, PartialEq, Eq, Structural, Clone, Copy)]
pub enum IntVal {
    Min,
    Max,
    Val(i64),
}

#[derive(Debug, PartialEq, Eq, Structural, Clone, Copy)]
pub enum UintVal {
    Min,
    Max,
    Val(u64),
}

/// One end of a range: the type's minimum, its maximum, a literal, or no value
/// (`Absent`, the end of a single-value range).
#[derive(Debug, PartialEq, Eq, Structural, Clone, Copy)]
pub enum RangeVal<T> {
    Min,
    Max,
    Val(T),
    Absent,
}

pub trait Apply {
    fn apply(self, input: &'static str) -> bool;
}

impl<T> Apply for RangeVal<T> {
    /// No value is checked against a range: every input is accepted.
    fn apply(self, _input: &'static str) -> (r: bool) {
        true
    }
}

/// A range `start..end`; an `end` of `RangeVal::Absent` marks a single value.
#[derive(Debug, PartialEq, Eq, Structural, Clone, Copy)]
pub struct Range<T> {
    pub start: RangeVal<T>,
    pub end: RangeVal<T>,
}

#[derive(Debug, PartialEq, Eq, Structural, Clone, Copy)]
pub struct RangeInt {
    pub start: RangeVal<i64>,
    pub end: RangeVal<i64>,
}

#[derive(Debug, PartialEq, Eq, Structural, Clone, Copy)]
pub struct RangeUint {
    pub start: RangeVal<u64>,
    pub end: RangeVal<u64>,
}

#[derive(Debug, PartialEq)]
pub struct RangeIntNode {
    pub name: String,
    pub nodes: (Vec<RangeInt>,),
}

#[derive(Debug, PartialEq)]
pub struct RangeUintNode {
    pub name: String,
    pub nodes: (Vec<RangeUint>,),
}

#[derive(Debug, PartialEq)]
pub struct EnumerationNode {
    pub name: String,
    pub nodes: (Vec<Node>,),
    pub min: i32,
    pub max: i32,
}

impl EnumerationNode {
    pub fn new(nodes: Vec<Node>) -> (r: Self)
        ensures
            r.name@ == Seq::<char>::empty(),
            r.nodes.0 == nodes,
            r.min == 0,
            r.max == 0,
    {
        EnumerationNode { name: String::new(), nodes: (nodes,), min: 0, max: 0 }
    }
}

#[derive(Debug, PartialEq)]
pub struct DefaultNode {
    pub name: String,
}

#[derive(Debug, PartialEq)]
pub struct BaseNode {
    pub name: String,
}

#[derive(Debug)]
pub struct YangType {
    pub name: String,
    pub kind: TypeKind,
}

impl Default for YangType {
    fn default() -> (r: Self)
        ensures
            r.kind == TypeKind::Ynone,
            r.name@.len() == 0,
    {
        YangType { name: String::new(), kind: TypeKind::Ynone }
    }
}

impl YangType {
    pub fn new(kind: TypeKind) -> (r: Self)
        ensures
            r.kind == kind,
            r.name@.len() == 0,
    {
        YangType { name: String::new(), kind }
    }
}

} // verus!
