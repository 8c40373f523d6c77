//! The schema-tree statements that the parser recognises by name only.
use vstd::prelude::*;

verus! {

#[derive(Debug, PartialEq)]
pub struct ContainerNode {
    pub name: String,
}

#[derive(Debug, PartialEq)]
pub struct ListNode {
    pub name: String,
}

#[derive(Debug, PartialEq)]
pub struct KeyNode {
    pub name: String,
}

#[derive(Debug, PartialEq)]
pub struct LeafNode {
    pub name: String,
}

#[derive(Debug, PartialEq)]
pub struct LeafListNode {
    pub name: String,
}

} // verus!
