//! A parsed module and the nodes of its header statements.
use vstd::prelude::*;
use std::collections::HashMap;
use crate::types::TypedefNode;

verus! {

/// The modules read so far, by prefix.
pub struct Modules {
    pub modules: HashMap<String, Module>,
}

impl Modules {
    pub fn new() -> (r: Self)
        ensures
            r.modules@ == Map::<String, Module>::empty(),
    {
        Modules { modules: HashMap::new() }
    }
}

#[derive(Debug, PartialEq, Eq, Structural, Clone, Copy)]
pub enum YangVersion {
    V1,
    V1_1,
}

impl Default for YangVersion {
    fn default() -> (r: Self)
        ensures
            r == YangVersion::V1,
    {
        YangVersion::V1
    }
}

#[derive(Debug, PartialEq)]
pub struct YangVersionNode {
    pub name: String,
}

/// A module as assembled from its statements.
///
/// `typedefs` holds at most one typedef of each name (see `names_unique`).
#[derive(Debug)]
pub struct Module {
    pub name: String,
    pub namespace: String,
    pub prefix: String,
    pub organization: Option<String>,
    pub contact: Option<String>,
    pub description: Option<String>,
    pub revisions: Vec<RevisionNode>,
    pub typedefs: Vec<TypedefNode>,
    pub yang_version: YangVersion,
    pub imports: Vec<ImportNode>,
    pub includes: Vec<IncludeNode>,
}

impl Module {
    /// An empty module with the given name.
    pub fn new(name: String) -> (r: Self)
        ensures
            r.name@ == name@,
            r.namespace@.len() == 0,
            r.prefix@.len() == 0,
            r.organization is None,
            r.contact is None,
            r.description is None,
            r.revisions@.len() == 0,
            r.typedefs@.len() == 0,
            r.yang_version == YangVersion::V1,
            r.imports@.len() == 0,
            r.includes@.len() == 0,
    {
        Module {
            name,
            namespace: String::new(),
            prefix: String::new(),
            organization: None,
            contact: None,
            description: None,
            revisions: Vec::new(),
            typedefs: Vec::new(),
            yang_version: YangVersion::V1,
            imports: Vec::new(),
            includes: Vec::new(),
        }
    }
}

#[derive(Debug, PartialEq)]
pub struct NamespaceNode {
    pub name: String,
}

#[derive(Debug, PartialEq)]
pub struct PrefixNode {
    pub name: String,
}

impl PrefixNode {
    pub fn new(name: String) -> (r: Self)
        ensures
            r.name == name,
    {
        PrefixNode { name }
    }
}

#[derive(Debug, PartialEq)]
pub struct OrganizationNode {
    pub name: String,
}

#[derive(Debug, PartialEq)]
pub struct ContactNode {
    pub name: String,
}

#[derive(Debug, PartialEq)]
pub struct DescriptionNode {
    pub name: String,
}

#[derive(Debug, PartialEq)]
pub struct ReferenceNode {
    pub name: String,
}

#[derive(Debug, PartialEq)]
pub struct RevisionNode {
    pub name: String,
    pub description: Option<String>,
    pub reference: Option<String>,
}

impl RevisionNode {
    /// A revision of the given date, with no description or reference.
    pub fn new(name: String) -> (r: Self)
        ensures
            r.name == name,
            r.description is None,
            r.reference is None,
    {
        RevisionNode { name, description: None, reference: None }
    }
}

#[derive(Debug, PartialEq)]
pub struct ImportNode {
    pub name: String,
    pub prefix: String,
    pub description: Option<String>,
    pub reference: Option<String>,
    pub revision_date: String,
}

#[derive(Debug, PartialEq)]
pub struct IncludeNode {
    pub name: String,
    pub description: Option<String>,
    pub reference: Option<String>,
}

#[derive(Debug, PartialEq)]
pub struct RevisionDateNode {
    pub name: String,
}

#[derive(Debug, PartialEq)]
pub struct IdentityNode {
    pub name: String,
    pub description: Option<String>,
}

#[derive(Debug, PartialEq)]
pub struct FeatureNode {
    pub name: String,
    pub description: Option<String>,
}

#[derive(Debug, PartialEq)]
pub struct MandatoryNode {
    pub name: String,
    pub mandatory: bool,
}

#[derive(Debug, PartialEq)]
pub struct ConfigNode {
    pub name: String,
    pub config: bool,
}

#[derive(Debug, PartialEq)]
pub struct IfFeatureNode {
    pub name: String,
}

} // verus!
