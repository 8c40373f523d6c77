use libyang::assembler::yang_parse;
use libyang::container::{ContainerNode, LeafNode, ListNode};
use libyang::modules::{
    DescriptionNode, FeatureNode, IdentityNode, ImportNode, RevisionNode, YangVersion,
};
use libyang::node::Node;
use libyang::revision::{
    revision_date_parse, revision_date_quoted_parse, revision_date_token_parse, revision_parse,
};
use libyang::statements::{
    container_parse, feature_parse, identity_parse, import_parse, leaf_parse, list_parse,
    module_parse, yang_version_parse,
};
use libyang::text::ParseError;
use libyang::types::{
    BaseNode, EnumNode, EnumerationNode, TypeKind, TypeNode, TypedefNode, ValueNode, YangType,
};
use libyang::typestmt::{
    base_parse, default_parse, find_type_node, type_identityref_parse, typedef_parse, types_parse,
    value_parse,
};

#[test]
fn revision_date_parse_test() {
    let revision = "2020-08-10";
    let n = RevisionNode {
        name: String::from("2020-08-10"),
        description: None,
        reference: None,
    };
    let node = Node::Revision(Box::new(n));

    let (_, v) = revision_date_parse(revision).unwrap();
    assert_eq!(v, node);
    let (_, v) = revision_date_token_parse(revision).unwrap();
    assert_eq!(v, node);
}

#[test]
fn revision_date_quoted_parse_test() {
    let revision = "\"2020-08-11\"";
    let n = RevisionNode {
        name: String::from("2020-08-11"),
        description: None,
        reference: None,
    };
    let node = Node::Revision(Box::new(n));

    let (_, v) = revision_date_quoted_parse(revision).unwrap();
    assert_eq!(v, node);
    let (_, v) = revision_date_token_parse(revision).unwrap();
    assert_eq!(v, node);
}

#[test]
fn revision_statement_test() {
    let revision = r#"
        revision 2018-02-20 {
          description
            "Updated to support NMDA.";
          reference
            "RFC 8343: A YANG Data Model for Interface Management";
        }
        "#;

    let n = RevisionNode {
        name: String::from("2018-02-20"),
        description: Some(String::from("Updated to support NMDA.")),
        reference: Some(String::from(
            "RFC 8343: A YANG Data Model for Interface Management",
        )),
    };
    let node = Node::Revision(Box::new(n));

    let (_, v) = revision_parse(revision).unwrap();
    assert_eq!(v, node);
}

#[test]
fn revision_single_statement_test() {
    let revision = r#"
        revision 2018-02-20;
        "#;

    let n = RevisionNode {
        name: String::from("2018-02-20"),
        description: None,
        reference: None,
    };
    let node = Node::Revision(Box::new(n));

    let (_, v) = revision_parse(revision).unwrap();
    assert_eq!(v, node);
}

#[test]
fn quoted_and_bare_dates_give_the_same_node() {
    let (_, bare) = revision_date_token_parse("2020-08-10").unwrap();
    let (_, quoted) = revision_date_token_parse("\"2020-08-10\"").unwrap();
    assert_eq!(bare, quoted);
    assert_eq!(revision_date_parse("2020-8-10"), Err(ParseError {}));
    assert_eq!(revision_date_token_parse("\"2020-08-10"), Err(ParseError {}));
}

#[test]
fn revision_keeps_the_last_description() {
    let text = r#"revision 2020-01-01 { description "a"; description "b"; }"#;
    let (_, v) = revision_parse(text).unwrap();
    let n = RevisionNode {
        name: String::from("2020-01-01"),
        description: Some(String::from("b")),
        reference: None,
    };
    assert_eq!(v, Node::Revision(Box::new(n)));
}

#[test]
fn yang_type() {
    let ytype = YangType::new(TypeKind::Ynone);
    println!("{:?}", ytype);
}

#[test]
fn test_value_parse() {
    let literal = "1a";
    let result = value_parse(literal);
    println!("XXX test_value_parse: {:?}", result);
}

#[test]
fn test_base_parse() {
    let literal = "base if:interface-type;";
    let result = base_parse(literal);
    println!("XXX test_base_parse: {:?}", result);
}

#[test]
fn test_identityref_parse() {
    let literal = r#"
        type identityref {
            base interface-type;
        }"#;
    let result = type_identityref_parse(literal);
    println!("XXX test_identityref_parse: {:?}", result);
}

#[test]
fn value_statement() {
    let v = ValueNode { name: String::from("12"), nodes: () };
    assert_eq!(value_parse(" value 12;"), Ok(("", Node::ValueNode(Box::new(v)))));
    assert_eq!(value_parse("value 1a;"), Err(ParseError {}));
}

#[test]
fn base_keeps_the_local_name() {
    let b = BaseNode { name: String::from("interface-type") };
    assert_eq!(base_parse("base if:interface-type;"), Ok(("", Node::Base(Box::new(b)))));
}

#[test]
fn identityref_collects_its_bases() {
    let literal = "type identityref {\n base interface-type;\n}";
    let b = BaseNode { name: String::from("interface-type") };
    let e = EnumerationNode::new(vec![Node::Base(Box::new(b))]);
    assert_eq!(
        type_identityref_parse(literal),
        Ok(("", Node::EnumerationNode(Box::new(e))))
    );
}

#[test]
fn builtin_integer_types() {
    let t = TypeNode::new(TypeKind::Yuint16);
    assert_eq!(
        types_parse(r#"type uint16 { range "1..100"; }"#),
        Ok(("", Node::Type(Box::new(t))))
    );
    let t = TypeNode::new(TypeKind::Yint8);
    assert_eq!(types_parse("type int8;"), Ok(("", Node::Type(Box::new(t)))));
}

#[test]
fn string_and_derived_types() {
    assert_eq!(
        types_parse("type string { pattern '[a-z]' + '*'; length \"1..8\"; }"),
        Ok(("", Node::EmptyNode))
    );
    assert_eq!(types_parse("type inet:ip-address;"), Ok(("", Node::EmptyNode)));
    assert_eq!(types_parse("type my-type;"), Ok(("", Node::EmptyNode)));
    assert_eq!(types_parse("type ;"), Err(ParseError {}));
}

#[test]
fn union_of_prefixed_types() {
    let e = EnumerationNode::new(vec![Node::EmptyNode, Node::EmptyNode]);
    assert_eq!(
        types_parse("type union { type inet:ipv4-address; type inet:ipv6-address; }"),
        Ok(("", Node::EnumerationNode(Box::new(e))))
    );
}

fn enum_node(name: &str) -> Node {
    Node::EnumNode(Box::new(EnumNode { name: String::from(name), nodes: (vec![],) }))
}

#[test]
fn typedef_with_description_and_enumeration() {
    let text = r#"typedef color {
        description "A colour.";
        type enumeration { enum A; enum B; }
    }"#;
    let (rest, v) = typedef_parse(text).unwrap();
    assert_eq!(rest, "");
    let e = EnumerationNode::new(vec![enum_node("A"), enum_node("B")]);
    let t = TypedefNode::new(String::from("color"), Some(Node::EnumerationNode(Box::new(e))));
    assert_eq!(v, Node::Typedef(Box::new(t)));
}

#[test]
fn typedef_without_enumeration_has_no_type() {
    let text = r#"typedef vlan-id { type uint16; default "80"; status current; }"#;
    let t = TypedefNode::new(String::from("vlan-id"), None);
    assert_eq!(typedef_parse(text), Ok(("", Node::Typedef(Box::new(t)))));
}

#[test]
fn enum_with_substatements() {
    let text = r#"type enumeration { enum up { value 1; description "Up."; } }"#;
    let (_, v) = types_parse(text).unwrap();
    let inner = vec![
        Node::ValueNode(Box::new(ValueNode { name: String::from("1"), nodes: () })),
        Node::Description(Box::new(DescriptionNode { name: String::from("Up.") })),
    ];
    let en = Node::EnumNode(Box::new(EnumNode { name: String::from("up"), nodes: (inner,) }));
    let e = EnumerationNode::new(vec![en]);
    assert_eq!(v, Node::EnumerationNode(Box::new(e)));
}

#[test]
fn find_type_node_takes_the_first_enumeration() {
    let first = Node::EnumerationNode(Box::new(EnumerationNode::new(vec![enum_node("A")])));
    let second = Node::EnumerationNode(Box::new(EnumerationNode::new(vec![])));
    let desc = Node::Description(Box::new(DescriptionNode { name: String::from("d") }));
    let mut nodes = vec![Node::EmptyNode, first, desc, second];
    let found = find_type_node(&mut nodes).unwrap();
    assert_eq!(
        found,
        Node::EnumerationNode(Box::new(EnumerationNode::new(vec![enum_node("A")])))
    );
    assert_eq!(nodes.len(), 3);
    assert_eq!(nodes[1], Node::EnumerationNode(Box::new(EnumerationNode::new(vec![]))));
    let mut none = vec![Node::EmptyNode];
    assert_eq!(find_type_node(&mut none), None);
    assert_eq!(none, vec![Node::EmptyNode]);
}

#[test]
fn default_statement() {
    let (_, v) = default_parse(r#"default "up";"#).unwrap();
    println!("{:?}", v);
    assert_eq!(default_parse("default up;"), Err(ParseError {}));
}

#[test]
fn import_takes_the_first_of_each_substatement() {
    let text = r#"import ietf-yang-types {
        prefix yang;
        prefix other;
        revision-date "2013-07-15";
        description "Types.";
    }"#;
    let n = ImportNode {
        name: String::from("ietf-yang-types"),
        prefix: String::from("yang"),
        description: Some(String::from("Types.")),
        reference: None,
        revision_date: String::from("2013-07-15"),
    };
    assert_eq!(import_parse(text), Ok(("", Node::Import(Box::new(n)))));
}

#[test]
fn identity_and_feature() {
    let i = IdentityNode { name: String::from("eth"), description: Some(String::from("E.")) };
    assert_eq!(
        identity_parse(r#"identity eth { description "E."; }"#),
        Ok(("", Node::Identity(Box::new(i))))
    );
    let f = FeatureNode { name: String::from("arbitrary-names"), description: None };
    assert_eq!(feature_parse("feature arbitrary-names;"), Ok(("", Node::Feature(Box::new(f)))));
}

#[test]
fn header_statements() {
    let (_, v) = module_parse(r#" namespace "urn:x";"#).unwrap();
    println!("{:?}", v);
    assert_eq!(module_parse("organization;"), Err(ParseError {}));
    let (_, v) = yang_version_parse(r#"yang-version "1.1";"#).unwrap();
    println!("{:?}", v);
}

#[test]
fn schema_statements() {
    let leaf = Node::Leaf(Box::new(LeafNode { name: String::from("name") }));
    assert_eq!(leaf_parse(r#"leaf name { type string; description "N."; }"#), Ok(("", leaf)));
    let list = Node::List(Box::new(ListNode { name: String::from("interface") }));
    assert_eq!(
        list_parse(r#"list interface { key "name"; leaf name { type string; } }"#),
        Ok(("", list))
    );
    let c = Node::Container(Box::new(ContainerNode { name: String::from("interfaces") }));
    assert_eq!(
        container_parse("container interfaces { list interface { key \"name\"; } }"),
        Ok(("", c))
    );
}

const MODULE: &str = r#"module ietf-example {
    yang-version 1.1;
    namespace "urn:ietf:params:xml:ns:yang:ietf-example";
    prefix ex;
    /* A comment. */
    import ietf-inet-types { prefix inet; }
    organization "IETF";
    contact "someone";
    description "An example.";
    revision 2019-01-01 { description "Second."; }
    revision 2018-01-01;
    typedef color { type enumeration { enum red; } }
    typedef vlan-id { type uint16; }
    typedef color { type string; }
    feature fast;
    identity base-id;
    container top { list item { key "id"; leaf id { type string; } } }
    leaf free { type string; }
}"#;

#[test]
fn module_assembly() {
    let (rest, m) = yang_parse(MODULE).unwrap();
    assert_eq!(rest, "");
    assert_eq!(m.name, "ietf-example");
    assert_eq!(m.namespace, "urn:ietf:params:xml:ns:yang:ietf-example");
    assert_eq!(m.prefix, "ex");
    assert_eq!(m.organization, Some(String::from("IETF")));
    assert_eq!(m.contact, Some(String::from("someone")));
    assert_eq!(m.description, Some(String::from("An example.")));
    assert_eq!(m.yang_version, YangVersion::V1_1);
    let dates: Vec<&str> = m.revisions.iter().map(|r| r.name.as_str()).collect();
    assert_eq!(dates, vec!["2018-01-01", "2019-01-01"]);
    assert_eq!(m.revisions[1].description, Some(String::from("Second.")));
    assert_eq!(m.typedefs.len(), 2);
    let color = m.typedefs.iter().find(|t| t.name == "color").unwrap();
    assert!(color.typ.is_none());
    assert_eq!(m.imports.len(), 1);
    assert_eq!(m.imports[0].prefix, "inet");
}

#[test]
fn module_first_namespace_wins() {
    let text = r#"module m { namespace "a"; namespace "b"; prefix p; }"#;
    let (_, m) = yang_parse(text).unwrap();
    assert_eq!(m.namespace, "a");
    assert_eq!(m.yang_version, YangVersion::V1);
}

#[test]
fn module_parse_fails_on_a_bad_statement() {
    assert!(yang_parse(r#"module m { namespace "a"; bogus; }"#).is_err());
    assert!(yang_parse("module m { prefix p;").is_err());
    assert!(yang_parse(" module m { }").is_err());
    assert!(yang_parse("module m { }").is_ok());
}

#[test]
fn description_does_not_change_the_typedef() {
    let with = r#"typedef color { description "A colour."; type enumeration { enum A; } }"#;
    let without = r#"typedef color { type enumeration { enum A; } }"#;
    let (r1, n1) = typedef_parse(with).unwrap();
    let (r2, n2) = typedef_parse(without).unwrap();
    assert_eq!(r1, r2);
    assert_eq!(n1, n2);
}
