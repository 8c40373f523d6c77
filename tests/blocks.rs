use libyang::assembler::yang_parse;
use libyang::container::KeyNode;
use libyang::lexer::{description_parse, reference_parse, semicolon_end_parse};
use libyang::modules::{DescriptionNode, PrefixNode, ReferenceNode, RevisionDateNode};
use libyang::node::Node;
use libyang::statements::{
    container_sub_parse, import_sub_parse, key_parse, leaf_sub_parse, list_sub_parse,
    revision_date_stmt_parse,
};
use libyang::text::ParseError;
use libyang::types::{EnumNode, EnumerationNode};
use libyang::typestmt::{enum_parse, type_enumeration_parse};

#[test]
fn description_and_reference() {
    let d = DescriptionNode { name: String::from("Text.") };
    assert_eq!(
        description_parse("\n  description\n    \"Text.\";rest"),
        Ok(("rest", Node::Description(Box::new(d))))
    );
    let r = ReferenceNode { name: String::from("RFC 7950") };
    assert_eq!(reference_parse(r#"reference "RFC 7950";"#), Ok(("", Node::Reference(Box::new(r)))));
    assert_eq!(description_parse("description 'x';"), Err(ParseError {}));
}

#[test]
fn semicolon_end() {
    assert_eq!(semicolon_end_parse("; x"), Ok((" x", vec![])));
    assert_eq!(semicolon_end_parse(" ;"), Err(ParseError {}));
}

#[test]
fn revision_date_statement() {
    let n = RevisionDateNode { name: String::from("2015-01-01") };
    assert_eq!(
        revision_date_stmt_parse("revision-date 2015-01-01;"),
        Ok(("", Node::RevisionDate(Box::new(n))))
    );
}

#[test]
fn key_statement() {
    let k = KeyNode { name: String::from("name type") };
    assert_eq!(key_parse(r#"key "name type";"#), Ok(("", Node::Key(Box::new(k)))));
}

#[test]
fn substatement_blocks() {
    let (rest, v) = import_sub_parse("{ prefix inet; revision-date 2013-07-15; } x").unwrap();
    assert_eq!(rest, " x");
    assert_eq!(
        v,
        vec![
            Node::Prefix(Box::new(PrefixNode::new(String::from("inet")))),
            Node::RevisionDate(Box::new(RevisionDateNode { name: String::from("2013-07-15") })),
        ]
    );
    assert_eq!(import_sub_parse(";"), Err(ParseError {}));
    let (_, v) = leaf_sub_parse("{ type string; }").unwrap();
    assert_eq!(v, vec![Node::EmptyNode]);
    let (_, v) = list_sub_parse(r#"{ key "id"; }"#).unwrap();
    assert_eq!(v.len(), 1);
    let (_, v) = container_sub_parse("{ }").unwrap();
    assert!(v.is_empty());
    assert_eq!(container_sub_parse("{ leaf x; }"), Err(ParseError {}));
}

#[test]
fn enums() {
    let e = EnumNode { name: String::from("up"), nodes: (vec![],) };
    assert_eq!(enum_parse("enum up;"), Ok(("", Node::EnumNode(Box::new(e)))));
    let (_, v) = type_enumeration_parse("type enumeration { enum A; enum B; }").unwrap();
    let a = Node::EnumNode(Box::new(EnumNode { name: String::from("A"), nodes: (vec![],) }));
    let b = Node::EnumNode(Box::new(EnumNode { name: String::from("B"), nodes: (vec![],) }));
    assert_eq!(v, Node::EnumerationNode(Box::new(EnumerationNode::new(vec![a, b]))));
}

#[test]
fn comments_inside_blocks() {
    let text = r#"module m {
        prefix p; /* top */
        container c { /* inside */ list l { /* deeper */ key "k"; leaf k { /* leaf */ type string; } } }
        typedef t { /* td */ type uint8 { /* r */ range "1..2"; } }
        typedef e { type enumeration { /* e */ enum x { /* v */ value 1; } } }
        import i { /* i */ prefix q; }
    }"#;
    let (rest, m) = yang_parse(text).unwrap();
    assert_eq!(rest, "");
    assert_eq!(m.typedefs.len(), 2);
    assert_eq!(m.imports[0].prefix, "q");
}
