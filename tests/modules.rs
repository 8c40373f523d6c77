use libyang::assembler::yang_parse;
use libyang::modules::{IncludeNode, Modules};
use libyang::node::Node;
use libyang::statements::include_parse;

const INET_TYPES: &str = r#"module ietf-inet-types {

  namespace "urn:ietf:params:xml:ns:yang:ietf-inet-types";
  prefix "inet";

  organization
   "IETF NETMOD (NETCONF Data Modeling Language) Working Group";

  contact
   "WG Web:   <http://tools.ietf.org/wg/netmod/>
    WG List:  <mailto:netmod@ietf.org>";

  description
   "This module contains a collection of generally useful derived
    YANG data types for Internet addresses and related things.";

  revision 2013-07-15 {
    description
     "This revision adds the following new data types:
      - ip-address-no-zone";
    reference
     "RFC 6991: Common YANG Data Types";
  }

  revision 2010-09-24 {
    description
     "Initial revision.";
    reference
     "RFC 6021: Common YANG Data Types";
  }

  /*** collection of types related to protocol fields ***/

  typedef ip-version {
    type enumeration {
      enum unknown {
        value "0";
        description
         "An unknown or unspecified version of the Internet
          protocol.";
      }
      enum ipv4 {
        value "1";
        description
         "The IPv4 protocol as defined in RFC 791.";
      }
    }
    description
     "This value represents the version of the IP protocol.";
    reference
     "RFC  791: Internet Protocol";
  }

  typedef dscp {
    type uint8 {
      range "0..63";
    }
    description
     "The dscp type represents a Differentiated Services Code Point.";
  }

  typedef port-number {
    type uint16 {
      range "0..65535";
    }
  }

  /*** collection of types related to IP addresses and hostnames ***/

  typedef ip-address {
    type union {
      type inet:ipv4-address;
      type inet:ipv6-address;
    }
    description
     "The ip-address type represents an IP address.";
  }

  typedef ipv4-address {
    type string {
      pattern
        '(([0-9]|[1-9][0-9]|1[0-9][0-9]|2[0-4][0-9]|25[0-5])\.){3}'
      +  '([0-9]|[1-9][0-9]|1[0-9][0-9]|2[0-4][0-9]|25[0-5])'
      + '(%[\p{N}\p{L}]+)?';
    }
  }

  typedef domain-name {
    type string {
      pattern
        '((([a-zA-Z0-9_]([a-zA-Z0-9\-_]){0,61})?[a-zA-Z0-9]\.)*'
      + '([a-zA-Z0-9_]([a-zA-Z0-9\-_]){0,61})?[a-zA-Z0-9]\.?)'
      + '|\.';
      length "1..253";
    }
  }

  typedef uri {
    type string;
    description
     "The uri type represents a Uniform Resource Identifier.";
  }
}
"#;

#[test]
fn parse_inline_inet_types() {
    let mut ms = Modules::new();
    match yang_parse(INET_TYPES) {
        Ok((rest, module)) => {
            assert_eq!(rest, "\n");
            assert_eq!(module.typedefs.len(), 7);
            assert_eq!(module.revisions.len(), 2);
            ms.modules.insert(module.prefix.to_owned(), module);
            let entry = ms.modules.get(&"inet".to_string());
            if entry.is_none() {
                panic!("modules can't find");
            }
        }
        Err(e) => {
            panic!("module parse error: {:?}", e);
        }
    }
}

#[test]
fn include_statement() {
    let n = IncludeNode {
        name: String::from("sub"),
        description: None,
        reference: Some(String::from("R")),
    };
    assert_eq!(include_parse(r#"include sub { reference "R"; }"#), Ok(("", Node::Include(Box::new(n)))));
    let (_, m) = yang_parse("module m { include a; include b; }").unwrap();
    let names: Vec<&str> = m.includes.iter().map(|i| i.name.as_str()).collect();
    assert_eq!(names, vec!["b", "a"]);
}
