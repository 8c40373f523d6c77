use libyang::lexer::{
    c_comment_parse, double_quoted_string, escape_code, identifier, nonescaped_string,
    path_identifier, quoted_string, quoted_string_list, single_statement_parse, string_token_parse,
};
use libyang::modules::PrefixNode;
use libyang::node::Node;
use libyang::statements::{prefix_parse, yang_version_arg_parse, yang_version_arg_str_parse};
use libyang::text::ParseError;

#[test]
fn test_yang_version_arg_parse() {
    for literal in vec!["1", "1.1"] {
        match yang_version_arg_parse(literal) {
            Ok((_, v)) => {
                assert_eq!(v, literal);
            }
            Err(e) => {
                panic!("identifier {:?}", e);
            }
        }
    }
}

#[test]
fn test_yang_version_token_parse() {
    for (literal, output) in vec![("1", "1"), ("1.1", "1.1"), (r#""1""#, "1")] {
        match yang_version_arg_str_parse(literal) {
            Ok((_, v)) => {
                assert_eq!(v, output);
            }
            Err(e) => {
                panic!("identifier {:?}", e);
            }
        }
    }
}

#[test]
fn test_double_quoted_string() {
    let literal = r#""hoge\thoga\nhoge""#;
    let output = r#"hoge\thoga\nhoge"#;
    match double_quoted_string(literal) {
        Ok((_, o)) => {
            assert_eq!(o, output);
        }
        Err(e) => {
            panic!("double_quoted_string_test {:?}", e);
        }
    }
}

#[test]
fn test_quoted_string_list() {
    let literal = r#"'collection abc' + 'hogehoge'"#;
    let (_, v) = quoted_string_list(literal).unwrap();
    assert_eq!(v, "collection abchogehoge");
}

#[test]
fn test_prefix_parse() {
    let literal = r#"prefix if;"#;
    let (_, v) = prefix_parse(literal).unwrap();
    let node = PrefixNode::new(String::from("if"));
    assert_eq!(v, Node::Prefix(Box::new(node)));
}

#[test]
fn test_prefix_parse_quote() {
    let literal = r#"prefix "if";"#;
    let (_, v) = prefix_parse(literal).unwrap();
    let node = PrefixNode::new(String::from("if"));
    assert_eq!(v, Node::Prefix(Box::new(node)));
}

#[test]
fn test_nonescaped_string() {
    let literal = r#"main-routine_1 "#;
    let result = nonescaped_string(literal).unwrap();
    assert_eq!(result.1, "main-routine_1 ");
}

#[test]
fn test_escape_code() {
    let literal = r"\na";
    let result = escape_code(literal).unwrap();
    assert_eq!(result.1, "\\n");
}

#[test]
fn concatenation_has_no_separator() {
    assert_eq!(quoted_string_list("'a' + 'b'"), Ok(("", String::from("ab"))));
    assert_eq!(quoted_string_list("'a'+'b'"), Ok(("", String::from("ab"))));
    assert_eq!(quoted_string_list("'a'\n  +\t'b' + 'c';"), Ok((";", String::from("abc"))));
}

#[test]
fn concatenation_stops_before_a_dangling_plus() {
    assert_eq!(quoted_string_list("'a' + x"), Ok((" + x", String::from("a"))));
}

#[test]
fn concatenation_of_nothing_is_empty() {
    assert_eq!(quoted_string_list("abc"), Ok(("abc", String::new())));
}

#[test]
fn escapes_are_kept_verbatim() {
    let literal = r#""a\nb\tc\"d\\e" rest"#;
    let (rest, body) = double_quoted_string(literal).unwrap();
    assert_eq!(body, r#"a\nb\tc\"d\\e"#);
    assert_eq!(rest, " rest");
    let (_, again) = string_token_parse(body).unwrap();
    assert_eq!(again, body);
}

#[test]
fn double_quoted_string_rejects_a_bad_escape() {
    assert_eq!(double_quoted_string(r#""a\qb""#), Err(ParseError {}));
    assert_eq!(double_quoted_string("\"unterminated"), Err(ParseError {}));
    assert_eq!(double_quoted_string("\"tab\there\""), Err(ParseError {}));
}

#[test]
fn single_quoted_string_body() {
    assert_eq!(quoted_string("'a \"b\"' x"), Ok((" x", String::from("a \"b\""))));
    assert_eq!(quoted_string("'open"), Err(ParseError {}));
}

#[test]
fn identifiers() {
    assert_eq!(identifier("ietf-inet_types.v2 {"), Ok((" {", "ietf-inet_types.v2")));
    assert_eq!(identifier("_x1"), Ok(("", "_x1")));
    assert_eq!(identifier("1abc"), Err(ParseError {}));
    assert_eq!(identifier("-abc"), Err(ParseError {}));
}

#[test]
fn path_identifier_keeps_the_local_name() {
    assert_eq!(path_identifier("if:interface-type;"), Ok((";", "interface-type")));
    assert_eq!(path_identifier("interface-type;"), Err(ParseError {}));
}

#[test]
fn comments_are_skipped() {
    assert_eq!(c_comment_parse("  /* a * b */  next"), Ok(("next", Node::EmptyNode)));
    assert_eq!(c_comment_parse("/* open"), Err(ParseError {}));
}

#[test]
fn single_statement() {
    let r = single_statement_parse("  contact\n \"me\" ;x", String::from("contact"));
    assert_eq!(r, Ok(("x", String::from("me"))));
    let r = single_statement_parse("contact\"me\";", String::from("contact"));
    assert_eq!(r, Err(ParseError {}));
}
