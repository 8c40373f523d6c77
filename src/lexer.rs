//! Lexical primitives: identifiers, quoted strings, comments, and the
//! `keyword "value";` statement shape.
use vstd::prelude::*;
use crate::block::{spec_subs, StmtSpec};
use crate::modules::{DescriptionNode, ReferenceNode};
use crate::node::{Node, NodeV};
use crate::text::{
    has_char, has_tag, in_class, is_ident_start, is_unescaped, is_ws, same_pos, same_string, scan,
    skip_ws, spec_stmt_end, spec_ws1, string_out, text_out, char_at, scan_at, skip_ws_at,
    stmt_end_at, tag_at, ws1_at, CharClass, Input, PResult, ParseError,
};

verus! {

/// An internal parser's node result agrees with a spec result `(end, node)`.
pub open spec fn same_node(r: Option<(usize, Node)>, m: Option<(int, NodeV)>) -> bool {
    match m {
        Some((e, v)) => r matches Some((p, n)) && p == e && n@ == v,
        None => r is None,
    }
}

/// A public parser's node result agrees with a spec result `(end, node)`.
pub open spec fn node_out(s: Seq<char>, r: PResult<Node>, m: Option<(int, NodeV)>) -> bool {
    match m {
        Some((e, v)) => r matches Ok((rest, n)) && rest@ == s.subrange(e, s.len() as int) && n@ == v,
        None => r is Err,
    }
}

/// An identifier at `i`: a letter or `_`, then letters, digits, `_`, `-`, `.`.
pub open spec fn spec_identifier(s: Seq<char>, i: int) -> Option<int> {
    if 0 <= i < s.len() && is_ident_start(s[i]) {
        Some(scan(s, i + 1, CharClass::IdentChar))
    } else {
        None
    }
}

/// `prefix:name`; the end and where `name` starts.
pub open spec fn spec_path_identifier(s: Seq<char>, i: int) -> Option<(int, int)> {
    match spec_identifier(s, i) {
        Some(e1) => if has_char(s, e1, ':') {
            match spec_identifier(s, e1 + 1) {
                Some(e2) => Some((e2, e1 + 1)),
                None => None,
            }
        } else {
            None
        },
        None => None,
    }
}

pub open spec fn is_escape_letter(c: char) -> bool {
    c == 'n' || c == 't' || c == '"' || c == '\\'
}

/// An escape sequence at `i`: a backslash and one of `n t " \`.
pub open spec fn is_escape_at(s: Seq<char>, i: int) -> bool {
    0 <= i && i + 1 < s.len() && s[i] == '\\' && is_escape_letter(s[i + 1])
}

/// The end of the body of a double-quoted string that starts at `i`.
pub open spec fn body_end(s: Seq<char>, i: int) -> int
    decreases s.len() - i,
{
    if 0 <= i < s.len() && is_unescaped(s[i]) {
        body_end(s, i + 1)
    } else if is_escape_at(s, i) {
        body_end(s, i + 2)
    } else {
        i
    }
}

/// A double-quoted string at `i`: its end and its raw body.
pub open spec fn spec_dq(s: Seq<char>, i: int) -> Option<(int, Seq<char>)> {
    if has_char(s, i, '"') && has_char(s, body_end(s, i + 1), '"') {
        Some((body_end(s, i + 1) + 1, s.subrange(i + 1, body_end(s, i + 1))))
    } else {
        None
    }
}

/// A single-quoted string at `i`: its end and its body.
pub open spec fn spec_sq(s: Seq<char>, i: int) -> Option<(int, Seq<char>)> {
    let e = scan(s, i + 1, CharClass::NotSingleQuote);
    if has_char(s, i, '\'') && has_char(s, e, '\'') {
        Some((e + 1, s.subrange(i + 1, e)))
    } else {
        None
    }
}

/// The `+ '...'` parts that follow a single-quoted string ending at `i`.
pub open spec fn sq_list_rest(s: Seq<char>, i: int) -> (int, Seq<char>)
    decreases s.len() - i,
{
    let j = skip_ws(s, i);
    if 0 <= i && has_char(s, j, '+') {
        match spec_sq(s, skip_ws(s, j + 1)) {
            Some((e, b)) => if i < e <= s.len() {
                let (e2, r) = sq_list_rest(s, e);
                (e2, b + r)
            } else {
                (i, Seq::empty())
            },
            None => (i, Seq::empty()),
        }
    } else {
        (i, Seq::empty())
    }
}

/// Single-quoted strings joined by `+`: the end and the concatenated bodies.
/// With no string at `i` this matches nothing and yields the empty text.
pub open spec fn spec_sq_list(s: Seq<char>, i: int) -> (int, Seq<char>) {
    match spec_sq(s, i) {
        Some((e, b)) => {
            let (e2, r) = sq_list_rest(s, e);
            (e2, b + r)
        },
        None => (i, Seq::empty()),
    }
}

/// The first `*/` at or after `j`.
pub open spec fn comment_close(s: Seq<char>, j: int) -> Option<int>
    decreases s.len() - j,
{
    if 0 <= j && j + 1 < s.len() {
        if s[j] == '*' && s[j + 1] == '/' {
            Some(j)
        } else {
            comment_close(s, j + 1)
        }
    } else {
        None
    }
}

/// A comment `/* ... */` with the whitespace around it.
pub open spec fn spec_comment(s: Seq<char>, i: int) -> Option<int> {
    let j = skip_ws(s, i);
    if has_tag(s, j, "/*"@) {
        match comment_close(s, j + 2) {
            Some(k) => Some(skip_ws(s, k + 2)),
            None => None,
        }
    } else {
        None
    }
}

/// `key "value";` with optional leading whitespace: the end and the raw value.
pub open spec fn spec_single_stmt(s: Seq<char>, i: int, key: Seq<char>) -> Option<(int, Seq<char>)> {
    let j = skip_ws(s, i);
    if has_tag(s, j, key) {
        match spec_ws1(s, j + key.len()) {
            Some(k) => match spec_dq(s, k) {
                Some((e, v)) => match spec_stmt_end(s, e) {
                    Some(f) => Some((f, v)),
                    None => None,
                },
                None => None,
            },
            None => None,
        }
    } else {
        None
    }
}

pub open spec fn spec_description(s: Seq<char>, i: int) -> Option<(int, NodeV)> {
    match spec_single_stmt(s, i, "description"@) {
        Some((e, v)) => Some((e, NodeV::Description(v))),
        None => None,
    }
}

pub open spec fn spec_reference(s: Seq<char>, i: int) -> Option<(int, NodeV)> {
    match spec_single_stmt(s, i, "reference"@) {
        Some((e, v)) => Some((e, NodeV::Reference(v))),
        None => None,
    }
}

pub fn identifier_at(s: &Vec<char>, i: usize) -> (r: Option<usize>)
    requires
        i <= s.len(),
    ensures
        same_pos(r, spec_identifier(s@, i as int)),
        r matches Some(p) ==> i < p <= s.len(),
{
    if i < s.len() && (('a' <= s[i] && s[i] <= 'z') || ('A' <= s[i] && s[i] <= 'Z') || s[i] == '_') {
        Some(scan_at(s, i + 1, CharClass::IdentChar))
    } else {
        None
    }
}

/// An identifier at the start of `s`.
pub fn identifier(s: &str) -> (r: PResult<&str>)
    ensures
        text_out(
            s@,
            r,
            match spec_identifier(s@, 0) {
                Some(e) => Some((e, s@.subrange(0, e))),
                None => None,
            },
        ),
{
    let inp = Input::new(s);
    match identifier_at(&inp.chars, 0) {
        Some(e) => Ok((inp.rest(e), inp.slice(0, e))),
        None => Err(ParseError {}),
    }
}

pub fn path_identifier_at(s: &Vec<char>, i: usize) -> (r: Option<(usize, usize)>)
    requires
        i <= s.len(),
    ensures
        match spec_path_identifier(s@, i as int) {
            Some((e, b)) => r matches Some((x, y)) && x == e && y == b,
            None => r is None,
        },
        r matches Some((e, b)) ==> i < b <= e <= s.len(),
{
    match identifier_at(s, i) {
        Some(e1) => if char_at(s, e1, ':') {
            match identifier_at(s, e1 + 1) {
                Some(e2) => Some((e2, e1 + 1)),
                None => None,
            }
        } else {
            None
        },
        None => None,
    }
}

/// `prefix:name` at the start of `s`; the value is `name`.
pub fn path_identifier(s: &str) -> (r: PResult<&str>)
    ensures
        text_out(
            s@,
            r,
            match spec_path_identifier(s@, 0) {
                Some((e, b)) => Some((e, s@.subrange(b, e))),
                None => None,
            },
        ),
{
    let inp = Input::new(s);
    match path_identifier_at(&inp.chars, 0) {
        Some((e, b)) => Ok((inp.rest(e), inp.slice(b, e))),
        None => Err(ParseError {}),
    }
}

pub fn body_end_at(s: &Vec<char>, i: usize) -> (r: usize)
    requires
        i <= s.len(),
    ensures
        r == body_end(s@, i as int),
        i <= r <= s.len(),
{
    let mut j = i;
    loop
        invariant
            i <= j <= s.len(),
            body_end(s@, j as int) == body_end(s@, i as int),
        decreases s.len() - j,
    {
        if j < s.len() && char_in_unescaped(s[j]) {
            j = j + 1;
        } else if s.len() - j > 1 && s[j] == '\\' && (s[j + 1] == 'n' || s[j + 1] == 't'
            || s[j + 1] == '"' || s[j + 1] == '\\') {
            j = j + 2;
        } else {
            return j;
        }
    }
}

fn char_in_unescaped(c: char) -> (b: bool)
    ensures
        b == is_unescaped(c),
{
    crate::text::char_in_class(CharClass::Unescaped, c)
}

pub fn dq_at(s: &Vec<char>, i: usize) -> (r: Option<usize>)
    requires
        i <= s.len(),
    ensures
        match spec_dq(s@, i as int) {
            Some((e, _)) => r matches Some(x) && x == e,
            None => r is None,
        },
        r matches Some(e) ==> i + 2 <= e <= s.len(),
{
    if char_at(s, i, '"') {
        let b = body_end_at(s, i + 1);
        if char_at(s, b, '"') {
            return Some(b + 1);
        }
    }
    None
}

/// A run of characters allowed in a double-quoted string without escaping.
pub fn nonescaped_string(s: &str) -> (r: PResult<&str>)
    ensures
        text_out(
            s@,
            r,
            if 0 < s@.len() && is_unescaped(s@[0]) {
                Some((scan(s@, 0, CharClass::Unescaped), s@.subrange(0, scan(s@, 0, CharClass::Unescaped))))
            } else {
                None
            },
        ),
{
    let inp = Input::new(s);
    if inp.len() > 0 && char_in_unescaped(inp.chars[0]) {
        let e = scan_at(&inp.chars, 0, CharClass::Unescaped);
        Ok((inp.rest(e), inp.slice(0, e)))
    } else {
        Err(ParseError {})
    }
}

/// An escape sequence: a backslash and one of `n t " \`.
pub fn escape_code(s: &str) -> (r: PResult<&str>)
    ensures
        text_out(s@, r, if is_escape_at(s@, 0) { Some((2, s@.subrange(0, 2))) } else { None }),
{
    let inp = Input::new(s);
    let c = &inp.chars;
    if 1 < c.len() && c[0] == '\\' && (c[1] == 'n' || c[1] == 't' || c[1] == '"' || c[1] == '\\') {
        Ok((inp.rest(2), inp.slice(0, 2)))
    } else {
        Err(ParseError {})
    }
}

/// The body of a double-quoted string, escapes kept as written.
pub fn string_body(s: &str) -> (r: PResult<&str>)
    ensures
        text_out(s@, r, Some((body_end(s@, 0), s@.subrange(0, body_end(s@, 0))))),
{
    let inp = Input::new(s);
    let e = body_end_at(&inp.chars, 0);
    Ok((inp.rest(e), inp.slice(0, e)))
}

/// A double-quoted string; the value is its raw body, escapes kept as written.
pub fn double_quoted_string(s: &str) -> (r: PResult<&str>)
    ensures
        text_out(s@, r, spec_dq(s@, 0)),
{
    let inp = Input::new(s);
    match dq_at(&inp.chars, 0) {
        Some(e) => Ok((inp.rest(e), inp.slice(1, e - 1))),
        None => Err(ParseError {}),
    }
}

/// A string body, or failing that a double-quoted string.  A body always
/// matches, possibly empty, so the second form is never reached.
pub fn string_token_parse(s: &str) -> (r: PResult<&str>)
    ensures
        text_out(s@, r, Some((body_end(s@, 0), s@.subrange(0, body_end(s@, 0))))),
{
    string_body(s)
}

pub fn sq_at(s: &Vec<char>, i: usize) -> (r: Option<usize>)
    requires
        i <= s.len(),
    ensures
        match spec_sq(s@, i as int) {
            Some((e, _)) => r matches Some(x) && x == e,
            None => r is None,
        },
        r matches Some(e) ==> i + 2 <= e <= s.len(),
{
    if char_at(s, i, '\'') {
        let e = scan_at(s, i + 1, CharClass::NotSingleQuote);
        if char_at(s, e, '\'') {
            return Some(e + 1);
        }
    }
    None
}

/// A single-quoted string; the value is its body.
pub fn quoted_string(s: &str) -> (r: PResult<String>)
    ensures
        string_out(s@, r, spec_sq(s@, 0)),
{
    let inp = Input::new(s);
    match sq_at(&inp.chars, 0) {
        Some(e) => Ok((inp.rest(e), inp.string(1, e - 1))),
        None => Err(ParseError {}),
    }
}

pub fn sq_list_at(inp: &Input, i: usize) -> (r: (usize, String))
    requires
        inp.wf(),
        i <= inp@.len(),
    ensures
        r.0 == spec_sq_list(inp@, i as int).0,
        r.1@ == spec_sq_list(inp@, i as int).1,
        i <= r.0 <= inp@.len(),
{
    let s = &inp.chars;
    match sq_at(s, i) {
        None => (i, String::new()),
        Some(e0) => {
            let mut acc = inp.string(i + 1, e0 - 1);
            let mut p = e0;
            loop
                invariant
                    inp.wf(),
                    s@ == inp@,
                    i < p <= s.len(),
                    spec_sq_list(inp@, i as int).0 == sq_list_rest(inp@, p as int).0,
                    spec_sq_list(inp@, i as int).1 == acc@ + sq_list_rest(inp@, p as int).1,
                decreases s.len() - p,
            {
                let j = skip_ws_at(s, p);
                if !char_at(s, j, '+') {
                    assert(sq_list_rest(inp@, p as int) == (p as int, Seq::<char>::empty()));
                    assert(acc@ + Seq::<char>::empty() =~= acc@);
                    return (p, acc);
                }
                let k = skip_ws_at(s, j + 1);
                match sq_at(s, k) {
                    None => {
                        assert(acc@ + Seq::<char>::empty() =~= acc@);
                        return (p, acc);
                    },
                    Some(e) => {
                        let part = inp.string(k + 1, e - 1);
                        proof {
                            let (e2, rr) = sq_list_rest(inp@, e as int);
                            assert(sq_list_rest(inp@, p as int) == (e2, part@ + rr));
                            assert(acc@ + (part@ + rr) =~= (acc@ + part@) + rr);
                        }
                        acc.append(part.as_str());
                        p = e;
                    },
                }
            }
        },
    }
}

/// Single-quoted strings joined by `+` (whitespace allowed around it); the
/// value is their bodies, concatenated.  No string at all gives the empty text.
pub fn quoted_string_list(s: &str) -> (r: PResult<String>)
    ensures
        string_out(s@, r, Some(spec_sq_list(s@, 0))),
{
    let inp = Input::new(s);
    let (e, v) = sq_list_at(&inp, 0);
    Ok((inp.rest(e), v))
}

pub fn comment_at(s: &Vec<char>, i: usize) -> (r: Option<usize>)
    requires
        i <= s.len(),
    ensures
        same_pos(r, spec_comment(s@, i as int)),
        r matches Some(e) ==> i < e <= s.len(),
{
    let j = skip_ws_at(s, i);
    if !tag_at(s, j, "/*") {
        return None;
    }
    proof {
        reveal_strlit("/*");
    }
    let mut k = j + 2;
    while k < s.len() && k + 1 < s.len() && !(s[k] == '*' && s[k + 1] == '/')
        invariant
            j + 2 <= k <= s.len(),
            comment_close(s@, k as int) == comment_close(s@, j + 2),
        decreases s.len() - k,
    {
        k = k + 1;
    }
    if k < s.len() && k + 1 < s.len() {
        Some(skip_ws_at(s, k + 2))
    } else {
        None
    }
}

/// A comment `/* ... */`, with the whitespace around it, gives an empty node.
pub fn c_comment_parse(s: &str) -> (r: PResult<Node>)
    ensures
        node_out(
            s@,
            r,
            match spec_comment(s@, 0) {
                Some(e) => Some((e, NodeV::Empty)),
                None => None,
            },
        ),
{
    let inp = Input::new(s);
    match comment_at(&inp.chars, 0) {
        Some(e) => Ok((inp.rest(e), Node::EmptyNode)),
        None => Err(ParseError {}),
    }
}

/// A comment where a statement may stand, as an empty node.
pub open spec fn spec_comment_node(s: Seq<char>, i: int) -> Option<(int, NodeV)> {
    match spec_comment(s, i) {
        Some(e) => Some((e, NodeV::Empty)),
        None => None,
    }
}

pub fn comment_node_at(inp: &Input, i: usize) -> (r: Option<(usize, Node)>)
    requires
        inp.wf(),
        i <= inp@.len(),
    ensures
        same_node(r, spec_comment_node(inp@, i as int)),
        r matches Some((e, _)) ==> i < e <= inp@.len(),
{
    match comment_at(&inp.chars, i) {
        Some(e) => Some((e, Node::EmptyNode)),
        None => None,
    }
}

pub fn single_stmt_at(inp: &Input, i: usize, key: &str) -> (r: Option<(usize, String)>)
    requires
        inp.wf(),
        i <= inp@.len(),
    ensures
        same_string(r, spec_single_stmt(inp@, i as int, key@)),
        r matches Some((e, _)) ==> i < e <= inp@.len(),
{
    let s = &inp.chars;
    let j = skip_ws_at(s, i);
    if !tag_at(s, j, key) {
        return None;
    }
    let kl = key.unicode_len();
    match ws1_at(s, j + kl) {
        Some(k) => match dq_at(s, k) {
            Some(e) => match stmt_end_at(s, e) {
                Some(f) => Some((f, inp.string(k + 1, e - 1))),
                None => None,
            },
            None => None,
        },
        None => None,
    }
}

/// `key "value";`; the value is the raw body of the string.
pub fn single_statement_parse(s: &str, key: String) -> (r: PResult<String>)
    ensures
        string_out(s@, r, spec_single_stmt(s@, 0, key@)),
{
    let inp = Input::new(s);
    match single_stmt_at(&inp, 0, key.as_str()) {
        Some((e, v)) => Ok((inp.rest(e), v)),
        None => Err(ParseError {}),
    }
}

pub fn description_at(inp: &Input, i: usize) -> (r: Option<(usize, Node)>)
    requires
        inp.wf(),
        i <= inp@.len(),
    ensures
        same_node(r, spec_description(inp@, i as int)),
        r matches Some((e, _)) ==> i < e <= inp@.len(),
{
    match single_stmt_at(inp, i, "description") {
        Some((e, v)) => Some((e, Node::Description(Box::new(DescriptionNode { name: v })))),
        None => None,
    }
}

/// `description "text";`
pub fn description_parse(s: &str) -> (r: PResult<Node>)
    ensures
        node_out(s@, r, spec_description(s@, 0)),
{
    let inp = Input::new(s);
    match description_at(&inp, 0) {
        Some((e, n)) => Ok((inp.rest(e), n)),
        None => Err(ParseError {}),
    }
}

pub fn reference_at(inp: &Input, i: usize) -> (r: Option<(usize, Node)>)
    requires
        inp.wf(),
        i <= inp@.len(),
    ensures
        same_node(r, spec_reference(inp@, i as int)),
        r matches Some((e, _)) ==> i < e <= inp@.len(),
{
    match single_stmt_at(inp, i, "reference") {
        Some((e, v)) => Some((e, Node::Reference(Box::new(ReferenceNode { name: v })))),
        None => None,
    }
}

/// `reference "text";`
pub fn reference_parse(s: &str) -> (r: PResult<Node>)
    ensures
        node_out(s@, r, spec_reference(s@, 0)),
{
    let inp = Input::new(s);
    match reference_at(&inp, 0) {
        Some((e, n)) => Ok((inp.rest(e), n)),
        None => Err(ParseError {}),
    }
}

/// A `;` that closes a statement without substatements.
pub fn semicolon_end_parse(s: &str) -> (r: PResult<Vec<Node>>)
    ensures
        s@.len() > 0 && s@[0] == ';' ==> (r matches Ok((rest, v)) && rest@ == s@.subrange(1, s@.len() as int) && v@.len() == 0),
        !(s@.len() > 0 && s@[0] == ';') ==> r is Err,
{
    let inp = Input::new(s);
    if char_at(&inp.chars, 0, ';') {
        Ok((inp.rest(1), Vec::new()))
    } else {
        Err(ParseError {})
    }
}

/// A statement argument: a double-quoted string (its raw body) or an identifier.
pub open spec fn spec_arg(s: Seq<char>, k: int) -> Option<(int, Seq<char>)> {
    match spec_dq(s, k) {
        Some(r) => Some(r),
        None => match spec_identifier(s, k) {
            Some(e) => Some((e, s.subrange(k, e))),
            None => None,
        },
    }
}

/// `key` and its argument, with leading whitespace, up to the `;`.
pub open spec fn spec_arg_stmt(s: Seq<char>, i: int, key: Seq<char>) -> Option<(int, Seq<char>)> {
    let j = skip_ws(s, i);
    if has_tag(s, j, key) {
        match spec_ws1(s, j + key.len()) {
            Some(k) => match spec_arg(s, k) {
                Some((e, v)) => match spec_stmt_end(s, e) {
                    Some(f) => Some((f, v)),
                    None => None,
                },
                None => None,
            },
            None => None,
        }
    } else {
        None
    }
}

/// `key NAME` with leading whitespace: the position after the whitespace
/// that follows the name, and where the name starts and ends.
pub open spec fn spec_named_head(s: Seq<char>, i: int, key: Seq<char>) -> Option<(int, int, int)> {
    let j = skip_ws(s, i);
    if has_tag(s, j, key) {
        match spec_ws1(s, j + key.len()) {
            Some(k) => match spec_identifier(s, k) {
                Some(e) => Some((skip_ws(s, e), k, e)),
                None => None,
            },
            None => None,
        }
    } else {
        None
    }
}

/// `key NAME;` or `key NAME { substatements of p }`: end, name, substatements.
pub open spec fn spec_named_stmt(s: Seq<char>, i: int, key: Seq<char>, p: StmtSpec) -> Option<(int, Seq<char>, Seq<NodeV>)> {
    match spec_named_head(s, i, key) {
        Some((h, a, b)) => match spec_subs(p, s, h) {
            Some((f, vs)) => Some((f, s.subrange(a, b), vs)),
            None => None,
        },
        None => None,
    }
}

pub fn arg_at(inp: &Input, k: usize) -> (r: Option<(usize, String)>)
    requires
        inp.wf(),
        k <= inp@.len(),
    ensures
        same_string(r, spec_arg(inp@, k as int)),
        r matches Some((e, _)) ==> k < e <= inp@.len(),
{
    match dq_at(&inp.chars, k) {
        Some(e) => Some((e, inp.string(k + 1, e - 1))),
        None => match identifier_at(&inp.chars, k) {
            Some(e) => Some((e, inp.string(k, e))),
            None => None,
        },
    }
}

pub fn arg_stmt_at(inp: &Input, i: usize, key: &str) -> (r: Option<(usize, String)>)
    requires
        inp.wf(),
        i <= inp@.len(),
    ensures
        same_string(r, spec_arg_stmt(inp@, i as int, key@)),
        r matches Some((e, _)) ==> i < e <= inp@.len(),
{
    let s = &inp.chars;
    let j = skip_ws_at(s, i);
    if !tag_at(s, j, key) {
        return None;
    }
    let k = match ws1_at(s, j + key.unicode_len()) {
        Some(k) => k,
        None => return None,
    };
    let (e, v) = match arg_at(inp, k) {
        Some(x) => x,
        None => return None,
    };
    match stmt_end_at(s, e) {
        Some(f) => Some((f, v)),
        None => None,
    }
}

pub fn named_head_at(inp: &Input, i: usize, key: &str) -> (r: Option<(usize, usize, usize)>)
    requires
        inp.wf(),
        i <= inp@.len(),
    ensures
        match spec_named_head(inp@, i as int, key@) {
            Some((h, a, b)) => r matches Some((x, y, z)) && x == h && y == a && z == b,
            None => r is None,
        },
        r matches Some((h, a, b)) ==> i < a < b <= h <= inp@.len(),
{
    let s = &inp.chars;
    let j = skip_ws_at(s, i);
    if !tag_at(s, j, key) {
        return None;
    }
    let k = match ws1_at(s, j + key.unicode_len()) {
        Some(k) => k,
        None => return None,
    };
    match identifier_at(s, k) {
        Some(e) => Some((skip_ws_at(s, e), k, e)),
        None => None,
    }
}

/// A run of `k` characters of class `c` at `i` that nothing of the class
/// follows is exactly what a scan from `i` covers.
pub proof fn lemma_scan_run(s: Seq<char>, i: int, k: int, c: CharClass)
    requires
        0 <= i,
        0 <= k,
        i + k <= s.len(),
        forall|m: int| i <= m < i + k ==> in_class(c, #[trigger] s[m]),
        i + k == s.len() || !in_class(c, s[i + k]),
    ensures
        scan(s, i, c) == i + k,
    decreases k,
{
    if k > 0 {
        lemma_scan_run(s, i + 1, k - 1, c);
    }
}

pub open spec fn all_ws(w: Seq<char>) -> bool {
    forall|m: int| 0 <= m < w.len() ==> is_ws(#[trigger] w[m])
}

pub open spec fn single_quoted(a: Seq<char>) -> Seq<char> {
    seq!['\''] + a + seq!['\'']
}

/// Two single-quoted strings joined by `+`, with any whitespace around the
/// `+`, read as the concatenation of their bodies, with nothing between them.
pub proof fn quoted_concatenation(a: Seq<char>, b: Seq<char>, w1: Seq<char>, w2: Seq<char>)
    requires
        !a.contains('\''),
        !b.contains('\''),
        all_ws(w1),
        all_ws(w2),
    ensures
        ({
            let s = single_quoted(a) + w1 + seq!['+'] + w2 + single_quoted(b);
            spec_sq_list(s, 0) == (s.len() as int, a + b)
        }),
{
    let s = single_quoted(a) + w1 + seq!['+'] + w2 + single_quoted(b);
    let e1 = a.len() + 2int;
    let j = e1 + w1.len() as int;
    let k = j + 1 + w2.len() as int;
    let n = s.len() as int;
    assert(s.len() == k + b.len() + 2);
    assert forall|m: int| 1 <= m < 1 + a.len() implies in_class(CharClass::NotSingleQuote, #[trigger] s[m]) by {
        assert(s[m] == a[m - 1]);
        if s[m] == '\'' {
            assert(a.contains('\''));
        }
    }
    assert(s[1 + a.len() as int] == '\'');
    lemma_scan_run(s, 1, a.len() as int, CharClass::NotSingleQuote);
    assert(s.subrange(1, 1 + a.len() as int) =~= a);
    assert(spec_sq(s, 0) == Some((e1, a)));
    assert forall|m: int| e1 <= m < j implies in_class(CharClass::Space, #[trigger] s[m]) by {
        assert(s[m] == w1[m - e1]);
    }
    assert(s[j] == '+');
    lemma_scan_run(s, e1, w1.len() as int, CharClass::Space);
    assert forall|m: int| j + 1 <= m < k implies in_class(CharClass::Space, #[trigger] s[m]) by {
        assert(s[m] == w2[m - j - 1]);
    }
    assert(s[k] == '\'');
    lemma_scan_run(s, j + 1, w2.len() as int, CharClass::Space);
    assert forall|m: int| k + 1 <= m < k + 1 + b.len() implies in_class(CharClass::NotSingleQuote, #[trigger] s[m]) by {
        assert(s[m] == b[m - k - 1]);
        if s[m] == '\'' {
            assert(b.contains('\''));
        }
    }
    assert(s[k + 1 + b.len() as int] == '\'');
    lemma_scan_run(s, k + 1, b.len() as int, CharClass::NotSingleQuote);
    assert(s.subrange(k + 1, k + 1 + b.len() as int) =~= b);
    assert(spec_sq(s, k) == Some((n, b)));
    lemma_scan_run(s, n, 0, CharClass::Space);
    assert(sq_list_rest(s, n) == (n, Seq::<char>::empty()));
    assert(sq_list_rest(s, e1) == (n, b + Seq::<char>::empty()));
    assert(b + Seq::<char>::empty() =~= b);
}

/// `b` is a well-formed double-quoted body: unescaped characters and the
/// escapes `\n \t \" \\`, and nothing else.
pub open spec fn is_body(b: Seq<char>) -> bool {
    body_end(b, 0) == b.len()
}

proof fn lemma_body_in_quotes(b: Seq<char>, s: Seq<char>, i: int)
    requires
        s == seq!['"'] + b + seq!['"'],
        0 <= i <= b.len(),
        body_end(b, i) == b.len(),
    ensures
        body_end(s, i + 1) == b.len() + 1,
    decreases b.len() - i,
{
    if i < b.len() {
        assert(s[i + 1] == b[i]);
        if is_unescaped(b[i]) {
            lemma_body_in_quotes(b, s, i + 1);
        } else {
            assert(is_escape_at(b, i));
            assert(s[i + 2] == b[i + 1]);
            lemma_body_in_quotes(b, s, i + 2);
        }
    } else {
        assert(s[i + 1] == '"');
    }
}

/// A double-quoted string reads as its body exactly as written, escapes
/// included, and that body scans again as one whole body.
pub proof fn double_quoted_verbatim(b: Seq<char>)
    requires
        is_body(b),
    ensures
        spec_dq(seq!['"'] + b + seq!['"'], 0) == Some((b.len() + 2int, b)),
        is_body(b),
{
    let s = seq!['"'] + b + seq!['"'];
    lemma_body_in_quotes(b, s, 0);
    assert(s.subrange(1, b.len() + 1int) =~= b);
}

} // verus!
