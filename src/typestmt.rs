//! The `type` statement in its built-in and derived forms, `enum`, `value`,
//! `base`, `default`, and `typedef`.
use vstd::prelude::*;
use crate::block::{
    close_at, lemma_nodes_view_push, same_nodes, spec_block, spec_many, spec_skip_many,
    spec_skip_subs, spec_subs, SkipSpec, StmtSpec,
};
use crate::lexer::{
    comment_at, comment_node_at, spec_comment, spec_comment_node, arg_stmt_at, description_at, dq_at, identifier_at, named_head_at, node_out, path_identifier_at,
    reference_at, same_node, single_stmt_at, spec_arg_stmt, spec_description, spec_dq,
    spec_identifier, spec_named_stmt, spec_path_identifier, spec_reference, spec_single_stmt,
    spec_sq_list, sq_list_at,
};
use crate::node::{nodes_view, Node, NodeV};
use crate::text::{
    has_char, has_tag, is_digit, same_pos, scan, skip_ws, spec_stmt_end, spec_ws1, char_at,
    scan_at, skip_ws_at, stmt_end_at, tag_at, ws1_at, CharClass, Input, PResult, ParseError,
};
use crate::types::{
    BaseNode, DefaultNode, EnumNode, EnumerationNode, TypeKind, TypeNode, TypedefNode, ValueNode,
};

verus! {

/// `value N;` or `value "text";`
pub open spec fn spec_value(s: Seq<char>, i: int) -> Option<(int, NodeV)> {
    let j = skip_ws(s, i);
    if has_tag(s, j, "value"@) {
        match spec_ws1(s, j + 5) {
            Some(k) => {
                let arg = match spec_dq(s, k) {
                    Some(r) => Some(r),
                    None => if 0 <= k < s.len() && is_digit(s[k]) {
                        Some((scan(s, k, CharClass::Digit), s.subrange(k, scan(s, k, CharClass::Digit))))
                    } else {
                        None
                    },
                };
                match arg {
                    Some((e, v)) => match spec_stmt_end(s, e) {
                        Some(f) => Some((f, NodeV::Value(v))),
                        None => None,
                    },
                    None => None,
                }
            },
            None => None,
        }
    } else {
        None
    }
}

/// A substatement of `enum`.
pub open spec fn spec_enum_alt(s: Seq<char>, i: int) -> Option<(int, NodeV)> {
    if let Some(r) = spec_description(s, i) {
        Some(r)
    } else if let Some(r) = spec_value(s, i) {
        Some(r)
    } else {
        spec_comment_node(s, i)
    }
}

/// `enum NAME;` or `enum NAME { description ...; value ...; }`.
pub open spec fn spec_enum(s: Seq<char>, i: int) -> Option<(int, NodeV)> {
    match spec_named_stmt(s, i, "enum"@, enum_alts()) {
        Some((f, n, vs)) => Some((f, NodeV::Enum(n, vs))),
        None => None,
    }
}

/// `key "text";` for a restriction whose text is not kept: its end.
pub open spec fn spec_restriction(s: Seq<char>, i: int, key: Seq<char>) -> Option<int> {
    match spec_single_stmt(s, i, key) {
        Some((e, _)) => Some(e),
        None => None,
    }
}

/// `pattern 'a' + 'b';`: its end.
pub open spec fn spec_pattern(s: Seq<char>, i: int) -> Option<int> {
    let j = skip_ws(s, i);
    if has_tag(s, j, "pattern"@) {
        match spec_ws1(s, j + 7) {
            Some(k) => spec_stmt_end(s, spec_sq_list(s, k).0),
            None => None,
        }
    } else {
        None
    }
}

/// A restriction of a string or derived type: `pattern`, `length` or `path`.
pub open spec fn spec_restrict_alt(s: Seq<char>, i: int) -> Option<int> {
    match spec_pattern(s, i) {
        Some(e) => Some(e),
        None => match spec_restriction(s, i, "length"@) {
            Some(e) => Some(e),
            None => match spec_restriction(s, i, "path"@) {
                Some(e) => Some(e),
                None => spec_comment(s, i),
            },
        },
    }
}

/// A restriction of an integer type: `range "...";`.
pub open spec fn spec_range_alt(s: Seq<char>, i: int) -> Option<int> {
    match spec_restriction(s, i, "range"@) {
        Some(e) => Some(e),
        None => spec_comment(s, i),
    }
}

/// `type KIND` with leading whitespace: the position after the whitespace
/// that follows `KIND`.
pub open spec fn spec_type_head(s: Seq<char>, i: int, kind: Seq<char>) -> Option<int> {
    let j = skip_ws(s, i);
    if has_tag(s, j, "type"@) {
        match spec_ws1(s, j + 4) {
            Some(k) => if has_tag(s, k, kind) {
                Some(skip_ws(s, k + kind.len()))
            } else {
                None
            },
            None => None,
        }
    } else {
        None
    }
}

/// `type int8;` and the like, or with a block of `range` restrictions.
pub open spec fn spec_type_int(s: Seq<char>, i: int, name: Seq<char>, kind: TypeKind) -> Option<(int, NodeV)> {
    match spec_type_head(s, i, name) {
        Some(h) => match spec_skip_subs(range_alts(), s, h) {
            Some(f) => Some((f, NodeV::Type(kind, Seq::empty()))),
            None => None,
        },
        None => None,
    }
}

/// `type NAME;` or with a block of string restrictions: an empty node.
pub open spec fn spec_type_plain(s: Seq<char>, i: int, name: Seq<char>) -> Option<(int, NodeV)> {
    match spec_type_head(s, i, name) {
        Some(h) => match spec_skip_subs(restrict_alts(), s, h) {
            Some(f) => Some((f, NodeV::Empty)),
            None => None,
        },
        None => None,
    }
}

/// `type KIND { ... }` whose block holds statements of `p`: an enumeration node of them.
pub open spec fn spec_type_list(s: Seq<char>, i: int, name: Seq<char>, p: StmtSpec) -> Option<(int, NodeV)> {
    match spec_type_head(s, i, name) {
        Some(h) => match spec_block(p, s, h) {
            Some((f, vs)) => Some((f, NodeV::Enumeration(Seq::empty(), vs, 0, 0))),
            None => None,
        },
        None => None,
    }
}

/// `base NAME;` or `base prefix:NAME;`; the node holds `NAME`.
pub open spec fn spec_base(s: Seq<char>, i: int) -> Option<(int, NodeV)> {
    let j = skip_ws(s, i);
    if has_tag(s, j, "base"@) {
        match spec_ws1(s, j + 4) {
            Some(k) => {
                let arg = match spec_path_identifier(s, k) {
                    Some((e, b)) => Some((e, s.subrange(b, e))),
                    None => match spec_identifier(s, k) {
                        Some(e) => Some((e, s.subrange(k, e))),
                        None => None,
                    },
                };
                match arg {
                    Some((e, v)) => match spec_stmt_end(s, e) {
                        Some(f) => Some((f, NodeV::Base(v))),
                        None => None,
                    },
                    None => None,
                }
            },
            None => None,
        }
    } else {
        None
    }
}

/// `type prefix:NAME;`, a member of a union: an empty node.
pub open spec fn spec_type_ref(s: Seq<char>, i: int) -> Option<(int, NodeV)> {
    let j = skip_ws(s, i);
    if has_tag(s, j, "type"@) {
        match spec_ws1(s, j + 4) {
            Some(k) => match spec_path_identifier(s, k) {
                Some((e, _)) => match spec_stmt_end(s, e) {
                    Some(f) => Some((f, NodeV::Empty)),
                    None => None,
                },
                None => None,
            },
            None => None,
        }
    } else {
        None
    }
}

/// `type NAME` or `type prefix:NAME`, a derived type, with an optional block
/// of string restrictions: an empty node.
pub open spec fn spec_type_derived(s: Seq<char>, i: int, prefixed: bool) -> Option<(int, NodeV)> {
    let j = skip_ws(s, i);
    if has_tag(s, j, "type"@) {
        match spec_ws1(s, j + 4) {
            Some(k) => {
                let e = if prefixed {
                    match spec_path_identifier(s, k) {
                        Some((e, _)) => Some(e),
                        None => None,
                    }
                } else {
                    spec_identifier(s, k)
                };
                match e {
                    Some(e) => match spec_skip_subs(restrict_alts(), s, skip_ws(s, e)) {
                        Some(f) => Some((f, NodeV::Empty)),
                        None => None,
                    },
                    None => None,
                }
            },
            None => None,
        }
    } else {
        None
    }
}

/// An enum of an enumeration, or a comment.
pub open spec fn spec_enum_list_alt(s: Seq<char>, i: int) -> Option<(int, NodeV)> {
    match spec_enum(s, i) {
        Some(r) => Some(r),
        None => spec_comment_node(s, i),
    }
}

/// A member type of a union, or a comment.
pub open spec fn spec_union_alt(s: Seq<char>, i: int) -> Option<(int, NodeV)> {
    match spec_type_ref(s, i) {
        Some(r) => Some(r),
        None => spec_comment_node(s, i),
    }
}

/// A base of an identityref, or a comment.
pub open spec fn spec_base_alt(s: Seq<char>, i: int) -> Option<(int, NodeV)> {
    match spec_base(s, i) {
        Some(r) => Some(r),
        None => spec_comment_node(s, i),
    }
}

/// The forms of the `type` statement, tried in this order; the first that
/// matches is taken.
pub open spec fn spec_types(s: Seq<char>, i: int) -> Option<(int, NodeV)> {
    if let Some(r) = spec_type_int(s, i, "int8"@, TypeKind::Yint8) {
        Some(r)
    } else if let Some(r) = spec_type_int(s, i, "int16"@, TypeKind::Yint16) {
        Some(r)
    } else if let Some(r) = spec_type_int(s, i, "int32"@, TypeKind::Yint32) {
        Some(r)
    } else if let Some(r) = spec_type_int(s, i, "int64"@, TypeKind::Yint64) {
        Some(r)
    } else if let Some(r) = spec_type_int(s, i, "uint8"@, TypeKind::Yuint8) {
        Some(r)
    } else if let Some(r) = spec_type_int(s, i, "uint16"@, TypeKind::Yuint16) {
        Some(r)
    } else if let Some(r) = spec_type_int(s, i, "uint32"@, TypeKind::Yuint32) {
        Some(r)
    } else if let Some(r) = spec_type_int(s, i, "uint64"@, TypeKind::Yuint64) {
        Some(r)
    } else if let Some(r) = spec_type_plain(s, i, "string"@) {
        Some(r)
    } else if let Some(r) = spec_type_plain(s, i, "boolean"@) {
        Some(r)
    } else if let Some(r) = spec_type_list(s, i, "enumeration"@, enum_alts_list()) {
        Some(r)
    } else if let Some(r) = spec_type_list(s, i, "union"@, union_alts()) {
        Some(r)
    } else if let Some(r) = spec_type_derived(s, i, false) {
        Some(r)
    } else if let Some(r) = spec_type_derived(s, i, true) {
        Some(r)
    } else {
        spec_type_list(s, i, "identityref"@, base_alts())
    }
}

/// `default "text";`
pub open spec fn spec_default(s: Seq<char>, i: int) -> Option<(int, NodeV)> {
    match spec_single_stmt(s, i, "default"@) {
        Some((e, v)) => Some((e, NodeV::Default(v))),
        None => None,
    }
}

/// `status current;` (or another status): an empty node.
pub open spec fn spec_status(s: Seq<char>, i: int) -> Option<(int, NodeV)> {
    match spec_arg_stmt(s, i, "status"@) {
        Some((e, _)) => Some((e, NodeV::Empty)),
        None => None,
    }
}

/// A substatement of `typedef`.
pub open spec fn spec_typedef_alt(s: Seq<char>, i: int) -> Option<(int, NodeV)> {
    if let Some(r) = spec_default(s, i) {
        Some(r)
    } else if let Some(r) = spec_description(s, i) {
        Some(r)
    } else if let Some(r) = spec_reference(s, i) {
        Some(r)
    } else if let Some(r) = spec_types(s, i) {
        Some(r)
    } else if let Some(r) = spec_status(s, i) {
        Some(r)
    } else {
        spec_comment_node(s, i)
    }
}

/// `k` is the index of the first enumeration node in `vs`.
pub open spec fn is_first_enumeration(vs: Seq<NodeV>, k: int) -> bool {
    &&& 0 <= k < vs.len()
    &&& vs[k] is Enumeration
    &&& forall|m: int| 0 <= m < k ==> !(#[trigger] vs[m] is Enumeration)
}

/// The index of the first enumeration node in `vs`.
pub open spec fn first_enumeration(vs: Seq<NodeV>) -> Option<int> {
    if exists|k: int| is_first_enumeration(vs, k) {
        Some(choose|k: int| is_first_enumeration(vs, k))
    } else {
        None
    }
}

/// The typedef named `name` whose block holds the statements `vs`: its type
/// is the first enumeration node among them.
pub open spec fn typedef_of(name: Seq<char>, vs: Seq<NodeV>) -> NodeV {
    NodeV::Typedef(
        name,
        match first_enumeration(vs) {
            Some(x) => Some(Box::new(vs[x])),
            None => None,
        },
    )
}

/// A description among a typedef's substatements leaves the typedef as it
/// is: with it or without it, the typedef has the same name and type.  The
/// description stays in the block's statements, not in the typedef.
pub proof fn typedef_ignores_description(name: Seq<char>, vs: Seq<NodeV>, k: int)
    requires
        0 <= k < vs.len(),
        vs[k] is Description,
    ensures
        typedef_of(name, vs) == typedef_of(name, vs.remove(k)),
{
    let w = vs.remove(k);
    assert forall|m: int| 0 <= m < k implies w[m] == vs[m] by {}
    assert forall|m: int| k < m < vs.len() implies w[m - 1] == vs[m] by {}
    if exists|c: int| is_first_enumeration(vs, c) {
        let c = choose|c: int| is_first_enumeration(vs, c);
        let d = if c < k { c } else { c - 1 };
        assert(c != k);
        assert(w[d] == vs[c]);
        assert forall|m: int| 0 <= m < d implies !(#[trigger] w[m] is Enumeration) by {
            if m < k {
                assert(w[m] == vs[m]);
            } else {
                assert(w[m] == vs[m + 1]);
            }
        }
        assert(is_first_enumeration(w, d));
        let d2 = choose|d2: int| is_first_enumeration(w, d2);
        assert(d2 == d);
    } else {
        assert forall|d: int| !is_first_enumeration(w, d) by {
            if is_first_enumeration(w, d) {
                let c = if d < k { d } else { d + 1 };
                assert(vs[c] == w[d]);
                assert forall|m: int| 0 <= m < c implies !(#[trigger] vs[m] is Enumeration) by {
                    if m < k {
                        assert(w[m] == vs[m]);
                    } else if m > k {
                        assert(w[m - 1] == vs[m]);
                    }
                }
                assert(is_first_enumeration(vs, c));
            }
        }
    }
}

/// `typedef NAME { ... }`: the typedef keeps the first enumeration node of its
/// substatements as its type.
pub open spec fn spec_typedef(s: Seq<char>, i: int) -> Option<(int, NodeV)> {
    let j = skip_ws(s, i);
    if has_tag(s, j, "typedef"@) {
        match spec_ws1(s, j + 7) {
            Some(k) => match spec_identifier(s, k) {
                Some(b) => match spec_block(typedef_alts(), s, skip_ws(s, b)) {
                    Some((f, vs)) => Some((f, typedef_of(s.subrange(k, b), vs))),
                    None => None,
                },
                None => None,
            },
            None => None,
        }
    } else {
        None
    }
}

pub fn value_at(inp: &Input, i: usize) -> (r: Option<(usize, Node)>)
    requires
        inp.wf(),
        i <= inp@.len(),
    ensures
        same_node(r, spec_value(inp@, i as int)),
        r matches Some((e, _)) ==> i < e <= inp@.len(),
{
    let s = &inp.chars;
    let j = skip_ws_at(s, i);
    if !tag_at(s, j, "value") {
        return None;
    }
    proof {
        reveal_strlit("value");
    }
    let k = match ws1_at(s, j + 5) {
        Some(k) => k,
        None => return None,
    };
    let (e, a, b) = match dq_at(s, k) {
        Some(e) => (e, k + 1, e - 1),
        None => if k < s.len() && '0' <= s[k] && s[k] <= '9' {
            let e = scan_at(s, k, CharClass::Digit);
            (e, k, e)
        } else {
            return None;
        },
    };
    match stmt_end_at(s, e) {
        Some(f) => Some((f, Node::ValueNode(Box::new(ValueNode { name: inp.string(a, b), nodes: () })))),
        None => None,
    }
}

/// `value N;` or `value "text";`
pub fn value_parse(s: &str) -> (r: PResult<Node>)
    ensures
        node_out(s@, r, spec_value(s@, 0)),
{
    let inp = Input::new(s);
    match value_at(&inp, 0) {
        Some((e, n)) => Ok((inp.rest(e), n)),
        None => Err(ParseError {}),
    }
}

fn enum_alt_at(inp: &Input, i: usize) -> (r: Option<(usize, Node)>)
    requires
        inp.wf(),
        i <= inp@.len(),
    ensures
        same_node(r, spec_enum_alt(inp@, i as int)),
        r matches Some((e, _)) ==> i < e <= inp@.len(),
{
    if let Some(r) = description_at(inp, i) {
        return Some(r);
    }
    if let Some(r) = value_at(inp, i) {
        return Some(r);
    }
    comment_node_at(inp, i)
}

pub open spec fn enum_alts() -> StmtSpec {
    |s: Seq<char>, i: int| spec_enum_alt(s, i)
}

/// The substatements of an enum, in order.
fn enum_many_at(inp: &Input, i: usize) -> (r: (usize, Vec<Node>))
    requires
        inp.wf(),
        i <= inp@.len(),
    ensures
        r.0 == spec_many(enum_alts(), inp@, i as int).0,
        nodes_view(r.1) == spec_many(enum_alts(), inp@, i as int).1,
        i <= r.0 <= inp@.len(),
{
    let mut acc: Vec<Node> = Vec::new();
    let mut p = i;
    assert(nodes_view(acc) =~= Seq::<NodeV>::empty());
    loop
        invariant
            inp.wf(),
            i <= p <= inp@.len(),
            spec_many(enum_alts(), inp@, i as int) == (
                spec_many(enum_alts(), inp@, p as int).0,
                nodes_view(acc) + spec_many(enum_alts(), inp@, p as int).1,
            ),
        decreases inp@.len() - p,
    {
        match enum_alt_at(inp, p) {
            Some((j, n)) => {
                let ghost prev = acc;
                let ghost nv = n@;
                acc.push(n);
                proof {
                    lemma_nodes_view_push(prev, acc, n);
                    let rest = spec_many(enum_alts(), inp@, j as int);
                    assert(nodes_view(prev) + (seq![nv] + rest.1) =~= nodes_view(acc) + rest.1);
                }
                p = j;
            },
            None => {
                assert(nodes_view(acc) + Seq::<NodeV>::empty() =~= nodes_view(acc));
                return (p, acc);
            },
        }
    }
}


/// A block of these statements, or a bare `;`.
fn enum_subs_at(inp: &Input, i: usize) -> (r: Option<(usize, Vec<Node>)>)
    requires
        inp.wf(),
        i <= inp@.len(),
    ensures
        same_nodes(r, spec_subs(enum_alts(), inp@, i as int)),
        r matches Some((e, _)) ==> i < e <= inp@.len(),
{
    if i >= inp.len() {
        return None;
    }
    if char_at(&inp.chars, i, ';') {
        let v: Vec<Node> = Vec::new();
        assert(nodes_view(v) =~= Seq::<NodeV>::empty());
        return Some((i + 1, v));
    }
    if !char_at(&inp.chars, i, '{') {
        return None;
    }
    let (j, v) = enum_many_at(inp, i + 1);
    match close_at(&inp.chars, j) {
        Some(e) => Some((e, v)),
        None => None,
    }
}

pub fn enum_at(inp: &Input, i: usize) -> (r: Option<(usize, Node)>)
    requires
        inp.wf(),
        i <= inp@.len(),
    ensures
        same_node(r, spec_enum(inp@, i as int)),
        r matches Some((e, _)) ==> i < e <= inp@.len(),
{
    let (h, a, b) = match named_head_at(inp, i, "enum") {
        Some(x) => x,
        None => return None,
    };
    match enum_subs_at(inp, h) {
        Some((f, subs)) => Some((f, Node::EnumNode(Box::new(EnumNode { name: inp.string(a, b), nodes: (subs,) })))),
        None => None,
    }
}

/// `enum NAME;` or `enum NAME { description ...; value ...; }`.
pub fn enum_parse(s: &str) -> (r: PResult<Node>)
    ensures
        node_out(s@, r, spec_enum(s@, 0)),
{
    let inp = Input::new(s);
    match enum_at(&inp, 0) {
        Some((e, n)) => Ok((inp.rest(e), n)),
        None => Err(ParseError {}),
    }
}

fn restriction_at(inp: &Input, i: usize, key: &str) -> (r: Option<usize>)
    requires
        inp.wf(),
        i <= inp@.len(),
    ensures
        same_pos(r, spec_restriction(inp@, i as int, key@)),
        r matches Some(e) ==> i < e <= inp@.len(),
{
    match single_stmt_at(inp, i, key) {
        Some((e, _)) => Some(e),
        None => None,
    }
}

fn range_alt_at(inp: &Input, i: usize) -> (r: Option<usize>)
    requires
        inp.wf(),
        i <= inp@.len(),
    ensures
        same_pos(r, spec_range_alt(inp@, i as int)),
        r matches Some(e) ==> i < e <= inp@.len(),
{
    if let Some(e) = restriction_at(inp, i, "range") {
        return Some(e);
    }
    comment_at(&inp.chars, i)
}

fn pattern_at(inp: &Input, i: usize) -> (r: Option<usize>)
    requires
        inp.wf(),
        i <= inp@.len(),
    ensures
        same_pos(r, spec_pattern(inp@, i as int)),
        r matches Some(e) ==> i < e <= inp@.len(),
{
    let s = &inp.chars;
    let j = skip_ws_at(s, i);
    if !tag_at(s, j, "pattern") {
        return None;
    }
    proof {
        reveal_strlit("pattern");
    }
    match ws1_at(s, j + 7) {
        Some(k) => {
            let (e, _) = sq_list_at(inp, k);
            stmt_end_at(s, e)
        },
        None => None,
    }
}

fn restrict_alt_at(inp: &Input, i: usize) -> (r: Option<usize>)
    requires
        inp.wf(),
        i <= inp@.len(),
    ensures
        same_pos(r, spec_restrict_alt(inp@, i as int)),
        r matches Some(e) ==> i < e <= inp@.len(),
{
    if let Some(e) = pattern_at(inp, i) {
        return Some(e);
    }
    if let Some(e) = restriction_at(inp, i, "length") {
        return Some(e);
    }
    if let Some(e) = restriction_at(inp, i, "path") {
        return Some(e);
    }
    comment_at(&inp.chars, i)
}

pub open spec fn range_alts() -> SkipSpec {
    |s: Seq<char>, i: int| spec_range_alt(s, i)
}

/// A block of `range` restrictions, or a bare `;`: its end.
fn range_skip_at(inp: &Input, i: usize) -> (r: Option<usize>)
    requires
        inp.wf(),
        i <= inp@.len(),
    ensures
        same_pos(r, spec_skip_subs(range_alts(), inp@, i as int)),
        r matches Some(e) ==> i < e <= inp@.len(),
{
    if i >= inp.len() {
        return None;
    }
    if char_at(&inp.chars, i, ';') {
        return Some(i + 1);
    }
    if !char_at(&inp.chars, i, '{') {
        return None;
    }
    let mut p = i + 1;
    loop
        invariant
            inp.wf(),
            i < p <= inp@.len(),
            !has_char(inp@, i as int, ';'),
            has_char(inp@, i as int, '{'),
            spec_skip_many(range_alts(), inp@, i + 1) == spec_skip_many(range_alts(), inp@, p as int),
        decreases inp@.len() - p,
    {
        match range_alt_at(inp, p) {
            Some(j) => {
                p = j;
            },
            None => {
                assert(spec_skip_many(range_alts(), inp@, p as int) == p as int);
                return close_at(&inp.chars, p);
            },
        }
    }
}


pub open spec fn restrict_alts() -> SkipSpec {
    |s: Seq<char>, i: int| spec_restrict_alt(s, i)
}

/// A block of `pattern`, `length` and `path` restrictions, or a bare `;`: its end.
fn restrict_skip_at(inp: &Input, i: usize) -> (r: Option<usize>)
    requires
        inp.wf(),
        i <= inp@.len(),
    ensures
        same_pos(r, spec_skip_subs(restrict_alts(), inp@, i as int)),
        r matches Some(e) ==> i < e <= inp@.len(),
{
    if i >= inp.len() {
        return None;
    }
    if char_at(&inp.chars, i, ';') {
        return Some(i + 1);
    }
    if !char_at(&inp.chars, i, '{') {
        return None;
    }
    let mut p = i + 1;
    loop
        invariant
            inp.wf(),
            i < p <= inp@.len(),
            !has_char(inp@, i as int, ';'),
            has_char(inp@, i as int, '{'),
            spec_skip_many(restrict_alts(), inp@, i + 1) == spec_skip_many(restrict_alts(), inp@, p as int),
        decreases inp@.len() - p,
    {
        match restrict_alt_at(inp, p) {
            Some(j) => {
                p = j;
            },
            None => {
                assert(spec_skip_many(restrict_alts(), inp@, p as int) == p as int);
                return close_at(&inp.chars, p);
            },
        }
    }
}

fn type_head_at(s: &Vec<char>, i: usize, kind: &str) -> (r: Option<usize>)
    requires
        i <= s.len(),
    ensures
        same_pos(r, spec_type_head(s@, i as int, kind@)),
        r matches Some(e) ==> i < e <= s.len(),
{
    let j = skip_ws_at(s, i);
    if !tag_at(s, j, "type") {
        return None;
    }
    proof {
        reveal_strlit("type");
    }
    match ws1_at(s, j + 4) {
        Some(k) => if tag_at(s, k, kind) {
            Some(skip_ws_at(s, k + kind.unicode_len()))
        } else {
            None
        },
        None => None,
    }
}

fn type_int_at(inp: &Input, i: usize, name: &str, kind: TypeKind) -> (r: Option<(usize, Node)>)
    requires
        inp.wf(),
        i <= inp@.len(),
    ensures
        same_node(r, spec_type_int(inp@, i as int, name@, kind)),
        r matches Some((e, _)) ==> i < e <= inp@.len(),
{
    match type_head_at(&inp.chars, i, name) {
        Some(h) => match range_skip_at(inp, h) {
            Some(f) => Some((f, Node::Type(Box::new(TypeNode::new(kind))))),
            None => None,
        },
        None => None,
    }
}

fn type_plain_at(inp: &Input, i: usize, name: &str) -> (r: Option<(usize, Node)>)
    requires
        inp.wf(),
        i <= inp@.len(),
    ensures
        same_node(r, spec_type_plain(inp@, i as int, name@)),
        r matches Some((e, _)) ==> i < e <= inp@.len(),
{
    match type_head_at(&inp.chars, i, name) {
        Some(h) => match restrict_skip_at(inp, h) {
            Some(f) => Some((f, Node::EmptyNode)),
            None => None,
        },
        None => None,
    }
}

pub fn base_at(inp: &Input, i: usize) -> (r: Option<(usize, Node)>)
    requires
        inp.wf(),
        i <= inp@.len(),
    ensures
        same_node(r, spec_base(inp@, i as int)),
        r matches Some((e, _)) ==> i < e <= inp@.len(),
{
    let s = &inp.chars;
    let j = skip_ws_at(s, i);
    if !tag_at(s, j, "base") {
        return None;
    }
    proof {
        reveal_strlit("base");
    }
    let k = match ws1_at(s, j + 4) {
        Some(k) => k,
        None => return None,
    };
    let (e, a) = match path_identifier_at(s, k) {
        Some((e, b)) => (e, b),
        None => match identifier_at(s, k) {
            Some(e) => (e, k),
            None => return None,
        },
    };
    match stmt_end_at(s, e) {
        Some(f) => Some((f, Node::Base(Box::new(BaseNode { name: inp.string(a, e) })))),
        None => None,
    }
}

/// `base NAME;` or `base prefix:NAME;`; the node holds `NAME`.
pub fn base_parse(s: &str) -> (r: PResult<Node>)
    ensures
        node_out(s@, r, spec_base(s@, 0)),
{
    let inp = Input::new(s);
    match base_at(&inp, 0) {
        Some((e, n)) => Ok((inp.rest(e), n)),
        None => Err(ParseError {}),
    }
}

fn type_ref_at(inp: &Input, i: usize) -> (r: Option<(usize, Node)>)
    requires
        inp.wf(),
        i <= inp@.len(),
    ensures
        same_node(r, spec_type_ref(inp@, i as int)),
        r matches Some((e, _)) ==> i < e <= inp@.len(),
{
    let s = &inp.chars;
    let j = skip_ws_at(s, i);
    if !tag_at(s, j, "type") {
        return None;
    }
    proof {
        reveal_strlit("type");
    }
    match ws1_at(s, j + 4) {
        Some(k) => match path_identifier_at(s, k) {
            Some((e, _)) => match stmt_end_at(s, e) {
                Some(f) => Some((f, Node::EmptyNode)),
                None => None,
            },
            None => None,
        },
        None => None,
    }
}

fn type_derived_at(inp: &Input, i: usize, prefixed: bool) -> (r: Option<(usize, Node)>)
    requires
        inp.wf(),
        i <= inp@.len(),
    ensures
        same_node(r, spec_type_derived(inp@, i as int, prefixed)),
        r matches Some((e, _)) ==> i < e <= inp@.len(),
{
    let s = &inp.chars;
    let j = skip_ws_at(s, i);
    if !tag_at(s, j, "type") {
        return None;
    }
    proof {
        reveal_strlit("type");
    }
    let k = match ws1_at(s, j + 4) {
        Some(k) => k,
        None => return None,
    };
    let e = if prefixed {
        match path_identifier_at(s, k) {
            Some((e, _)) => e,
            None => return None,
        }
    } else {
        match identifier_at(s, k) {
            Some(e) => e,
            None => return None,
        }
    };
    match restrict_skip_at(inp, skip_ws_at(s, e)) {
        Some(f) => Some((f, Node::EmptyNode)),
        None => None,
    }
}

fn enum_list_alt_at(inp: &Input, i: usize) -> (r: Option<(usize, Node)>)
    requires
        inp.wf(),
        i <= inp@.len(),
    ensures
        same_node(r, spec_enum_list_alt(inp@, i as int)),
        r matches Some((e, _)) ==> i < e <= inp@.len(),
{
    if let Some(r) = enum_at(inp, i) {
        return Some(r);
    }
    comment_node_at(inp, i)
}

fn union_alt_at(inp: &Input, i: usize) -> (r: Option<(usize, Node)>)
    requires
        inp.wf(),
        i <= inp@.len(),
    ensures
        same_node(r, spec_union_alt(inp@, i as int)),
        r matches Some((e, _)) ==> i < e <= inp@.len(),
{
    if let Some(r) = type_ref_at(inp, i) {
        return Some(r);
    }
    comment_node_at(inp, i)
}

fn base_alt_at(inp: &Input, i: usize) -> (r: Option<(usize, Node)>)
    requires
        inp.wf(),
        i <= inp@.len(),
    ensures
        same_node(r, spec_base_alt(inp@, i as int)),
        r matches Some((e, _)) ==> i < e <= inp@.len(),
{
    if let Some(r) = base_at(inp, i) {
        return Some(r);
    }
    comment_node_at(inp, i)
}

pub open spec fn enum_alts_list() -> StmtSpec {
    |s: Seq<char>, i: int| spec_enum_list_alt(s, i)
}

/// The enums of an enumeration, in order.
fn enum_list_many_at(inp: &Input, i: usize) -> (r: (usize, Vec<Node>))
    requires
        inp.wf(),
        i <= inp@.len(),
    ensures
        r.0 == spec_many(enum_alts_list(), inp@, i as int).0,
        nodes_view(r.1) == spec_many(enum_alts_list(), inp@, i as int).1,
        i <= r.0 <= inp@.len(),
{
    let mut acc: Vec<Node> = Vec::new();
    let mut p = i;
    assert(nodes_view(acc) =~= Seq::<NodeV>::empty());
    loop
        invariant
            inp.wf(),
            i <= p <= inp@.len(),
            spec_many(enum_alts_list(), inp@, i as int) == (
                spec_many(enum_alts_list(), inp@, p as int).0,
                nodes_view(acc) + spec_many(enum_alts_list(), inp@, p as int).1,
            ),
        decreases inp@.len() - p,
    {
        match enum_list_alt_at(inp, p) {
            Some((j, n)) => {
                let ghost prev = acc;
                let ghost nv = n@;
                acc.push(n);
                proof {
                    lemma_nodes_view_push(prev, acc, n);
                    let rest = spec_many(enum_alts_list(), inp@, j as int);
                    assert(nodes_view(prev) + (seq![nv] + rest.1) =~= nodes_view(acc) + rest.1);
                }
                p = j;
            },
            None => {
                assert(nodes_view(acc) + Seq::<NodeV>::empty() =~= nodes_view(acc));
                return (p, acc);
            },
        }
    }
}


/// A block of these statements.
fn enum_list_block_at(inp: &Input, i: usize) -> (r: Option<(usize, Vec<Node>)>)
    requires
        inp.wf(),
        i <= inp@.len(),
    ensures
        same_nodes(r, spec_block(enum_alts_list(), inp@, i as int)),
        r matches Some((e, _)) ==> i < e <= inp@.len(),
{
    if i >= inp.len() {
        return None;
    }
    if !char_at(&inp.chars, i, '{') {
        return None;
    }
    let (j, v) = enum_list_many_at(inp, i + 1);
    match close_at(&inp.chars, j) {
        Some(e) => Some((e, v)),
        None => None,
    }
}


pub open spec fn union_alts() -> StmtSpec {
    |s: Seq<char>, i: int| spec_union_alt(s, i)
}

/// The member types of a union, in order.
fn union_many_at(inp: &Input, i: usize) -> (r: (usize, Vec<Node>))
    requires
        inp.wf(),
        i <= inp@.len(),
    ensures
        r.0 == spec_many(union_alts(), inp@, i as int).0,
        nodes_view(r.1) == spec_many(union_alts(), inp@, i as int).1,
        i <= r.0 <= inp@.len(),
{
    let mut acc: Vec<Node> = Vec::new();
    let mut p = i;
    assert(nodes_view(acc) =~= Seq::<NodeV>::empty());
    loop
        invariant
            inp.wf(),
            i <= p <= inp@.len(),
            spec_many(union_alts(), inp@, i as int) == (
                spec_many(union_alts(), inp@, p as int).0,
                nodes_view(acc) + spec_many(union_alts(), inp@, p as int).1,
            ),
        decreases inp@.len() - p,
    {
        match union_alt_at(inp, p) {
            Some((j, n)) => {
                let ghost prev = acc;
                let ghost nv = n@;
                acc.push(n);
                proof {
                    lemma_nodes_view_push(prev, acc, n);
                    let rest = spec_many(union_alts(), inp@, j as int);
                    assert(nodes_view(prev) + (seq![nv] + rest.1) =~= nodes_view(acc) + rest.1);
                }
                p = j;
            },
            None => {
                assert(nodes_view(acc) + Seq::<NodeV>::empty() =~= nodes_view(acc));
                return (p, acc);
            },
        }
    }
}


/// A block of these statements.
fn union_block_at(inp: &Input, i: usize) -> (r: Option<(usize, Vec<Node>)>)
    requires
        inp.wf(),
        i <= inp@.len(),
    ensures
        same_nodes(r, spec_block(union_alts(), inp@, i as int)),
        r matches Some((e, _)) ==> i < e <= inp@.len(),
{
    if i >= inp.len() {
        return None;
    }
    if !char_at(&inp.chars, i, '{') {
        return None;
    }
    let (j, v) = union_many_at(inp, i + 1);
    match close_at(&inp.chars, j) {
        Some(e) => Some((e, v)),
        None => None,
    }
}


pub open spec fn base_alts() -> StmtSpec {
    |s: Seq<char>, i: int| spec_base_alt(s, i)
}

/// The bases of an identityref, in order.
fn base_many_at(inp: &Input, i: usize) -> (r: (usize, Vec<Node>))
    requires
        inp.wf(),
        i <= inp@.len(),
    ensures
        r.0 == spec_many(base_alts(), inp@, i as int).0,
        nodes_view(r.1) == spec_many(base_alts(), inp@, i as int).1,
        i <= r.0 <= inp@.len(),
{
    let mut acc: Vec<Node> = Vec::new();
    let mut p = i;
    assert(nodes_view(acc) =~= Seq::<NodeV>::empty());
    loop
        invariant
            inp.wf(),
            i <= p <= inp@.len(),
            spec_many(base_alts(), inp@, i as int) == (
                spec_many(base_alts(), inp@, p as int).0,
                nodes_view(acc) + spec_many(base_alts(), inp@, p as int).1,
            ),
        decreases inp@.len() - p,
    {
        match base_alt_at(inp, p) {
            Some((j, n)) => {
                let ghost prev = acc;
                let ghost nv = n@;
                acc.push(n);
                proof {
                    lemma_nodes_view_push(prev, acc, n);
                    let rest = spec_many(base_alts(), inp@, j as int);
                    assert(nodes_view(prev) + (seq![nv] + rest.1) =~= nodes_view(acc) + rest.1);
                }
                p = j;
            },
            None => {
                assert(nodes_view(acc) + Seq::<NodeV>::empty() =~= nodes_view(acc));
                return (p, acc);
            },
        }
    }
}


/// A block of these statements.
fn base_block_at(inp: &Input, i: usize) -> (r: Option<(usize, Vec<Node>)>)
    requires
        inp.wf(),
        i <= inp@.len(),
    ensures
        same_nodes(r, spec_block(base_alts(), inp@, i as int)),
        r matches Some((e, _)) ==> i < e <= inp@.len(),
{
    if i >= inp.len() {
        return None;
    }
    if !char_at(&inp.chars, i, '{') {
        return None;
    }
    let (j, v) = base_many_at(inp, i + 1);
    match close_at(&inp.chars, j) {
        Some(e) => Some((e, v)),
        None => None,
    }
}

fn type_enumeration_at(inp: &Input, i: usize) -> (r: Option<(usize, Node)>)
    requires
        inp.wf(),
        i <= inp@.len(),
    ensures
        same_node(r, spec_type_list(inp@, i as int, "enumeration"@, enum_alts_list())),
        r matches Some((e, _)) ==> i < e <= inp@.len(),
{
    match type_head_at(&inp.chars, i, "enumeration") {
        Some(h) => match enum_list_block_at(inp, h) {
            Some((f, v)) => Some((f, Node::EnumerationNode(Box::new(EnumerationNode::new(v))))),
            None => None,
        },
        None => None,
    }
}

/// `type enumeration { enum ...; ... }`: an enumeration node of the enums.
pub fn type_enumeration_parse(s: &str) -> (r: PResult<Node>)
    ensures
        node_out(s@, r, spec_type_list(s@, 0, "enumeration"@, enum_alts_list())),
{
    let inp = Input::new(s);
    match type_enumeration_at(&inp, 0) {
        Some((e, n)) => Ok((inp.rest(e), n)),
        None => Err(ParseError {}),
    }
}

fn type_union_at(inp: &Input, i: usize) -> (r: Option<(usize, Node)>)
    requires
        inp.wf(),
        i <= inp@.len(),
    ensures
        same_node(r, spec_type_list(inp@, i as int, "union"@, union_alts())),
        r matches Some((e, _)) ==> i < e <= inp@.len(),
{
    match type_head_at(&inp.chars, i, "union") {
        Some(h) => match union_block_at(inp, h) {
            Some((f, v)) => Some((f, Node::EnumerationNode(Box::new(EnumerationNode::new(v))))),
            None => None,
        },
        None => None,
    }
}

fn type_identityref_at(inp: &Input, i: usize) -> (r: Option<(usize, Node)>)
    requires
        inp.wf(),
        i <= inp@.len(),
    ensures
        same_node(r, spec_type_list(inp@, i as int, "identityref"@, base_alts())),
        r matches Some((e, _)) ==> i < e <= inp@.len(),
{
    match type_head_at(&inp.chars, i, "identityref") {
        Some(h) => match base_block_at(inp, h) {
            Some((f, v)) => Some((f, Node::EnumerationNode(Box::new(EnumerationNode::new(v))))),
            None => None,
        },
        None => None,
    }
}

/// `type identityref { base ...; ... }`: an enumeration node of the bases.
pub fn type_identityref_parse(s: &str) -> (r: PResult<Node>)
    ensures
        node_out(s@, r, spec_type_list(s@, 0, "identityref"@, base_alts())),
{
    let inp = Input::new(s);
    match type_identityref_at(&inp, 0) {
        Some((e, n)) => Ok((inp.rest(e), n)),
        None => Err(ParseError {}),
    }
}

pub fn types_at(inp: &Input, i: usize) -> (r: Option<(usize, Node)>)
    requires
        inp.wf(),
        i <= inp@.len(),
    ensures
        same_node(r, spec_types(inp@, i as int)),
        r matches Some((e, _)) ==> i < e <= inp@.len(),
{
    if let Some(r) = type_int_at(inp, i, "int8", TypeKind::Yint8) {
        return Some(r);
    }
    if let Some(r) = type_int_at(inp, i, "int16", TypeKind::Yint16) {
        return Some(r);
    }
    if let Some(r) = type_int_at(inp, i, "int32", TypeKind::Yint32) {
        return Some(r);
    }
    if let Some(r) = type_int_at(inp, i, "int64", TypeKind::Yint64) {
        return Some(r);
    }
    if let Some(r) = type_int_at(inp, i, "uint8", TypeKind::Yuint8) {
        return Some(r);
    }
    if let Some(r) = type_int_at(inp, i, "uint16", TypeKind::Yuint16) {
        return Some(r);
    }
    if let Some(r) = type_int_at(inp, i, "uint32", TypeKind::Yuint32) {
        return Some(r);
    }
    if let Some(r) = type_int_at(inp, i, "uint64", TypeKind::Yuint64) {
        return Some(r);
    }
    if let Some(r) = type_plain_at(inp, i, "string") {
        return Some(r);
    }
    if let Some(r) = type_plain_at(inp, i, "boolean") {
        return Some(r);
    }
    if let Some(r) = type_enumeration_at(inp, i) {
        return Some(r);
    }
    if let Some(r) = type_union_at(inp, i) {
        return Some(r);
    }
    if let Some(r) = type_derived_at(inp, i, false) {
        return Some(r);
    }
    if let Some(r) = type_derived_at(inp, i, true) {
        return Some(r);
    }
    type_identityref_at(inp, i)
}

/// A `type` statement in any of its forms, tried from the built-in integer
/// types through `string`, `boolean`, `enumeration`, `union` and derived
/// types to `identityref`.
pub fn types_parse(s: &str) -> (r: PResult<Node>)
    ensures
        node_out(s@, r, spec_types(s@, 0)),
{
    let inp = Input::new(s);
    match types_at(&inp, 0) {
        Some((e, n)) => Ok((inp.rest(e), n)),
        None => Err(ParseError {}),
    }
}

/// `type string;` or with a block of restrictions: an empty node.
pub fn type_string_at(inp: &Input, i: usize) -> (r: Option<(usize, Node)>)
    requires
        inp.wf(),
        i <= inp@.len(),
    ensures
        same_node(r, spec_type_plain(inp@, i as int, "string"@)),
        r matches Some((e, _)) ==> i < e <= inp@.len(),
{
    type_plain_at(inp, i, "string")
}

pub fn default_at(inp: &Input, i: usize) -> (r: Option<(usize, Node)>)
    requires
        inp.wf(),
        i <= inp@.len(),
    ensures
        same_node(r, spec_default(inp@, i as int)),
        r matches Some((e, _)) ==> i < e <= inp@.len(),
{
    match single_stmt_at(inp, i, "default") {
        Some((e, v)) => Some((e, Node::Default(Box::new(DefaultNode { name: v })))),
        None => None,
    }
}

/// `default "text";`
pub fn default_parse(s: &str) -> (r: PResult<Node>)
    ensures
        node_out(s@, r, spec_default(s@, 0)),
{
    let inp = Input::new(s);
    match default_at(&inp, 0) {
        Some((e, n)) => Ok((inp.rest(e), n)),
        None => Err(ParseError {}),
    }
}

fn status_at(inp: &Input, i: usize) -> (r: Option<(usize, Node)>)
    requires
        inp.wf(),
        i <= inp@.len(),
    ensures
        same_node(r, spec_status(inp@, i as int)),
        r matches Some((e, _)) ==> i < e <= inp@.len(),
{
    match arg_stmt_at(inp, i, "status") {
        Some((e, _)) => Some((e, Node::EmptyNode)),
        None => None,
    }
}

fn typedef_alt_at(inp: &Input, i: usize) -> (r: Option<(usize, Node)>)
    requires
        inp.wf(),
        i <= inp@.len(),
    ensures
        same_node(r, spec_typedef_alt(inp@, i as int)),
        r matches Some((e, _)) ==> i < e <= inp@.len(),
{
    if let Some(r) = default_at(inp, i) {
        return Some(r);
    }
    if let Some(r) = description_at(inp, i) {
        return Some(r);
    }
    if let Some(r) = reference_at(inp, i) {
        return Some(r);
    }
    if let Some(r) = types_at(inp, i) {
        return Some(r);
    }
    if let Some(r) = status_at(inp, i) {
        return Some(r);
    }
    comment_node_at(inp, i)
}

pub open spec fn typedef_alts() -> StmtSpec {
    |s: Seq<char>, i: int| spec_typedef_alt(s, i)
}

/// The substatements of a typedef, in order.
fn typedef_many_at(inp: &Input, i: usize) -> (r: (usize, Vec<Node>))
    requires
        inp.wf(),
        i <= inp@.len(),
    ensures
        r.0 == spec_many(typedef_alts(), inp@, i as int).0,
        nodes_view(r.1) == spec_many(typedef_alts(), inp@, i as int).1,
        i <= r.0 <= inp@.len(),
{
    let mut acc: Vec<Node> = Vec::new();
    let mut p = i;
    assert(nodes_view(acc) =~= Seq::<NodeV>::empty());
    loop
        invariant
            inp.wf(),
            i <= p <= inp@.len(),
            spec_many(typedef_alts(), inp@, i as int) == (
                spec_many(typedef_alts(), inp@, p as int).0,
                nodes_view(acc) + spec_many(typedef_alts(), inp@, p as int).1,
            ),
        decreases inp@.len() - p,
    {
        match typedef_alt_at(inp, p) {
            Some((j, n)) => {
                let ghost prev = acc;
                let ghost nv = n@;
                acc.push(n);
                proof {
                    lemma_nodes_view_push(prev, acc, n);
                    let rest = spec_many(typedef_alts(), inp@, j as int);
                    assert(nodes_view(prev) + (seq![nv] + rest.1) =~= nodes_view(acc) + rest.1);
                }
                p = j;
            },
            None => {
                assert(nodes_view(acc) + Seq::<NodeV>::empty() =~= nodes_view(acc));
                return (p, acc);
            },
        }
    }
}


/// A block of these statements.
fn typedef_block_at(inp: &Input, i: usize) -> (r: Option<(usize, Vec<Node>)>)
    requires
        inp.wf(),
        i <= inp@.len(),
    ensures
        same_nodes(r, spec_block(typedef_alts(), inp@, i as int)),
        r matches Some((e, _)) ==> i < e <= inp@.len(),
{
    if i >= inp.len() {
        return None;
    }
    if !char_at(&inp.chars, i, '{') {
        return None;
    }
    let (j, v) = typedef_many_at(inp, i + 1);
    match close_at(&inp.chars, j) {
        Some(e) => Some((e, v)),
        None => None,
    }
}

/// Takes the first enumeration node out of `nodes`; the last node takes its
/// place.
pub fn find_type_node(nodes: &mut Vec<Node>) -> (r: Option<Node>)
    ensures
        match first_enumeration(nodes_view(*old(nodes))) {
            Some(k) => r matches Some(n) && n@ == nodes_view(*old(nodes))[k] && nodes_view(*final(nodes))
                == nodes_view(*old(nodes)).update(k, nodes_view(*old(nodes)).last()).drop_last(),
            None => r is None && final(nodes)@ == old(nodes)@,
        },
{
    let ghost vs = nodes_view(*nodes);
    let mut k: usize = 0;
    while k < nodes.len()
        invariant
            k <= nodes.len(),
            *nodes == *old(nodes),
            vs == nodes_view(*nodes),
            forall|m: int| 0 <= m < k ==> !(#[trigger] vs[m] is Enumeration),
        decreases nodes.len() - k,
    {
        assert(vs[k as int] == nodes[k as int]@);
        if let Node::EnumerationNode(_) = &nodes[k] {
            assert(is_first_enumeration(vs, k as int));
            let ghost before = *nodes;
            let n = nodes.swap_remove(k);
            proof {
                let c = choose|c: int| is_first_enumeration(vs, c);
                assert(c == k);
                assert(nodes_view(*nodes) =~= vs.update(k as int, vs.last()).drop_last());
                assert(vs == nodes_view(*old(nodes)));
                assert(first_enumeration(vs) == Some(k as int));
                assert(n@ == vs[k as int]);
            }
            return Some(n);
        }
        k = k + 1;
    }
    assert(!exists|c: int| is_first_enumeration(vs, c));
    assert(vs == nodes_view(*old(nodes)));
    assert(first_enumeration(nodes_view(*old(nodes))) is None);
    None
}

pub fn typedef_at(inp: &Input, i: usize) -> (r: Option<(usize, Node)>)
    requires
        inp.wf(),
        i <= inp@.len(),
    ensures
        same_node(r, spec_typedef(inp@, i as int)),
        r matches Some((e, _)) ==> i < e <= inp@.len(),
{
    let s = &inp.chars;
    let j = skip_ws_at(s, i);
    if !tag_at(s, j, "typedef") {
        return None;
    }
    proof {
        reveal_strlit("typedef");
    }
    let k = match ws1_at(s, j + 7) {
        Some(k) => k,
        None => return None,
    };
    let b = match identifier_at(s, k) {
        Some(b) => b,
        None => return None,
    };
    let (f, mut subs) = match typedef_block_at(inp, skip_ws_at(s, b)) {
        Some(x) => x,
        None => return None,
    };
    let typ = find_type_node(&mut subs);
    Some((f, Node::Typedef(Box::new(TypedefNode::new(inp.string(k, b), typ)))))
}

/// `typedef NAME { ... }`.  The typedef keeps the first enumeration node among
/// its substatements as its type; the other substatements are not kept.
pub fn typedef_parse(s: &str) -> (r: PResult<Node>)
    ensures
        node_out(s@, r, spec_typedef(s@, 0)),
{
    let inp = Input::new(s);
    match typedef_at(&inp, 0) {
        Some((e, n)) => Ok((inp.rest(e), n)),
        None => Err(ParseError {}),
    }
}

} // verus!
