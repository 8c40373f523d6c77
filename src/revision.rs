//! Revision dates (`YYYY-MM-DD`, bare or quoted) and the `revision` statement.
use vstd::prelude::*;
use crate::block::{close_at, lemma_nodes_view_push, same_nodes, spec_many, spec_subs, StmtSpec};
use crate::fields::{find_last, Field};
use crate::lexer::{
    comment_node_at, spec_comment_node, description_at, node_out, reference_at, same_node, spec_description, spec_reference,
};
use crate::modules::RevisionNode;
use crate::node::{nodes_view, Node, NodeV};
use crate::text::{
    has_char, has_tag, is_digit, skip_ws, spec_ws1, char_at, skip_ws_at, tag_at, ws1_at, Input,
    PResult, ParseError,
};

verus! {

/// A date `YYYY-MM-DD` of ASCII digits at `i`.
pub open spec fn is_date_at(s: Seq<char>, i: int) -> bool {
    &&& 0 <= i && i + 10 <= s.len()
    &&& is_digit(s[i]) && is_digit(s[i + 1]) && is_digit(s[i + 2]) && is_digit(s[i + 3])
    &&& s[i + 4] == '-'
    &&& is_digit(s[i + 5]) && is_digit(s[i + 6])
    &&& s[i + 7] == '-'
    &&& is_digit(s[i + 8]) && is_digit(s[i + 9])
}

/// A date, bare or in double quotes: the end and the date.
pub open spec fn spec_date_token(s: Seq<char>, i: int) -> Option<(int, Seq<char>)> {
    if is_date_at(s, i) {
        Some((i + 10, s.subrange(i, i + 10)))
    } else if has_char(s, i, '"') && is_date_at(s, i + 1) && has_char(s, i + 11, '"') {
        Some((i + 12, s.subrange(i + 1, i + 11)))
    } else {
        None
    }
}

/// A substatement of `revision`.
pub open spec fn spec_revision_alt(s: Seq<char>, i: int) -> Option<(int, NodeV)> {
    if let Some(r) = spec_description(s, i) {
        Some(r)
    } else if let Some(r) = spec_reference(s, i) {
        Some(r)
    } else {
        spec_comment_node(s, i)
    }
}

/// `revision DATE;` or `revision DATE { description ...; reference ...; }`.
/// Where a substatement repeats, the last one counts.
pub open spec fn spec_revision(s: Seq<char>, i: int) -> Option<(int, NodeV)> {
    let j = skip_ws(s, i);
    if has_tag(s, j, "revision"@) {
        match spec_ws1(s, j + 8) {
            Some(k) => match spec_date_token(s, k) {
                Some((e, d)) => match spec_subs(revision_alts(), s, skip_ws(s, e)) {
                    Some((f, vs)) => Some(
                        (
                            f,
                            NodeV::Revision(
                                d,
                                find_last(vs, Field::Description),
                                find_last(vs, Field::Reference),
                            ),
                        ),
                    ),
                    None => None,
                },
                None => None,
            },
            None => None,
        }
    } else {
        None
    }
}

fn digit(c: char) -> (b: bool)
    ensures
        b == is_digit(c),
{
    '0' <= c && c <= '9'
}

fn date_at(s: &Vec<char>, i: usize) -> (b: bool)
    requires
        i <= s.len(),
    ensures
        b == is_date_at(s@, i as int),
{
    s.len() - i >= 10 && digit(s[i]) && digit(s[i + 1]) && digit(s[i + 2]) && digit(s[i + 3]) && s[i
        + 4] == '-' && digit(s[i + 5]) && digit(s[i + 6]) && s[i + 7] == '-' && digit(s[i + 8])
        && digit(s[i + 9])
}

pub fn date_token_at(s: &Vec<char>, i: usize) -> (r: Option<(usize, usize)>)
    requires
        i <= s.len(),
    ensures
        match spec_date_token(s@, i as int) {
            Some((e, _)) => r matches Some((x, y)) && x == e && y == if is_date_at(s@, i as int) {
                i as int
            } else {
                i + 1
            },
            None => r is None,
        },
        r matches Some((e, b)) ==> i < e <= s.len() && e - b >= 10,
{
    if date_at(s, i) {
        Some((i + 10, i))
    } else if char_at(s, i, '"') && date_at(s, i + 1) && char_at(s, i + 11, '"') {
        Some((i + 12, i + 1))
    } else {
        None
    }
}

/// A bare date `YYYY-MM-DD`; the node is a revision of that date.
pub fn revision_date_parse(s: &str) -> (r: PResult<Node>)
    ensures
        node_out(
            s@,
            r,
            if is_date_at(s@, 0) {
                Some((10, NodeV::Revision(s@.subrange(0, 10), None, None)))
            } else {
                None
            },
        ),
{
    let inp = Input::new(s);
    if date_at(&inp.chars, 0) {
        Ok((inp.rest(10), Node::Revision(Box::new(RevisionNode::new(inp.string(0, 10))))))
    } else {
        Err(ParseError {})
    }
}

/// A date in double quotes; the node is a revision of that date.
pub fn revision_date_quoted_parse(s: &str) -> (r: PResult<Node>)
    ensures
        node_out(
            s@,
            r,
            if has_char(s@, 0, '"') && is_date_at(s@, 1) && has_char(s@, 11, '"') {
                Some((12, NodeV::Revision(s@.subrange(1, 11), None, None)))
            } else {
                None
            },
        ),
{
    let inp = Input::new(s);
    if char_at(&inp.chars, 0, '"') && date_at(&inp.chars, 1) && char_at(&inp.chars, 11, '"') {
        Ok((inp.rest(12), Node::Revision(Box::new(RevisionNode::new(inp.string(1, 11))))))
    } else {
        Err(ParseError {})
    }
}

/// A date, bare or quoted; the node is a revision of that date.
pub fn revision_date_token_parse(s: &str) -> (r: PResult<Node>)
    ensures
        node_out(
            s@,
            r,
            match spec_date_token(s@, 0) {
                Some((e, d)) => Some((e, NodeV::Revision(d, None, None))),
                None => None,
            },
        ),
{
    let inp = Input::new(s);
    match date_token_at(&inp.chars, 0) {
        Some((e, b)) => Ok(
            (inp.rest(e), Node::Revision(Box::new(RevisionNode::new(inp.string(b, b + 10))))),
        ),
        None => Err(ParseError {}),
    }
}

fn revision_alt_at(inp: &Input, i: usize) -> (r: Option<(usize, Node)>)
    requires
        inp.wf(),
        i <= inp@.len(),
    ensures
        same_node(r, spec_revision_alt(inp@, i as int)),
        r matches Some((e, _)) ==> i < e <= inp@.len(),
{
    if let Some(r) = description_at(inp, i) {
        return Some(r);
    }
    if let Some(r) = reference_at(inp, i) {
        return Some(r);
    }
    comment_node_at(inp, i)
}

pub open spec fn revision_alts() -> StmtSpec {
    |s: Seq<char>, i: int| spec_revision_alt(s, i)
}

/// The substatements of a revision, in order.
fn revision_many_at(inp: &Input, i: usize) -> (r: (usize, Vec<Node>))
    requires
        inp.wf(),
        i <= inp@.len(),
    ensures
        r.0 == spec_many(revision_alts(), inp@, i as int).0,
        nodes_view(r.1) == spec_many(revision_alts(), inp@, i as int).1,
        i <= r.0 <= inp@.len(),
{
    let mut acc: Vec<Node> = Vec::new();
    let mut p = i;
    assert(nodes_view(acc) =~= Seq::<NodeV>::empty());
    loop
        invariant
            inp.wf(),
            i <= p <= inp@.len(),
            spec_many(revision_alts(), inp@, i as int) == (
                spec_many(revision_alts(), inp@, p as int).0,
                nodes_view(acc) + spec_many(revision_alts(), inp@, p as int).1,
            ),
        decreases inp@.len() - p,
    {
        match revision_alt_at(inp, p) {
            Some((j, n)) => {
                let ghost prev = acc;
                let ghost nv = n@;
                acc.push(n);
                proof {
                    lemma_nodes_view_push(prev, acc, n);
                    let rest = spec_many(revision_alts(), inp@, j as int);
                    assert(nodes_view(prev) + (seq![nv] + rest.1) =~= nodes_view(acc) + rest.1);
                }
                p = j;
            },
            None => {
                assert(nodes_view(acc) + Seq::<NodeV>::empty() =~= nodes_view(acc));
                return (p, acc);
            },
        }
    }
}


/// A block of these statements, or a bare `;`.
fn revision_subs_at(inp: &Input, i: usize) -> (r: Option<(usize, Vec<Node>)>)
    requires
        inp.wf(),
        i <= inp@.len(),
    ensures
        same_nodes(r, spec_subs(revision_alts(), inp@, i as int)),
        r matches Some((e, _)) ==> i < e <= inp@.len(),
{
    if i >= inp.len() {
        return None;
    }
    if char_at(&inp.chars, i, ';') {
        let v: Vec<Node> = Vec::new();
        assert(nodes_view(v) =~= Seq::<NodeV>::empty());
        return Some((i + 1, v));
    }
    if !char_at(&inp.chars, i, '{') {
        return None;
    }
    let (j, v) = revision_many_at(inp, i + 1);
    match close_at(&inp.chars, j) {
        Some(e) => Some((e, v)),
        None => None,
    }
}

pub fn revision_at(inp: &Input, i: usize) -> (r: Option<(usize, Node)>)
    requires
        inp.wf(),
        i <= inp@.len(),
    ensures
        same_node(r, spec_revision(inp@, i as int)),
        r matches Some((e, _)) ==> i < e <= inp@.len(),
{
    let s = &inp.chars;
    let j = skip_ws_at(s, i);
    if !tag_at(s, j, "revision") {
        return None;
    }
    proof {
        reveal_strlit("revision");
    }
    let k = match ws1_at(s, j + 8) {
        Some(k) => k,
        None => return None,
    };
    let (e, b) = match date_token_at(s, k) {
        Some(x) => x,
        None => return None,
    };
    let (f, subs) = match revision_subs_at(inp, skip_ws_at(s, e)) {
        Some(x) => x,
        None => return None,
    };
    let mut node = RevisionNode::new(inp.string(b, b + 10));
    let ghost vs = nodes_view(subs);
    let mut q: usize = 0;
    assert(vs.subrange(0, 0) =~= Seq::<NodeV>::empty());
    while q < subs.len()
        invariant
            q <= subs.len(),
            vs == nodes_view(subs),
            node.name@ == inp@.subrange(b as int, b + 10),
            crate::node::opt_view(node.description) == find_last(vs.subrange(0, q as int), Field::Description),
            crate::node::opt_view(node.reference) == find_last(vs.subrange(0, q as int), Field::Reference),
        decreases subs.len() - q,
    {
        assert(vs.subrange(0, q + 1).drop_last() =~= vs.subrange(0, q as int));
        assert(vs[q as int] == subs[q as int]@);
        match &subs[q] {
            Node::Description(n) => {
                node.description = Some(n.name.clone());
            },
            Node::Reference(n) => {
                node.reference = Some(n.name.clone());
            },
            _ => {},
        }
        q = q + 1;
    }
    assert(vs.subrange(0, subs.len() as int) =~= vs);
    Some((f, Node::Revision(Box::new(node))))
}

/// A `revision` statement with its optional description and reference.
pub fn revision_parse(s: &str) -> (r: PResult<Node>)
    ensures
        node_out(s@, r, spec_revision(s@, 0)),
{
    let inp = Input::new(s);
    match revision_at(&inp, 0) {
        Some((e, n)) => Ok((inp.rest(e), n)),
        None => Err(ParseError {}),
    }
}

} // verus!
