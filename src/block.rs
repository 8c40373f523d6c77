//! Repetition of substatements and the `{ ... }` / `;` statement bodies.
use vstd::prelude::*;
use crate::node::{nodes_view, Node, NodeV};
use crate::text::{has_char, skip_ws, char_at, skip_ws_at, PResult};

verus! {

/// A statement parser as a spec function: from text and position to the end
/// position and the node.
pub type StmtSpec = spec_fn(Seq<char>, int) -> Option<(int, NodeV)>;

/// As many statements of `p` as follow position `i`, in order.
pub open spec fn spec_many(p: StmtSpec, s: Seq<char>, i: int) -> (int, Seq<NodeV>)
    decreases s.len() - i,
{
    match p(s, i) {
        Some((j, v)) => if i < j <= s.len() {
            let (k, vs) = spec_many(p, s, j);
            (k, seq![v] + vs)
        } else {
            (i, Seq::empty())
        },
        None => (i, Seq::empty()),
    }
}

/// `{`, statements of `p`, optional whitespace, `}`.
pub open spec fn spec_block(p: StmtSpec, s: Seq<char>, i: int) -> Option<(int, Seq<NodeV>)> {
    let (j, vs) = spec_many(p, s, i + 1);
    if has_char(s, i, '{') && has_char(s, skip_ws(s, j), '}') {
        Some((skip_ws(s, j) + 1, vs))
    } else {
        None
    }
}

/// A block of statements of `p`, or a bare `;` with none.
pub open spec fn spec_subs(p: StmtSpec, s: Seq<char>, i: int) -> Option<(int, Seq<NodeV>)> {
    if has_char(s, i, ';') {
        Some((i + 1, Seq::empty()))
    } else {
        spec_block(p, s, i)
    }
}

/// A position-only parser, for substatements whose content is not kept.
pub type SkipSpec = spec_fn(Seq<char>, int) -> Option<int>;

pub open spec fn spec_skip_many(p: SkipSpec, s: Seq<char>, i: int) -> int
    decreases s.len() - i,
{
    match p(s, i) {
        Some(j) => if i < j <= s.len() {
            spec_skip_many(p, s, j)
        } else {
            i
        },
        None => i,
    }
}

pub open spec fn spec_skip_block(p: SkipSpec, s: Seq<char>, i: int) -> Option<int> {
    let j = spec_skip_many(p, s, i + 1);
    if has_char(s, i, '{') && has_char(s, skip_ws(s, j), '}') {
        Some(skip_ws(s, j) + 1)
    } else {
        None
    }
}

pub open spec fn spec_skip_subs(p: SkipSpec, s: Seq<char>, i: int) -> Option<int> {
    if has_char(s, i, ';') {
        Some(i + 1)
    } else {
        spec_skip_block(p, s, i)
    }
}

/// Internal result of a block: end position and nodes.
pub open spec fn same_nodes(r: Option<(usize, Vec<Node>)>, m: Option<(int, Seq<NodeV>)>) -> bool {
    match m {
        Some((e, vs)) => r matches Some((p, v)) && p == e && nodes_view(v) == vs,
        None => r is None,
    }
}

/// A public parser's result agrees with a spec block result `(end, nodes)`.
pub open spec fn nodes_out(s: Seq<char>, r: PResult<Vec<Node>>, m: Option<(int, Seq<NodeV>)>) -> bool {
    match m {
        Some((e, vs)) => r matches Ok((rest, v)) && rest@ == s.subrange(e, s.len() as int) && nodes_view(v) == vs,
        None => r is Err,
    }
}

pub proof fn lemma_nodes_view_push(v: Vec<Node>, w: Vec<Node>, n: Node)
    requires
        w@ == v@.push(n),
    ensures
        nodes_view(w) == nodes_view(v).push(n@),
{
    assert(nodes_view(w) =~= nodes_view(v).push(n@));
}

/// Closes a block whose statements end at `j`: optional whitespace and `}`.
pub fn close_at(s: &Vec<char>, j: usize) -> (r: Option<usize>)
    requires
        j <= s.len(),
    ensures
        has_char(s@, skip_ws(s@, j as int), '}') ==> r == Some((skip_ws(s@, j as int) + 1) as usize),
        !has_char(s@, skip_ws(s@, j as int), '}') ==> r is None,
        r matches Some(e) ==> j < e <= s.len(),
{
    let k = skip_ws_at(s, j);
    if char_at(s, k, '}') {
        Some(k + 1)
    } else {
        None
    }
}

} // verus!
