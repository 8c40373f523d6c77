//! Module-level statements: header texts, `yang-version`, `prefix`,
//! `import`, `include`, `identity`, `feature`, and the schema statements `leaf`,
//! `list`, `container` and `key`.
use vstd::prelude::*;
use crate::block::{
    close_at, lemma_nodes_view_push, nodes_out, same_nodes, spec_block, spec_many, spec_subs,
    StmtSpec,
};
use crate::fields::{find_first, or_empty, Field};
use crate::lexer::{
    comment_node_at, spec_comment_node, arg_stmt_at, description_at, named_head_at, node_out, reference_at, same_node, single_stmt_at,
    spec_single_stmt,
    spec_arg_stmt, spec_description, spec_named_stmt, spec_reference,
};
use crate::container::{ContainerNode, KeyNode, LeafNode, ListNode};
use crate::typestmt::{spec_type_plain, type_string_at};
use crate::modules::{
    ContactNode, FeatureNode, IdentityNode, ImportNode, IncludeNode, NamespaceNode, OrganizationNode,
    DescriptionNode, PrefixNode, RevisionDateNode, YangVersionNode,
};
use crate::node::{nodes_view, opt_view, Node, NodeV};
use crate::revision::{date_token_at, spec_date_token};
use crate::text::{
    has_char, has_tag, same_pos, skip_ws, spec_stmt_end, spec_ws1, text_out, char_at, skip_ws_at,
    stmt_end_at, tag_at, ws1_at, Input, PResult, ParseError,
};

verus! {

/// `prefix NAME;`, the name bare or quoted.
pub open spec fn spec_prefix(s: Seq<char>, i: int) -> Option<(int, NodeV)> {
    match spec_arg_stmt(s, i, "prefix"@) {
        Some((e, v)) => Some((e, NodeV::Prefix(v))),
        None => None,
    }
}

/// The header statements `namespace`, `organization`, `contact` and
/// `description`, with a bare or quoted argument.
pub open spec fn spec_header(s: Seq<char>, i: int) -> Option<(int, NodeV)> {
    match spec_arg_stmt(s, i, "namespace"@) {
        Some((e, v)) => Some((e, NodeV::Namespace(v))),
        None => match spec_arg_stmt(s, i, "organization"@) {
            Some((e, v)) => Some((e, NodeV::Organization(v))),
            None => match spec_arg_stmt(s, i, "contact"@) {
                Some((e, v)) => Some((e, NodeV::Contact(v))),
                None => match spec_arg_stmt(s, i, "description"@) {
                    Some((e, v)) => Some((e, NodeV::Description(v))),
                    None => None,
                },
            },
        },
    }
}

/// A version, `1.1` or `1`, at `k`: its end.
pub open spec fn spec_version_arg(s: Seq<char>, k: int) -> Option<int> {
    if has_tag(s, k, "1.1"@) {
        Some(k + 3)
    } else if has_tag(s, k, "1"@) {
        Some(k + 1)
    } else {
        None
    }
}

/// A version, bare or in double quotes: the end and the version.
pub open spec fn spec_version_token(s: Seq<char>, k: int) -> Option<(int, Seq<char>)> {
    match spec_version_arg(s, k) {
        Some(e) => Some((e, s.subrange(k, e))),
        None => if has_char(s, k, '"') {
            match spec_version_arg(s, k + 1) {
                Some(e) => if has_char(s, e, '"') {
                    Some((e + 1, s.subrange(k + 1, e)))
                } else {
                    None
                },
                None => None,
            }
        } else {
            None
        },
    }
}

/// `yang-version 1.1;`
pub open spec fn spec_yang_version(s: Seq<char>, i: int) -> Option<(int, NodeV)> {
    let j = skip_ws(s, i);
    if has_tag(s, j, "yang-version"@) {
        match spec_ws1(s, j + 12) {
            Some(k) => match spec_version_token(s, k) {
                Some((e, v)) => match spec_stmt_end(s, e) {
                    Some(f) => Some((f, NodeV::YangVersion(v))),
                    None => None,
                },
                None => None,
            },
            None => None,
        }
    } else {
        None
    }
}

/// `revision-date DATE;`, the date bare or quoted.
pub open spec fn spec_revision_date_stmt(s: Seq<char>, i: int) -> Option<(int, NodeV)> {
    let j = skip_ws(s, i);
    if has_tag(s, j, "revision-date"@) {
        match spec_ws1(s, j + 13) {
            Some(k) => match spec_date_token(s, k) {
                Some((e, d)) => match spec_stmt_end(s, e) {
                    Some(f) => Some((f, NodeV::RevisionDate(d))),
                    None => None,
                },
                None => None,
            },
            None => None,
        }
    } else {
        None
    }
}

/// A substatement of `import`, `identity` and `feature`.
pub open spec fn spec_import_alt(s: Seq<char>, i: int) -> Option<(int, NodeV)> {
    match spec_prefix(s, i) {
        Some(r) => Some(r),
        None => match spec_description(s, i) {
            Some(r) => Some(r),
            None => match spec_reference(s, i) {
                Some(r) => Some(r),
                None => match spec_revision_date_stmt(s, i) {
                    Some(r) => Some(r),
                    None => spec_comment_node(s, i),
                },
            },
        },
    }
}

/// `import NAME { ... }`.  Where a substatement repeats, the first one counts.
pub open spec fn spec_import(s: Seq<char>, i: int) -> Option<(int, NodeV)> {
    match spec_named_stmt(s, i, "import"@, import_alts()) {
        Some((f, n, vs)) => Some(
            (
                f,
                NodeV::Import(
                    n,
                    or_empty(find_first(vs, Field::Prefix)),
                    find_first(vs, Field::Description),
                    find_first(vs, Field::Reference),
                    or_empty(find_first(vs, Field::RevisionDate)),
                ),
            ),
        ),
        None => None,
    }
}

/// `include NAME { ... }`; the first description and reference count.
pub open spec fn spec_include(s: Seq<char>, i: int) -> Option<(int, NodeV)> {
    match spec_named_stmt(s, i, "include"@, import_alts()) {
        Some((f, n, vs)) => Some(
            (f, NodeV::Include(n, find_first(vs, Field::Description), find_first(vs, Field::Reference))),
        ),
        None => None,
    }
}

/// `identity NAME { ... }`; the first description counts.
pub open spec fn spec_identity(s: Seq<char>, i: int) -> Option<(int, NodeV)> {
    match spec_named_stmt(s, i, "identity"@, import_alts()) {
        Some((f, n, vs)) => Some((f, NodeV::Identity(n, find_first(vs, Field::Description)))),
        None => None,
    }
}

/// `feature NAME { ... }`; the first description counts.
pub open spec fn spec_feature(s: Seq<char>, i: int) -> Option<(int, NodeV)> {
    match spec_named_stmt(s, i, "feature"@, import_alts()) {
        Some((f, n, vs)) => Some((f, NodeV::Feature(n, find_first(vs, Field::Description)))),
        None => None,
    }
}

pub fn prefix_at(inp: &Input, i: usize) -> (r: Option<(usize, Node)>)
    requires
        inp.wf(),
        i <= inp@.len(),
    ensures
        same_node(r, spec_prefix(inp@, i as int)),
        r matches Some((e, _)) ==> i < e <= inp@.len(),
{
    match arg_stmt_at(inp, i, "prefix") {
        Some((e, v)) => Some((e, Node::Prefix(Box::new(PrefixNode::new(v))))),
        None => None,
    }
}

/// `prefix NAME;`, the name bare or quoted.
pub fn prefix_parse(s: &str) -> (r: PResult<Node>)
    ensures
        node_out(s@, r, spec_prefix(s@, 0)),
{
    let inp = Input::new(s);
    match prefix_at(&inp, 0) {
        Some((e, n)) => Ok((inp.rest(e), n)),
        None => Err(ParseError {}),
    }
}

pub fn header_at(inp: &Input, i: usize) -> (r: Option<(usize, Node)>)
    requires
        inp.wf(),
        i <= inp@.len(),
    ensures
        same_node(r, spec_header(inp@, i as int)),
        r matches Some((e, _)) ==> i < e <= inp@.len(),
{
    if let Some((e, v)) = arg_stmt_at(inp, i, "namespace") {
        return Some((e, Node::Namespace(Box::new(NamespaceNode { name: v }))));
    }
    if let Some((e, v)) = arg_stmt_at(inp, i, "organization") {
        return Some((e, Node::Organization(Box::new(OrganizationNode { name: v }))));
    }
    if let Some((e, v)) = arg_stmt_at(inp, i, "contact") {
        return Some((e, Node::Contact(Box::new(ContactNode { name: v }))));
    }
    if let Some((e, v)) = arg_stmt_at(inp, i, "description") {
        return Some((e, Node::Description(Box::new(DescriptionNode { name: v }))));
    }
    None
}

/// One of the header statements `namespace`, `organization`, `contact`,
/// `description`, with a bare or quoted argument.
pub fn module_parse(s: &str) -> (r: PResult<Node>)
    ensures
        node_out(s@, r, spec_header(s@, 0)),
{
    let inp = Input::new(s);
    match header_at(&inp, 0) {
        Some((e, n)) => Ok((inp.rest(e), n)),
        None => Err(ParseError {}),
    }
}

fn version_arg_at(s: &Vec<char>, k: usize) -> (r: Option<usize>)
    requires
        k <= s.len(),
    ensures
        same_pos(r, spec_version_arg(s@, k as int)),
        r matches Some(e) ==> k < e <= s.len(),
{
    proof {
        reveal_strlit("1.1");
        reveal_strlit("1");
    }
    if tag_at(s, k, "1.1") {
        Some(k + 3)
    } else if tag_at(s, k, "1") {
        Some(k + 1)
    } else {
        None
    }
}

fn version_token_at(s: &Vec<char>, k: usize) -> (r: Option<(usize, usize, usize)>)
    requires
        k <= s.len(),
    ensures
        match spec_version_token(s@, k as int) {
            Some((e, v)) => r matches Some((x, a, b)) && x == e && a <= b <= s.len() && s@.subrange(
                a as int,
                b as int,
            ) == v,
            None => r is None,
        },
        r matches Some((e, _, _)) ==> k < e <= s.len(),
{
    match version_arg_at(s, k) {
        Some(e) => Some((e, k, e)),
        None => if char_at(s, k, '"') {
            match version_arg_at(s, k + 1) {
                Some(e) => if char_at(s, e, '"') {
                    Some((e + 1, k + 1, e))
                } else {
                    None
                },
                None => None,
            }
        } else {
            None
        },
    }
}

/// A version `1.1` or `1`.
pub fn yang_version_arg_parse(s: &str) -> (r: PResult<&str>)
    ensures
        text_out(
            s@,
            r,
            match spec_version_arg(s@, 0) {
                Some(e) => Some((e, s@.subrange(0, e))),
                None => None,
            },
        ),
{
    let inp = Input::new(s);
    match version_arg_at(&inp.chars, 0) {
        Some(e) => Ok((inp.rest(e), inp.slice(0, e))),
        None => Err(ParseError {}),
    }
}

/// A version, bare or in double quotes.
pub fn yang_version_arg_str_parse(s: &str) -> (r: PResult<&str>)
    ensures
        text_out(s@, r, spec_version_token(s@, 0)),
{
    let inp = Input::new(s);
    match version_token_at(&inp.chars, 0) {
        Some((e, a, b)) => Ok((inp.rest(e), inp.slice(a, b))),
        None => Err(ParseError {}),
    }
}

pub fn yang_version_at(inp: &Input, i: usize) -> (r: Option<(usize, Node)>)
    requires
        inp.wf(),
        i <= inp@.len(),
    ensures
        same_node(r, spec_yang_version(inp@, i as int)),
        r matches Some((e, _)) ==> i < e <= inp@.len(),
{
    let s = &inp.chars;
    let j = skip_ws_at(s, i);
    if !tag_at(s, j, "yang-version") {
        return None;
    }
    proof {
        reveal_strlit("yang-version");
    }
    let k = match ws1_at(s, j + 12) {
        Some(k) => k,
        None => return None,
    };
    let (e, a, b) = match version_token_at(s, k) {
        Some(x) => x,
        None => return None,
    };
    match stmt_end_at(s, e) {
        Some(f) => Some((f, Node::YangVersion(Box::new(YangVersionNode { name: inp.string(a, b) })))),
        None => None,
    }
}

/// `yang-version 1.1;`
pub fn yang_version_parse(s: &str) -> (r: PResult<Node>)
    ensures
        node_out(s@, r, spec_yang_version(s@, 0)),
{
    let inp = Input::new(s);
    match yang_version_at(&inp, 0) {
        Some((e, n)) => Ok((inp.rest(e), n)),
        None => Err(ParseError {}),
    }
}

pub fn revision_date_stmt_at(inp: &Input, i: usize) -> (r: Option<(usize, Node)>)
    requires
        inp.wf(),
        i <= inp@.len(),
    ensures
        same_node(r, spec_revision_date_stmt(inp@, i as int)),
        r matches Some((e, _)) ==> i < e <= inp@.len(),
{
    let s = &inp.chars;
    let j = skip_ws_at(s, i);
    if !tag_at(s, j, "revision-date") {
        return None;
    }
    proof {
        reveal_strlit("revision-date");
    }
    let k = match ws1_at(s, j + 13) {
        Some(k) => k,
        None => return None,
    };
    let (e, b) = match date_token_at(s, k) {
        Some(x) => x,
        None => return None,
    };
    match stmt_end_at(s, e) {
        Some(f) => Some((f, Node::RevisionDate(Box::new(RevisionDateNode { name: inp.string(b, b + 10) })))),
        None => None,
    }
}

/// `revision-date DATE;`, the date bare or quoted.
pub fn revision_date_stmt_parse(s: &str) -> (r: PResult<Node>)
    ensures
        node_out(s@, r, spec_revision_date_stmt(s@, 0)),
{
    let inp = Input::new(s);
    match revision_date_stmt_at(&inp, 0) {
        Some((e, n)) => Ok((inp.rest(e), n)),
        None => Err(ParseError {}),
    }
}

fn import_alt_at(inp: &Input, i: usize) -> (r: Option<(usize, Node)>)
    requires
        inp.wf(),
        i <= inp@.len(),
    ensures
        same_node(r, spec_import_alt(inp@, i as int)),
        r matches Some((e, _)) ==> i < e <= inp@.len(),
{
    if let Some(r) = prefix_at(inp, i) {
        return Some(r);
    }
    if let Some(r) = description_at(inp, i) {
        return Some(r);
    }
    if let Some(r) = reference_at(inp, i) {
        return Some(r);
    }
    if let Some(r) = revision_date_stmt_at(inp, i) {
        return Some(r);
    }
    comment_node_at(inp, i)
}

pub open spec fn import_alts() -> StmtSpec {
    |s: Seq<char>, i: int| spec_import_alt(s, i)
}

/// The substatements of an import, identity or feature, in order.
fn import_many_at(inp: &Input, i: usize) -> (r: (usize, Vec<Node>))
    requires
        inp.wf(),
        i <= inp@.len(),
    ensures
        r.0 == spec_many(import_alts(), inp@, i as int).0,
        nodes_view(r.1) == spec_many(import_alts(), inp@, i as int).1,
        i <= r.0 <= inp@.len(),
{
    let mut acc: Vec<Node> = Vec::new();
    let mut p = i;
    assert(nodes_view(acc) =~= Seq::<NodeV>::empty());
    loop
        invariant
            inp.wf(),
            i <= p <= inp@.len(),
            spec_many(import_alts(), inp@, i as int) == (
                spec_many(import_alts(), inp@, p as int).0,
                nodes_view(acc) + spec_many(import_alts(), inp@, p as int).1,
            ),
        decreases inp@.len() - p,
    {
        match import_alt_at(inp, p) {
            Some((j, n)) => {
                let ghost prev = acc;
                let ghost nv = n@;
                acc.push(n);
                proof {
                    lemma_nodes_view_push(prev, acc, n);
                    let rest = spec_many(import_alts(), inp@, j as int);
                    assert(nodes_view(prev) + (seq![nv] + rest.1) =~= nodes_view(acc) + rest.1);
                }
                p = j;
            },
            None => {
                assert(nodes_view(acc) + Seq::<NodeV>::empty() =~= nodes_view(acc));
                return (p, acc);
            },
        }
    }
}


/// A block of these statements, or a bare `;`.
fn import_subs_at(inp: &Input, i: usize) -> (r: Option<(usize, Vec<Node>)>)
    requires
        inp.wf(),
        i <= inp@.len(),
    ensures
        same_nodes(r, spec_subs(import_alts(), inp@, i as int)),
        r matches Some((e, _)) ==> i < e <= inp@.len(),
{
    if i >= inp.len() {
        return None;
    }
    if char_at(&inp.chars, i, ';') {
        let v: Vec<Node> = Vec::new();
        assert(nodes_view(v) =~= Seq::<NodeV>::empty());
        return Some((i + 1, v));
    }
    if !char_at(&inp.chars, i, '{') {
        return None;
    }
    let (j, v) = import_many_at(inp, i + 1);
    match close_at(&inp.chars, j) {
        Some(e) => Some((e, v)),
        None => None,
    }
}

/// The fields of an import from its substatements, the first of each kind counting.
fn import_fields(subs: Vec<Node>) -> (r: (String, Option<String>, Option<String>, String))
    ensures
        r.0@ == or_empty(find_first(nodes_view(subs), Field::Prefix)),
        opt_view(r.1) == find_first(nodes_view(subs), Field::Description),
        opt_view(r.2) == find_first(nodes_view(subs), Field::Reference),
        r.3@ == or_empty(find_first(nodes_view(subs), Field::RevisionDate)),
{
    let ghost vs = nodes_view(subs);
    let ghost n = subs.len() as int;
    let mut prefix = String::new();
    let mut description: Option<String> = None;
    let mut reference: Option<String> = None;
    let mut revision_date = String::new();
    let mut subs = subs;
    assert(vs.subrange(n, n) =~= Seq::<NodeV>::empty());
    while subs.len() > 0
        invariant
            subs.len() <= n,
            n == vs.len(),
            forall|k: int| 0 <= k < subs.len() ==> #[trigger] subs[k]@ == vs[k],
            prefix@ == or_empty(find_first(vs.subrange(subs.len() as int, n), Field::Prefix)),
            opt_view(description) == find_first(vs.subrange(subs.len() as int, n), Field::Description),
            opt_view(reference) == find_first(vs.subrange(subs.len() as int, n), Field::Reference),
            revision_date@ == or_empty(find_first(vs.subrange(subs.len() as int, n), Field::RevisionDate)),
        decreases subs.len(),
    {
        let ghost q = subs.len() - 1;
        assert(vs.subrange(q, n).subrange(1, n - q) =~= vs.subrange(q + 1, n));
        assert(vs.subrange(q, n)[0] == vs[q]);
        let ghost before = subs@;
        let sub = subs.pop().unwrap();
        assert(sub == before[q]);
        assert(sub@ == vs[q]);
        match sub {
            Node::Prefix(b) => {
                prefix = b.name;
            },
            Node::Description(b) => {
                description = Some(b.name);
            },
            Node::Reference(b) => {
                reference = Some(b.name);
            },
            Node::RevisionDate(b) => {
                revision_date = b.name;
            },
            _ => {},
        }
    }
    assert(vs.subrange(0, n) =~= vs);
    (prefix, description, reference, revision_date)
}

pub fn import_at(inp: &Input, i: usize) -> (r: Option<(usize, Node)>)
    requires
        inp.wf(),
        i <= inp@.len(),
    ensures
        same_node(r, spec_import(inp@, i as int)),
        r matches Some((e, _)) ==> i < e <= inp@.len(),
{
    let (h, a, b) = match named_head_at(inp, i, "import") {
        Some(x) => x,
        None => return None,
    };
    let (f, subs) = match import_subs_at(inp, h) {
        Some(x) => x,
        None => return None,
    };
    let (prefix, description, reference, revision_date) = import_fields(subs);
    let node = ImportNode { name: inp.string(a, b), prefix, description, reference, revision_date };
    Some((f, Node::Import(Box::new(node))))
}

/// `import NAME { prefix ...; description ...; reference ...; revision-date ...; }`
/// or `import NAME;`.
pub fn import_parse(s: &str) -> (r: PResult<Node>)
    ensures
        node_out(s@, r, spec_import(s@, 0)),
{
    let inp = Input::new(s);
    match import_at(&inp, 0) {
        Some((e, n)) => Ok((inp.rest(e), n)),
        None => Err(ParseError {}),
    }
}

pub fn include_at(inp: &Input, i: usize) -> (r: Option<(usize, Node)>)
    requires
        inp.wf(),
        i <= inp@.len(),
    ensures
        same_node(r, spec_include(inp@, i as int)),
        r matches Some((e, _)) ==> i < e <= inp@.len(),
{
    let (h, a, b) = match named_head_at(inp, i, "include") {
        Some(x) => x,
        None => return None,
    };
    let (f, subs) = match import_subs_at(inp, h) {
        Some(x) => x,
        None => return None,
    };
    let (_, description, reference, _) = import_fields(subs);
    let node = IncludeNode { name: inp.string(a, b), description, reference };
    Some((f, Node::Include(Box::new(node))))
}

/// `include NAME { description ...; reference ...; }` or `include NAME;`.
pub fn include_parse(s: &str) -> (r: PResult<Node>)
    ensures
        node_out(s@, r, spec_include(s@, 0)),
{
    let inp = Input::new(s);
    match include_at(&inp, 0) {
        Some((e, n)) => Ok((inp.rest(e), n)),
        None => Err(ParseError {}),
    }
}

pub fn identity_at(inp: &Input, i: usize) -> (r: Option<(usize, Node)>)
    requires
        inp.wf(),
        i <= inp@.len(),
    ensures
        same_node(r, spec_identity(inp@, i as int)),
        r matches Some((e, _)) ==> i < e <= inp@.len(),
{
    let (h, a, b) = match named_head_at(inp, i, "identity") {
        Some(x) => x,
        None => return None,
    };
    let (f, subs) = match import_subs_at(inp, h) {
        Some(x) => x,
        None => return None,
    };
    let (_, description, _, _) = import_fields(subs);
    let node = IdentityNode { name: inp.string(a, b), description };
    Some((f, Node::Identity(Box::new(node))))
}

/// `identity NAME { ... }` or `identity NAME;`.
pub fn identity_parse(s: &str) -> (r: PResult<Node>)
    ensures
        node_out(s@, r, spec_identity(s@, 0)),
{
    let inp = Input::new(s);
    match identity_at(&inp, 0) {
        Some((e, n)) => Ok((inp.rest(e), n)),
        None => Err(ParseError {}),
    }
}

pub fn feature_at(inp: &Input, i: usize) -> (r: Option<(usize, Node)>)
    requires
        inp.wf(),
        i <= inp@.len(),
    ensures
        same_node(r, spec_feature(inp@, i as int)),
        r matches Some((e, _)) ==> i < e <= inp@.len(),
{
    let (h, a, b) = match named_head_at(inp, i, "feature") {
        Some(x) => x,
        None => return None,
    };
    let (f, subs) = match import_subs_at(inp, h) {
        Some(x) => x,
        None => return None,
    };
    let (_, description, _, _) = import_fields(subs);
    let node = FeatureNode { name: inp.string(a, b), description };
    Some((f, Node::Feature(Box::new(node))))
}

/// `feature NAME { ... }` or `feature NAME;`.
pub fn feature_parse(s: &str) -> (r: PResult<Node>)
    ensures
        node_out(s@, r, spec_feature(s@, 0)),
{
    let inp = Input::new(s);
    match feature_at(&inp, 0) {
        Some((e, n)) => Ok((inp.rest(e), n)),
        None => Err(ParseError {}),
    }
}

/// `key "names";`
pub open spec fn spec_key(s: Seq<char>, i: int) -> Option<(int, NodeV)> {
    match spec_single_stmt(s, i, "key"@) {
        Some((e, v)) => Some((e, NodeV::Key(v))),
        None => None,
    }
}

/// A substatement of `leaf`.
pub open spec fn spec_leaf_alt(s: Seq<char>, i: int) -> Option<(int, NodeV)> {
    match spec_description(s, i) {
        Some(r) => Some(r),
        None => match spec_reference(s, i) {
            Some(r) => Some(r),
            None => match spec_type_plain(s, i, "string"@) {
                Some(r) => Some(r),
                None => spec_comment_node(s, i),
            },
        },
    }
}

/// `leaf NAME;` or `leaf NAME { ... }`: a node with the name.
pub open spec fn spec_leaf(s: Seq<char>, i: int) -> Option<(int, NodeV)> {
    match spec_named_stmt(s, i, "leaf"@, leaf_alts()) {
        Some((f, n, _)) => Some((f, NodeV::Leaf(n))),
        None => None,
    }
}

/// A substatement of `list`.
pub open spec fn spec_list_alt(s: Seq<char>, i: int) -> Option<(int, NodeV)> {
    match spec_description(s, i) {
        Some(r) => Some(r),
        None => match spec_key(s, i) {
            Some(r) => Some(r),
            None => match spec_leaf(s, i) {
                Some(r) => Some(r),
                None => spec_comment_node(s, i),
            },
        },
    }
}

/// `list NAME;` or `list NAME { ... }`: a node with the name.
pub open spec fn spec_list(s: Seq<char>, i: int) -> Option<(int, NodeV)> {
    match spec_named_stmt(s, i, "list"@, list_alts()) {
        Some((f, n, _)) => Some((f, NodeV::List(n))),
        None => None,
    }
}

/// A substatement of `container`.
pub open spec fn spec_container_alt(s: Seq<char>, i: int) -> Option<(int, NodeV)> {
    match spec_description(s, i) {
        Some(r) => Some(r),
        None => match spec_list(s, i) {
            Some(r) => Some(r),
            None => spec_comment_node(s, i),
        },
    }
}

/// `container NAME;` or `container NAME { ... }`: a node with the name.
pub open spec fn spec_container(s: Seq<char>, i: int) -> Option<(int, NodeV)> {
    match spec_named_stmt(s, i, "container"@, container_alts()) {
        Some((f, n, _)) => Some((f, NodeV::Container(n))),
        None => None,
    }
}

pub fn key_at(inp: &Input, i: usize) -> (r: Option<(usize, Node)>)
    requires
        inp.wf(),
        i <= inp@.len(),
    ensures
        same_node(r, spec_key(inp@, i as int)),
        r matches Some((e, _)) ==> i < e <= inp@.len(),
{
    match single_stmt_at(inp, i, "key") {
        Some((e, v)) => Some((e, Node::Key(Box::new(KeyNode { name: v })))),
        None => None,
    }
}

/// `key "names";`
pub fn key_parse(s: &str) -> (r: PResult<Node>)
    ensures
        node_out(s@, r, spec_key(s@, 0)),
{
    let inp = Input::new(s);
    match key_at(&inp, 0) {
        Some((e, n)) => Ok((inp.rest(e), n)),
        None => Err(ParseError {}),
    }
}

fn leaf_alt_at(inp: &Input, i: usize) -> (r: Option<(usize, Node)>)
    requires
        inp.wf(),
        i <= inp@.len(),
    ensures
        same_node(r, spec_leaf_alt(inp@, i as int)),
        r matches Some((e, _)) ==> i < e <= inp@.len(),
{
    if let Some(r) = description_at(inp, i) {
        return Some(r);
    }
    if let Some(r) = reference_at(inp, i) {
        return Some(r);
    }
    if let Some(r) = type_string_at(inp, i) {
        return Some(r);
    }
    comment_node_at(inp, i)
}

pub open spec fn leaf_alts() -> StmtSpec {
    |s: Seq<char>, i: int| spec_leaf_alt(s, i)
}

/// The substatements of a leaf, in order.
fn leaf_many_at(inp: &Input, i: usize) -> (r: (usize, Vec<Node>))
    requires
        inp.wf(),
        i <= inp@.len(),
    ensures
        r.0 == spec_many(leaf_alts(), inp@, i as int).0,
        nodes_view(r.1) == spec_many(leaf_alts(), inp@, i as int).1,
        i <= r.0 <= inp@.len(),
{
    let mut acc: Vec<Node> = Vec::new();
    let mut p = i;
    assert(nodes_view(acc) =~= Seq::<NodeV>::empty());
    loop
        invariant
            inp.wf(),
            i <= p <= inp@.len(),
            spec_many(leaf_alts(), inp@, i as int) == (
                spec_many(leaf_alts(), inp@, p as int).0,
                nodes_view(acc) + spec_many(leaf_alts(), inp@, p as int).1,
            ),
        decreases inp@.len() - p,
    {
        match leaf_alt_at(inp, p) {
            Some((j, n)) => {
                let ghost prev = acc;
                let ghost nv = n@;
                acc.push(n);
                proof {
                    lemma_nodes_view_push(prev, acc, n);
                    let rest = spec_many(leaf_alts(), inp@, j as int);
                    assert(nodes_view(prev) + (seq![nv] + rest.1) =~= nodes_view(acc) + rest.1);
                }
                p = j;
            },
            None => {
                assert(nodes_view(acc) + Seq::<NodeV>::empty() =~= nodes_view(acc));
                return (p, acc);
            },
        }
    }
}


/// A block of these statements, or a bare `;`.
fn leaf_subs_at(inp: &Input, i: usize) -> (r: Option<(usize, Vec<Node>)>)
    requires
        inp.wf(),
        i <= inp@.len(),
    ensures
        same_nodes(r, spec_subs(leaf_alts(), inp@, i as int)),
        r matches Some((e, _)) ==> i < e <= inp@.len(),
{
    if i >= inp.len() {
        return None;
    }
    if char_at(&inp.chars, i, ';') {
        let v: Vec<Node> = Vec::new();
        assert(nodes_view(v) =~= Seq::<NodeV>::empty());
        return Some((i + 1, v));
    }
    if !char_at(&inp.chars, i, '{') {
        return None;
    }
    let (j, v) = leaf_many_at(inp, i + 1);
    match close_at(&inp.chars, j) {
        Some(e) => Some((e, v)),
        None => None,
    }
}

pub fn leaf_at(inp: &Input, i: usize) -> (r: Option<(usize, Node)>)
    requires
        inp.wf(),
        i <= inp@.len(),
    ensures
        same_node(r, spec_leaf(inp@, i as int)),
        r matches Some((e, _)) ==> i < e <= inp@.len(),
{
    let (h, a, b) = match named_head_at(inp, i, "leaf") {
        Some(x) => x,
        None => return None,
    };
    match leaf_subs_at(inp, h) {
        Some((f, _)) => Some((f, Node::Leaf(Box::new(LeafNode { name: inp.string(a, b) })))),
        None => None,
    }
}

/// `leaf NAME;` or `leaf NAME { description ...; reference ...; type string; }`.
pub fn leaf_parse(s: &str) -> (r: PResult<Node>)
    ensures
        node_out(s@, r, spec_leaf(s@, 0)),
{
    let inp = Input::new(s);
    match leaf_at(&inp, 0) {
        Some((e, n)) => Ok((inp.rest(e), n)),
        None => Err(ParseError {}),
    }
}

fn list_alt_at(inp: &Input, i: usize) -> (r: Option<(usize, Node)>)
    requires
        inp.wf(),
        i <= inp@.len(),
    ensures
        same_node(r, spec_list_alt(inp@, i as int)),
        r matches Some((e, _)) ==> i < e <= inp@.len(),
{
    if let Some(r) = description_at(inp, i) {
        return Some(r);
    }
    if let Some(r) = key_at(inp, i) {
        return Some(r);
    }
    if let Some(r) = leaf_at(inp, i) {
        return Some(r);
    }
    comment_node_at(inp, i)
}

pub open spec fn list_alts() -> StmtSpec {
    |s: Seq<char>, i: int| spec_list_alt(s, i)
}

/// The substatements of a list, in order.
fn list_many_at(inp: &Input, i: usize) -> (r: (usize, Vec<Node>))
    requires
        inp.wf(),
        i <= inp@.len(),
    ensures
        r.0 == spec_many(list_alts(), inp@, i as int).0,
        nodes_view(r.1) == spec_many(list_alts(), inp@, i as int).1,
        i <= r.0 <= inp@.len(),
{
    let mut acc: Vec<Node> = Vec::new();
    let mut p = i;
    assert(nodes_view(acc) =~= Seq::<NodeV>::empty());
    loop
        invariant
            inp.wf(),
            i <= p <= inp@.len(),
            spec_many(list_alts(), inp@, i as int) == (
                spec_many(list_alts(), inp@, p as int).0,
                nodes_view(acc) + spec_many(list_alts(), inp@, p as int).1,
            ),
        decreases inp@.len() - p,
    {
        match list_alt_at(inp, p) {
            Some((j, n)) => {
                let ghost prev = acc;
                let ghost nv = n@;
                acc.push(n);
                proof {
                    lemma_nodes_view_push(prev, acc, n);
                    let rest = spec_many(list_alts(), inp@, j as int);
                    assert(nodes_view(prev) + (seq![nv] + rest.1) =~= nodes_view(acc) + rest.1);
                }
                p = j;
            },
            None => {
                assert(nodes_view(acc) + Seq::<NodeV>::empty() =~= nodes_view(acc));
                return (p, acc);
            },
        }
    }
}


/// A block of these statements, or a bare `;`.
fn list_subs_at(inp: &Input, i: usize) -> (r: Option<(usize, Vec<Node>)>)
    requires
        inp.wf(),
        i <= inp@.len(),
    ensures
        same_nodes(r, spec_subs(list_alts(), inp@, i as int)),
        r matches Some((e, _)) ==> i < e <= inp@.len(),
{
    if i >= inp.len() {
        return None;
    }
    if char_at(&inp.chars, i, ';') {
        let v: Vec<Node> = Vec::new();
        assert(nodes_view(v) =~= Seq::<NodeV>::empty());
        return Some((i + 1, v));
    }
    if !char_at(&inp.chars, i, '{') {
        return None;
    }
    let (j, v) = list_many_at(inp, i + 1);
    match close_at(&inp.chars, j) {
        Some(e) => Some((e, v)),
        None => None,
    }
}

pub fn list_at(inp: &Input, i: usize) -> (r: Option<(usize, Node)>)
    requires
        inp.wf(),
        i <= inp@.len(),
    ensures
        same_node(r, spec_list(inp@, i as int)),
        r matches Some((e, _)) ==> i < e <= inp@.len(),
{
    let (h, a, b) = match named_head_at(inp, i, "list") {
        Some(x) => x,
        None => return None,
    };
    match list_subs_at(inp, h) {
        Some((f, _)) => Some((f, Node::List(Box::new(ListNode { name: inp.string(a, b) })))),
        None => None,
    }
}

/// `list NAME;` or `list NAME { description ...; key ...; leaf ... }`.
pub fn list_parse(s: &str) -> (r: PResult<Node>)
    ensures
        node_out(s@, r, spec_list(s@, 0)),
{
    let inp = Input::new(s);
    match list_at(&inp, 0) {
        Some((e, n)) => Ok((inp.rest(e), n)),
        None => Err(ParseError {}),
    }
}

fn container_alt_at(inp: &Input, i: usize) -> (r: Option<(usize, Node)>)
    requires
        inp.wf(),
        i <= inp@.len(),
    ensures
        same_node(r, spec_container_alt(inp@, i as int)),
        r matches Some((e, _)) ==> i < e <= inp@.len(),
{
    if let Some(r) = description_at(inp, i) {
        return Some(r);
    }
    if let Some(r) = list_at(inp, i) {
        return Some(r);
    }
    comment_node_at(inp, i)
}

pub open spec fn container_alts() -> StmtSpec {
    |s: Seq<char>, i: int| spec_container_alt(s, i)
}

/// The substatements of a container, in order.
fn container_many_at(inp: &Input, i: usize) -> (r: (usize, Vec<Node>))
    requires
        inp.wf(),
        i <= inp@.len(),
    ensures
        r.0 == spec_many(container_alts(), inp@, i as int).0,
        nodes_view(r.1) == spec_many(container_alts(), inp@, i as int).1,
        i <= r.0 <= inp@.len(),
{
    let mut acc: Vec<Node> = Vec::new();
    let mut p = i;
    assert(nodes_view(acc) =~= Seq::<NodeV>::empty());
    loop
        invariant
            inp.wf(),
            i <= p <= inp@.len(),
            spec_many(container_alts(), inp@, i as int) == (
                spec_many(container_alts(), inp@, p as int).0,
                nodes_view(acc) + spec_many(container_alts(), inp@, p as int).1,
            ),
        decreases inp@.len() - p,
    {
        match container_alt_at(inp, p) {
            Some((j, n)) => {
                let ghost prev = acc;
                let ghost nv = n@;
                acc.push(n);
                proof {
                    lemma_nodes_view_push(prev, acc, n);
                    let rest = spec_many(container_alts(), inp@, j as int);
                    assert(nodes_view(prev) + (seq![nv] + rest.1) =~= nodes_view(acc) + rest.1);
                }
                p = j;
            },
            None => {
                assert(nodes_view(acc) + Seq::<NodeV>::empty() =~= nodes_view(acc));
                return (p, acc);
            },
        }
    }
}


/// A block of these statements, or a bare `;`.
fn container_subs_at(inp: &Input, i: usize) -> (r: Option<(usize, Vec<Node>)>)
    requires
        inp.wf(),
        i <= inp@.len(),
    ensures
        same_nodes(r, spec_subs(container_alts(), inp@, i as int)),
        r matches Some((e, _)) ==> i < e <= inp@.len(),
{
    if i >= inp.len() {
        return None;
    }
    if char_at(&inp.chars, i, ';') {
        let v: Vec<Node> = Vec::new();
        assert(nodes_view(v) =~= Seq::<NodeV>::empty());
        return Some((i + 1, v));
    }
    if !char_at(&inp.chars, i, '{') {
        return None;
    }
    let (j, v) = container_many_at(inp, i + 1);
    match close_at(&inp.chars, j) {
        Some(e) => Some((e, v)),
        None => None,
    }
}

pub fn container_at(inp: &Input, i: usize) -> (r: Option<(usize, Node)>)
    requires
        inp.wf(),
        i <= inp@.len(),
    ensures
        same_node(r, spec_container(inp@, i as int)),
        r matches Some((e, _)) ==> i < e <= inp@.len(),
{
    let (h, a, b) = match named_head_at(inp, i, "container") {
        Some(x) => x,
        None => return None,
    };
    match container_subs_at(inp, h) {
        Some((f, _)) => Some((f, Node::Container(Box::new(ContainerNode { name: inp.string(a, b) })))),
        None => None,
    }
}

/// `container NAME;` or `container NAME { description ...; list ... }`.
pub fn container_parse(s: &str) -> (r: PResult<Node>)
    ensures
        node_out(s@, r, spec_container(s@, 0)),
{
    let inp = Input::new(s);
    match container_at(&inp, 0) {
        Some((e, n)) => Ok((inp.rest(e), n)),
        None => Err(ParseError {}),
    }
}

/// The block `{ ... }` of an import, identity or feature: `prefix`, `description`, `reference`, `revision-date`; the nodes in order.
pub fn import_sub_parse(s: &str) -> (r: PResult<Vec<Node>>)
    ensures
        nodes_out(s@, r, spec_block(import_alts(), s@, 0)),
{
    let inp = Input::new(s);
    if !char_at(&inp.chars, 0, '{') {
        return Err(ParseError {});
    }
    match import_subs_at(&inp, 0) {
        Some((e, v)) => Ok((inp.rest(e), v)),
        None => Err(ParseError {}),
    }
}

/// The block `{ ... }` of a leaf: `description`, `reference`, `type string`; the nodes in order.
pub fn leaf_sub_parse(s: &str) -> (r: PResult<Vec<Node>>)
    ensures
        nodes_out(s@, r, spec_block(leaf_alts(), s@, 0)),
{
    let inp = Input::new(s);
    if !char_at(&inp.chars, 0, '{') {
        return Err(ParseError {});
    }
    match leaf_subs_at(&inp, 0) {
        Some((e, v)) => Ok((inp.rest(e), v)),
        None => Err(ParseError {}),
    }
}

/// The block `{ ... }` of a list: `description`, `key`, `leaf`; the nodes in order.
pub fn list_sub_parse(s: &str) -> (r: PResult<Vec<Node>>)
    ensures
        nodes_out(s@, r, spec_block(list_alts(), s@, 0)),
{
    let inp = Input::new(s);
    if !char_at(&inp.chars, 0, '{') {
        return Err(ParseError {});
    }
    match list_subs_at(&inp, 0) {
        Some((e, v)) => Ok((inp.rest(e), v)),
        None => Err(ParseError {}),
    }
}

/// The block `{ ... }` of a container: `description`, `list`; the nodes in order.
pub fn container_sub_parse(s: &str) -> (r: PResult<Vec<Node>>)
    ensures
        nodes_out(s@, r, spec_block(container_alts(), s@, 0)),
{
    let inp = Input::new(s);
    if !char_at(&inp.chars, 0, '{') {
        return Err(ParseError {});
    }
    match container_subs_at(&inp, 0) {
        Some((e, v)) => Ok((inp.rest(e), v)),
        None => Err(ParseError {}),
    }
}

} // verus!
