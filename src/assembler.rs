//! The top-level `module NAME { ... }` statement, folded into a `Module`.
use vstd::prelude::*;
use crate::block::{lemma_nodes_view_push, spec_many, StmtSpec};
use crate::fields::{find_first, or_empty, Field};
use crate::lexer::{comment_at, identifier_at, same_node, spec_comment, spec_identifier};
use crate::modules::{ImportNode, IncludeNode, Module, RevisionNode, YangVersion};
use crate::node::{import_view, nodes_view, opt_view, revision_view, typedef_view, Node, NodeV};
use crate::revision::{revision_at, spec_revision};
use crate::statements::{
    container_at, feature_at, header_at, identity_at, import_at, include_at, leaf_at, list_at,
    prefix_at, spec_container, spec_include, spec_feature, spec_header, spec_identity, spec_import, spec_leaf, spec_list,
    spec_prefix, spec_yang_version, yang_version_at,
};
use crate::text::{
    has_char, has_tag, skip_ws, spec_ws1, char_at, skip_ws_at, tag_at, ws1_at, Input, PResult,
    ParseError,
};
use crate::types::TypedefNode;
use crate::typestmt::{spec_typedef, typedef_at};

verus! {

/// A module with its texts as character sequences and its nodes as views.
pub struct ModuleV {
    pub name: Seq<char>,
    pub namespace: Seq<char>,
    pub prefix: Seq<char>,
    pub organization: Option<Seq<char>>,
    pub contact: Option<Seq<char>>,
    pub description: Option<Seq<char>>,
    pub revisions: Seq<NodeV>,
    pub typedefs: Seq<NodeV>,
    pub yang_version: YangVersion,
    pub imports: Seq<NodeV>,
    pub includes: Seq<NodeV>,
}

pub open spec fn include_view(n: IncludeNode) -> NodeV {
    NodeV::Include(n.name@, opt_view(n.description), opt_view(n.reference))
}

pub open spec fn typedefs_view(v: Seq<TypedefNode>) -> Seq<NodeV> {
    Seq::new(v.len(), |k: int| typedef_view(v[k]))
}

impl View for Module {
    type V = ModuleV;

    open spec fn view(&self) -> ModuleV {
        ModuleV {
            name: self.name@,
            namespace: self.namespace@,
            prefix: self.prefix@,
            organization: opt_view(self.organization),
            contact: opt_view(self.contact),
            description: opt_view(self.description),
            revisions: Seq::new(self.revisions.len() as nat, |k: int| revision_view(self.revisions[k])),
            typedefs: typedefs_view(self.typedefs@),
            yang_version: self.yang_version,
            imports: Seq::new(self.imports.len() as nat, |k: int| import_view(self.imports[k])),
            includes: Seq::new(self.includes.len() as nat, |k: int| include_view(self.includes[k])),
        }
    }
}

/// The kinds of node that a module collects into a list.
pub enum Listed {
    Revision,
    Import,
    Include,
}

pub open spec fn is_listed(l: Listed, v: NodeV) -> bool {
    match l {
        Listed::Revision => v is Revision,
        Listed::Import => v is Import,
        Listed::Include => v is Include,
    }
}

/// The nodes of kind `l` in `vs`, last first.
pub open spec fn collect_rev(vs: Seq<NodeV>, l: Listed) -> Seq<NodeV>
    decreases vs.len(),
{
    if vs.len() == 0 {
        Seq::empty()
    } else {
        collect_rev(vs.subrange(1, vs.len() as int), l) + if is_listed(l, vs[0]) {
            seq![vs[0]]
        } else {
            Seq::empty()
        }
    }
}

pub open spec fn typedef_name(v: NodeV) -> Seq<char> {
    match v {
        NodeV::Typedef(n, _) => n,
        _ => Seq::empty(),
    }
}

/// `k` is the first index in `ts` of a typedef named `n`.
pub open spec fn is_named_at(ts: Seq<NodeV>, n: Seq<char>, k: int) -> bool {
    &&& 0 <= k < ts.len()
    &&& typedef_name(ts[k]) == n
    &&& forall|m: int| 0 <= m < k ==> typedef_name(#[trigger] ts[m]) != n
}

/// `ts` with typedef `t` added at the end, unless one of its name is there.
pub open spec fn add_absent(ts: Seq<NodeV>, t: NodeV) -> Seq<NodeV> {
    if exists|k: int| is_named_at(ts, typedef_name(t), k) {
        ts
    } else {
        ts.push(t)
    }
}

/// The typedefs of `vs`, taken last to first, each added unless one of its
/// name is there: of several typedefs of one name the last declared is kept.
pub open spec fn fold_typedefs(vs: Seq<NodeV>) -> Seq<NodeV>
    decreases vs.len(),
{
    if vs.len() == 0 {
        Seq::empty()
    } else {
        let rest = fold_typedefs(vs.subrange(1, vs.len() as int));
        if vs[0] is Typedef {
            add_absent(rest, vs[0])
        } else {
            rest
        }
    }
}

/// No two typedefs in `ts` share a name.
pub open spec fn names_unique(ts: Seq<NodeV>) -> bool {
    forall|a: int, b: int|
        0 <= a < b < ts.len() ==> typedef_name(#[trigger] ts[a]) != typedef_name(#[trigger] ts[b])
}

proof fn lemma_first_named_exists(ts: Seq<NodeV>, n: Seq<char>, m: int)
    requires
        0 <= m < ts.len(),
        typedef_name(ts[m]) == n,
    ensures
        exists|k: int| is_named_at(ts, n, k),
    decreases m,
{
    if exists|m2: int| 0 <= m2 < m && typedef_name(ts[m2]) == n {
        let m2 = choose|m2: int| 0 <= m2 < m && typedef_name(ts[m2]) == n;
        lemma_first_named_exists(ts, n, m2);
    } else {
        assert(is_named_at(ts, n, m));
    }
}

proof fn lemma_add_absent_unique(ts: Seq<NodeV>, t: NodeV)
    requires
        names_unique(ts),
    ensures
        names_unique(add_absent(ts, t)),
{
    let n = typedef_name(t);
    if !exists|k: int| is_named_at(ts, n, k) {
        let u = ts.push(t);
        assert forall|m: int| 0 <= m < ts.len() implies typedef_name(#[trigger] ts[m]) != n by {
            if typedef_name(ts[m]) == n {
                lemma_first_named_exists(ts, n, m);
            }
        }
        assert forall|a: int, b: int| 0 <= a < b < u.len() implies typedef_name(#[trigger] u[a])
            != typedef_name(#[trigger] u[b]) by {
            if b == ts.len() {
                assert(typedef_name(ts[a]) != n);
            } else {
                assert(typedef_name(u[a]) == typedef_name(ts[a]));
            }
        }
    }
}

/// However often a name is declared, a module keeps one typedef of it.
pub proof fn lemma_fold_typedefs_unique(vs: Seq<NodeV>)
    ensures
        names_unique(fold_typedefs(vs)),
    decreases vs.len(),
{
    if vs.len() > 0 {
        lemma_fold_typedefs_unique(vs.subrange(1, vs.len() as int));
        if vs[0] is Typedef {
            lemma_add_absent_unique(fold_typedefs(vs.subrange(1, vs.len() as int)), vs[0]);
        }
    }
}

pub open spec fn version_of(t: Option<Seq<char>>) -> YangVersion {
    if t == Some("1.1"@) {
        YangVersion::V1_1
    } else {
        YangVersion::V1
    }
}

/// The module that the statements `vs` make.  Where a single-valued field
/// is given more than once, the first declaration counts; of typedefs of one
/// name, the last declared; lists hold their nodes last declared first.
pub open spec fn fold_module(name: Seq<char>, vs: Seq<NodeV>) -> ModuleV {
    ModuleV {
        name,
        namespace: or_empty(find_first(vs, Field::Namespace)),
        prefix: or_empty(find_first(vs, Field::Prefix)),
        organization: find_first(vs, Field::Organization),
        contact: find_first(vs, Field::Contact),
        description: find_first(vs, Field::Description),
        revisions: collect_rev(vs, Listed::Revision),
        typedefs: fold_typedefs(vs),
        yang_version: version_of(find_first(vs, Field::YangVersion)),
        imports: collect_rev(vs, Listed::Import),
        includes: collect_rev(vs, Listed::Include),
    }
}

/// A statement in a module's body.
pub open spec fn spec_module_alt(s: Seq<char>, i: int) -> Option<(int, NodeV)> {
    if let Some(r) = spec_yang_version(s, i) {
        Some(r)
    } else if let Some(r) = spec_header(s, i) {
        Some(r)
    } else if let Some(r) = spec_prefix(s, i) {
        Some(r)
    } else if let Some(r) = spec_revision(s, i) {
        Some(r)
    } else if let Some(e) = spec_comment(s, i) {
        Some((e, NodeV::Empty))
    } else if let Some(r) = spec_typedef(s, i) {
        Some(r)
    } else if let Some(r) = spec_import(s, i) {
        Some(r)
    } else if let Some(r) = spec_include(s, i) {
        Some(r)
    } else if let Some(r) = spec_identity(s, i) {
        Some(r)
    } else if let Some(r) = spec_feature(s, i) {
        Some(r)
    } else if let Some(r) = spec_container(s, i) {
        Some(r)
    } else if let Some(r) = spec_leaf(s, i) {
        Some(r)
    } else {
        spec_list(s, i)
    }
}

pub open spec fn module_alts() -> StmtSpec {
    |s: Seq<char>, i: int| spec_module_alt(s, i)
}

/// `module NAME { statements }` at the start of `s`: the end, the name, and
/// the statements.
pub open spec fn spec_module_body(s: Seq<char>) -> Option<(int, Seq<char>, Seq<NodeV>)> {
    if has_tag(s, 0, "module"@) {
        match spec_ws1(s, 6) {
            Some(k) => match spec_identifier(s, k) {
                Some(b) => {
                    let j = skip_ws(s, b);
                    let (m, vs) = spec_many(module_alts(), s, j + 1);
                    if has_char(s, j, '{') && has_char(s, skip_ws(s, m), '}') {
                        Some((skip_ws(s, m) + 1, s.subrange(k, b), vs))
                    } else {
                        None
                    }
                },
                None => None,
            },
            None => None,
        }
    } else {
        None
    }
}

/// A whole module: the end and the module.
pub open spec fn spec_yang(s: Seq<char>) -> Option<(int, ModuleV)> {
    match spec_module_body(s) {
        Some((e, n, vs)) => Some((e, fold_module(n, vs))),
        None => None,
    }
}

fn module_alt_at(inp: &Input, i: usize) -> (r: Option<(usize, Node)>)
    requires
        inp.wf(),
        i <= inp@.len(),
    ensures
        same_node(r, spec_module_alt(inp@, i as int)),
        r matches Some((e, _)) ==> i < e <= inp@.len(),
{
    if let Some(r) = yang_version_at(inp, i) {
        return Some(r);
    }
    if let Some(r) = header_at(inp, i) {
        return Some(r);
    }
    if let Some(r) = prefix_at(inp, i) {
        return Some(r);
    }
    if let Some(r) = revision_at(inp, i) {
        return Some(r);
    }
    if let Some(e) = comment_at(&inp.chars, i) {
        return Some((e, Node::EmptyNode));
    }
    if let Some(r) = typedef_at(inp, i) {
        return Some(r);
    }
    if let Some(r) = import_at(inp, i) {
        return Some(r);
    }
    if let Some(r) = include_at(inp, i) {
        return Some(r);
    }
    if let Some(r) = identity_at(inp, i) {
        return Some(r);
    }
    if let Some(r) = feature_at(inp, i) {
        return Some(r);
    }
    if let Some(r) = container_at(inp, i) {
        return Some(r);
    }
    if let Some(r) = leaf_at(inp, i) {
        return Some(r);
    }
    list_at(inp, i)
}
/// The statements of a module body, in order.
fn module_many_at(inp: &Input, i: usize) -> (r: (usize, Vec<Node>))
    requires
        inp.wf(),
        i <= inp@.len(),
    ensures
        r.0 == spec_many(module_alts(), inp@, i as int).0,
        nodes_view(r.1) == spec_many(module_alts(), inp@, i as int).1,
        i <= r.0 <= inp@.len(),
{
    let mut acc: Vec<Node> = Vec::new();
    let mut p = i;
    assert(nodes_view(acc) =~= Seq::<NodeV>::empty());
    loop
        invariant
            inp.wf(),
            i <= p <= inp@.len(),
            spec_many(module_alts(), inp@, i as int) == (
                spec_many(module_alts(), inp@, p as int).0,
                nodes_view(acc) + spec_many(module_alts(), inp@, p as int).1,
            ),
        decreases inp@.len() - p,
    {
        match module_alt_at(inp, p) {
            Some((j, n)) => {
                let ghost prev = acc;
                let ghost nv = n@;
                acc.push(n);
                proof {
                    lemma_nodes_view_push(prev, acc, n);
                    let rest = spec_many(module_alts(), inp@, j as int);
                    assert(nodes_view(prev) + (seq![nv] + rest.1) =~= nodes_view(acc) + rest.1);
                }
                p = j;
            },
            None => {
                assert(nodes_view(acc) + Seq::<NodeV>::empty() =~= nodes_view(acc));
                return (p, acc);
            },
        }
    }
}

/// `t` is the version `1.1`.
fn is_version_1_1(t: &String) -> (b: bool)
    ensures
        b == (t@ == "1.1"@),
{
    proof {
        reveal_strlit("1.1");
    }
    let s = t.as_str();
    if s.unicode_len() != 3 {
        return false;
    }
    let b = s.get_char(0) == '1' && s.get_char(1) == '.' && s.get_char(2) == '1';
    if b {
        assert(s@ =~= "1.1"@);
    }
    b
}

/// Adds typedef `t` unless one of its name is there.
fn add_typedef(ts: &mut Vec<TypedefNode>, t: TypedefNode)
    ensures
        typedefs_view(final(ts)@) == add_absent(typedefs_view(old(ts)@), typedef_view(t)),
{
    let ghost vs = typedefs_view(ts@);
    let ghost tv = typedef_view(t);
    let mut k: usize = 0;
    while k < ts.len()
        invariant
            k <= ts.len(),
            *ts == *old(ts),
            vs == typedefs_view(ts@),
            tv == typedef_view(t),
            typedef_name(tv) == t.name@,
            forall|m: int| 0 <= m < k ==> typedef_name(#[trigger] vs[m]) != t.name@,
        decreases ts.len() - k,
    {
        assert(typedef_name(vs[k as int]) == ts[k as int].name@);
        if ts[k].name == t.name {
            assert(is_named_at(vs, typedef_name(tv), k as int));
            return;
        }
        k = k + 1;
    }
    assert(!exists|c: int| is_named_at(vs, typedef_name(tv), c));
    ts.push(t);
    assert(typedefs_view(ts@) =~= vs.push(tv));
}

/// Folds the statements of a module's body into a fresh module of the given
/// name, taking them last to first.
fn fold_nodes(name: String, nodes: Vec<Node>) -> (m: Module)
    ensures
        m@ == fold_module(name@, nodes_view(nodes)),
{
    let ghost vs = nodes_view(nodes);
    let ghost n = nodes.len() as int;
    let mut module = Module::new(name);
    let mut nodes = nodes;
    let mut version: Option<String> = None;
    assert(vs.subrange(n, n) =~= Seq::<NodeV>::empty());
    assert(module@.revisions =~= Seq::<NodeV>::empty());
    assert(module@.typedefs =~= Seq::<NodeV>::empty());
    assert(module@.imports =~= Seq::<NodeV>::empty());
    assert(module@.includes =~= Seq::<NodeV>::empty());
    while nodes.len() > 0
        invariant
            nodes.len() <= n,
            n == vs.len(),
            forall|k: int| 0 <= k < nodes.len() ==> #[trigger] nodes[k]@ == vs[k],
            module@.name == name@,
            module.yang_version == YangVersion::V1,
            module@.namespace == or_empty(find_first(vs.subrange(nodes.len() as int, n), Field::Namespace)),
            module@.prefix == or_empty(find_first(vs.subrange(nodes.len() as int, n), Field::Prefix)),
            module@.organization == find_first(vs.subrange(nodes.len() as int, n), Field::Organization),
            module@.contact == find_first(vs.subrange(nodes.len() as int, n), Field::Contact),
            module@.description == find_first(vs.subrange(nodes.len() as int, n), Field::Description),
            opt_view(version) == find_first(vs.subrange(nodes.len() as int, n), Field::YangVersion),
            module@.revisions == collect_rev(vs.subrange(nodes.len() as int, n), Listed::Revision),
            module@.imports == collect_rev(vs.subrange(nodes.len() as int, n), Listed::Import),
            module@.includes == collect_rev(vs.subrange(nodes.len() as int, n), Listed::Include),
            module@.typedefs == fold_typedefs(vs.subrange(nodes.len() as int, n)),
        decreases nodes.len(),
    {
        let ghost q = nodes.len() - 1;
        let ghost w = vs.subrange(q, n);
        assert(w.subrange(1, n - q) =~= vs.subrange(q + 1, n));
        assert(w[0] == vs[q]);
        let ghost before = nodes@;
        let ghost prev = module@;
        let node = nodes.pop().unwrap();
        assert(node == before[q]);
        assert(node@ == vs[q]);
        match node {
            Node::Namespace(b) => {
                module.namespace = b.name;
            },
            Node::Prefix(b) => {
                module.prefix = b.name;
            },
            Node::Organization(b) => {
                module.organization = Some(b.name);
            },
            Node::Contact(b) => {
                module.contact = Some(b.name);
            },
            Node::Description(b) => {
                module.description = Some(b.name);
            },
            Node::YangVersion(b) => {
                version = Some(b.name);
            },
            Node::Revision(b) => {
                let r: RevisionNode = *b;
                let ghost rv = revision_view(r);
                module.revisions.push(r);
                assert(module@.revisions =~= prev.revisions + seq![rv]);
            },
            Node::Import(b) => {
                let r: ImportNode = *b;
                let ghost rv = import_view(r);
                module.imports.push(r);
                assert(module@.imports =~= prev.imports + seq![rv]);
            },
            Node::Include(b) => {
                let r: IncludeNode = *b;
                let ghost rv = include_view(r);
                module.includes.push(r);
                assert(module@.includes =~= prev.includes + seq![rv]);
            },
            Node::Typedef(b) => {
                let t: TypedefNode = *b;
                add_typedef(&mut module.typedefs, t);
            },
            _ => {},
        }
        proof {
            assert(collect_rev(w, Listed::Revision) =~= collect_rev(vs.subrange(q + 1, n), Listed::Revision) + if is_listed(Listed::Revision, w[0]) { seq![w[0]] } else { Seq::empty() });
            assert(collect_rev(w, Listed::Import) =~= collect_rev(vs.subrange(q + 1, n), Listed::Import) + if is_listed(Listed::Import, w[0]) { seq![w[0]] } else { Seq::empty() });
            assert(collect_rev(w, Listed::Include) =~= collect_rev(vs.subrange(q + 1, n), Listed::Include) + if is_listed(Listed::Include, w[0]) { seq![w[0]] } else { Seq::empty() });
        }
    }
    assert(vs.subrange(0, n) =~= vs);
    if let Some(v) = &version {
        if is_version_1_1(v) {
            module.yang_version = YangVersion::V1_1;
        }
    }
    module
}

/// A whole module `module NAME { ... }` at the start of `s`, folded into a
/// `Module`.  Any statement that fails to parse fails the whole module.
pub fn yang_parse(s: &str) -> (r: PResult<Module>)
    ensures
        match spec_yang(s@) {
            Some((e, m)) => r matches Ok((rest, x)) && rest@ == s@.subrange(e, s@.len() as int) && x@ == m,
            None => r is Err,
        },
        r matches Ok((_, m)) ==> names_unique(m@.typedefs),
{
    let inp = Input::new(s);
    let c = &inp.chars;
    if !tag_at(c, 0, "module") {
        return Err(ParseError {});
    }
    proof {
        reveal_strlit("module");
    }
    let k = match ws1_at(c, 6) {
        Some(k) => k,
        None => return Err(ParseError {}),
    };
    let b = match identifier_at(c, k) {
        Some(b) => b,
        None => return Err(ParseError {}),
    };
    let j = skip_ws_at(c, b);
    if !char_at(c, j, '{') {
        return Err(ParseError {});
    }
    let (m, nodes) = module_many_at(&inp, j + 1);
    let ghost vs = nodes_view(nodes);
    let close = skip_ws_at(c, m);
    if !char_at(c, close, '}') {
        return Err(ParseError {});
    }
    let module = fold_nodes(inp.string(k, b), nodes);
    proof {
        lemma_fold_typedefs_unique(vs);
    }
    Ok((inp.rest(close + 1), module))
}

} // verus!
