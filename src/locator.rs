//! Finding a module's file: the search path, the order in which its
//! directories are scanned, and the choice of a file among a directory's
//! entries.  Reading directories and files is left to the caller, which
//! hands over what it read.
use vstd::prelude::*;
use crate::text::{scan, scan_at, CharClass, Input};

verus! {

/// The search path of a locator: directories, in the order they were added.
/// A directory whose last segment is `...` stands for a recursive scan of
/// its parent.
pub struct Yang {
    pub paths: Vec<String>,
}

/// A directory to scan, and whether to descend into its subdirectories.
#[derive(Debug, PartialEq)]
pub struct ScanTarget {
    pub dir: String,
    pub recursive: bool,
}

/// An entry of a directory listing.  A subdirectory carries what a
/// recursive scan of it found, if it was scanned and anything was found.
#[derive(Debug, PartialEq)]
pub enum DirEntry {
    File(String),
    Dir(String, Option<String>),
}

pub open spec fn views(v: Seq<String>) -> Seq<Seq<char>> {
    Seq::new(v.len(), |k: int| v[k]@)
}

/// The segments of `s` from `start` on, split at each `:`.
pub open spec fn split_from(s: Seq<char>, start: int) -> Seq<Seq<char>>
    decreases s.len() - start,
{
    let k = scan(s, start, CharClass::NotColon);
    if 0 <= start <= k < s.len() {
        seq![s.subrange(start, k)] + split_from(s, k + 1)
    } else {
        seq![s.subrange(start, s.len() as int)]
    }
}

/// The segments of `s` split at each `:`; empty segments are kept.
pub open spec fn split_colon(s: Seq<char>) -> Seq<Seq<char>> {
    split_from(s, 0)
}

pub open spec fn starts_with(s: Seq<char>, t: Seq<char>) -> bool {
    t.len() <= s.len() && s.subrange(0, t.len() as int) == t
}

pub open spec fn ends_with(s: Seq<char>, t: Seq<char>) -> bool {
    t.len() <= s.len() && s.subrange(s.len() - t.len(), s.len() as int) == t
}

/// The directory that a search-path entry stands for, and whether it is
/// scanned recursively: `dir/...` stands for `dir`, scanned recursively, and
/// a bare `...` for the current directory `.`.
pub open spec fn target_of(p: Seq<char>) -> (Seq<char>, bool) {
    if p == "..."@ {
        ("."@, true)
    } else if ends_with(p, "/..."@) {
        (p.subrange(0, p.len() - 4), true)
    } else {
        (p, false)
    }
}

/// The targets of the entries of `ps` whose recursion is `rec`, in order.
pub open spec fn targets_with(ps: Seq<Seq<char>>, rec: bool) -> Seq<(Seq<char>, bool)>
    decreases ps.len(),
{
    if ps.len() == 0 {
        Seq::empty()
    } else {
        targets_with(ps.drop_last(), rec) + if target_of(ps.last()).1 == rec {
            seq![target_of(ps.last())]
        } else {
            Seq::empty()
        }
    }
}

/// The plain directories of `ps` in order, then the recursive roots in order.
pub open spec fn search_order(ps: Seq<Seq<char>>) -> Seq<(Seq<char>, bool)> {
    targets_with(ps, false) + targets_with(ps, true)
}

pub open spec fn target_view(t: ScanTarget) -> (Seq<char>, bool) {
    (t.dir@, t.recursive)
}

pub open spec fn targets_view(v: Seq<ScanTarget>) -> Seq<(Seq<char>, bool)> {
    Seq::new(v.len(), |k: int| target_view(v[k]))
}

/// A module name without a `.yang` suffix.
pub open spec fn base_name(name: Seq<char>) -> Seq<char> {
    if ends_with(name, ".yang"@) {
        name.subrange(0, name.len() - 5)
    } else {
        name
    }
}

/// The file that holds the module under exactly its name.
pub open spec fn exact_file(name: Seq<char>) -> Seq<char> {
    base_name(name) + ".yang"@
}

/// A file `NAME@REVISION.yang` of the module, where its name gives no revision.
pub open spec fn is_candidate(f: Seq<char>, name: Seq<char>) -> bool {
    &&& !base_name(name).contains('@')
    &&& starts_with(f, base_name(name) + "@"@)
    &&& ends_with(f, ".yang"@)
}

/// `a` comes before `b` in lexicographic order of characters.
pub open spec fn lex_lt(a: Seq<char>, b: Seq<char>) -> bool
    decreases a.len(),
{
    if a.len() == 0 {
        b.len() > 0
    } else if b.len() == 0 {
        false
    } else if a[0] != b[0] {
        a[0] < b[0]
    } else {
        lex_lt(a.subrange(1, a.len() as int), b.subrange(1, b.len() as int))
    }
}

/// `f` in directory `dir`.
pub open spec fn join(dir: Seq<char>, f: Seq<char>) -> Seq<char> {
    if dir.len() == 0 {
        f
    } else if dir.last() == '/' {
        dir + f
    } else {
        dir + "/"@ + f
    }
}

/// The first entry that settles the search: a subdirectory, when scanning
/// recursively, in which the module was found, or the module's exact file.
pub open spec fn first_hit(dir: Seq<char>, es: Seq<DirEntry>, name: Seq<char>, recursive: bool) -> Option<Seq<char>>
    decreases es.len(),
{
    if es.len() == 0 {
        None
    } else {
        match es[0] {
            DirEntry::Dir(_, Some(p)) if recursive => Some(p@),
            DirEntry::File(f) if f@ == exact_file(name) => Some(join(dir, f@)),
            _ => first_hit(dir, es.subrange(1, es.len() as int), name, recursive),
        }
    }
}

/// The greatest revision file of the module among `es`.
pub open spec fn best_candidate(es: Seq<DirEntry>, name: Seq<char>) -> Option<Seq<char>>
    decreases es.len(),
{
    if es.len() == 0 {
        None
    } else {
        let rest = best_candidate(es.drop_last(), name);
        match es.last() {
            DirEntry::File(f) if is_candidate(f@, name) => match rest {
                Some(b) if !lex_lt(b, f@) => Some(b),
                _ => Some(f@),
            },
            _ => rest,
        }
    }
}

/// The file that a scan of `dir`, whose entries are `es`, finds for module
/// `name`: the first settling entry, or else the latest revision file.
pub open spec fn scan_choice(dir: Seq<char>, es: Seq<DirEntry>, name: Seq<char>, recursive: bool) -> Option<Seq<char>> {
    match first_hit(dir, es, name, recursive) {
        Some(p) => Some(p),
        None => match best_candidate(es, name) {
            Some(f) => Some(join(dir, f)),
            None => None,
        },
    }
}

/// The directory part of `path`, before its last `/`; `.` where it has none.
pub open spec fn parent_of(path: Seq<char>) -> Seq<char> {
    if exists|k: int| 0 <= k < path.len() && path[k] == '/' {
        path.subrange(0, choose|k: int| is_last_slash(path, k))
    } else {
        "."@
    }
}

pub open spec fn is_last_slash(path: Seq<char>, k: int) -> bool {
    &&& 0 <= k < path.len()
    &&& path[k] == '/'
    &&& forall|m: int| k < m < path.len() ==> path[m] != '/'
}

/// The name of a file entry.
pub open spec fn file_of(e: DirEntry) -> Option<Seq<char>> {
    match e {
        DirEntry::File(f) => Some(f@),
        _ => None,
    }
}

/// What a subdirectory entry's scan found.
pub open spec fn hit_of(e: DirEntry) -> Option<Seq<char>> {
    match e {
        DirEntry::Dir(_, Some(p)) => Some(p@),
        _ => None,
    }
}

/// Entry `e` settles a search for module `name`.
pub open spec fn settles(e: DirEntry, name: Seq<char>, recursive: bool) -> bool {
    (recursive && hit_of(e) is Some) || file_of(e) == Some(exact_file(name))
}

/// Entry `e` is a revision file of module `name`.
pub open spec fn is_candidate_entry(e: DirEntry, name: Seq<char>) -> bool {
    file_of(e) matches Some(f) && is_candidate(f, name)
}

proof fn lemma_lex_irreflexive(a: Seq<char>)
    ensures
        !lex_lt(a, a),
    decreases a.len(),
{
    if a.len() > 0 {
        lemma_lex_irreflexive(a.subrange(1, a.len() as int));
    }
}

proof fn lemma_lex_transitive(a: Seq<char>, b: Seq<char>, c: Seq<char>)
    requires
        lex_lt(a, b),
        lex_lt(b, c),
    ensures
        lex_lt(a, c),
    decreases a.len(),
{
    if a.len() > 0 && b.len() > 0 && c.len() > 0 && a[0] == b[0] && b[0] == c[0] {
        lemma_lex_transitive(
            a.subrange(1, a.len() as int),
            b.subrange(1, b.len() as int),
            c.subrange(1, c.len() as int),
        );
    }
}

/// The best revision file is a revision file of `es` that no other sorts after.
proof fn lemma_best_candidate(es: Seq<DirEntry>, name: Seq<char>)
    ensures
        match best_candidate(es, name) {
            Some(b) => (exists|k: int| 0 <= k < es.len() && is_candidate_entry(es[k], name) && file_of(es[k]) == Some(b))
                && forall|k: int| 0 <= k < es.len() && is_candidate_entry(#[trigger] es[k], name) ==> !lex_lt(b, file_of(es[k])->0),
            None => forall|k: int| 0 <= k < es.len() ==> !is_candidate_entry(#[trigger] es[k], name),
        },
    decreases es.len(),
{
    if es.len() > 0 {
        let p = es.drop_last();
        let n = es.len() - 1;
        lemma_best_candidate(p, name);
        assert forall|k: int| 0 <= k < n implies #[trigger] es[k] == p[k] by {}
        let e = es.last();
        if is_candidate_entry(e, name) {
            let f = file_of(e)->0;
            lemma_lex_irreflexive(f);
            match best_candidate(p, name) {
                Some(b) => {
                    if lex_lt(b, f) {
                        assert forall|k: int| 0 <= k < es.len() && is_candidate_entry(#[trigger] es[k], name) implies !lex_lt(f, file_of(es[k])->0) by {
                            if k < n && lex_lt(f, file_of(es[k])->0) {
                                assert(es[k] == p[k]);
                                lemma_lex_transitive(b, f, file_of(es[k])->0);
                            }
                        }
                        assert(is_candidate_entry(es[n], name) && file_of(es[n]) == Some(f));
                    } else {
                        let k0 = choose|k: int| 0 <= k < p.len() && is_candidate_entry(p[k], name) && file_of(p[k]) == Some(b);
                        assert(es[k0] == p[k0]);
                        assert forall|k: int| 0 <= k < es.len() && is_candidate_entry(#[trigger] es[k], name) implies !lex_lt(b, file_of(es[k])->0) by {
                            if k < n {
                                assert(es[k] == p[k]);
                            }
                        }
                    }
                },
                None => {
                    assert forall|k: int| 0 <= k < es.len() && is_candidate_entry(#[trigger] es[k], name) implies !lex_lt(f, file_of(es[k])->0) by {
                        if k < n {
                            assert(es[k] == p[k]);
                        }
                    }
                    assert(is_candidate_entry(es[n], name) && file_of(es[n]) == Some(f));
                },
            }
        } else {
            match best_candidate(p, name) {
                Some(b) => {
                    let k0 = choose|k: int| 0 <= k < p.len() && is_candidate_entry(p[k], name) && file_of(p[k]) == Some(b);
                    assert(es[k0] == p[k0]);
                    assert forall|k: int| 0 <= k < es.len() && is_candidate_entry(#[trigger] es[k], name) implies !lex_lt(b, file_of(es[k])->0) by {
                        if k < n {
                            assert(es[k] == p[k]);
                        }
                    }
                },
                None => {
                    assert forall|k: int| 0 <= k < es.len() implies !is_candidate_entry(#[trigger] es[k], name) by {
                        if k < n {
                            assert(es[k] == p[k]);
                        }
                    }
                },
            }
        }
    }
}

/// Where no entry before `k` settles the search, the search goes on as if
/// the scan started at `k`.
proof fn lemma_first_hit_skips(dir: Seq<char>, es: Seq<DirEntry>, name: Seq<char>, recursive: bool, k: int)
    requires
        0 <= k <= es.len(),
        forall|m: int| 0 <= m < k ==> !settles(#[trigger] es[m], name, recursive),
    ensures
        first_hit(dir, es, name, recursive) == first_hit(dir, es.subrange(k, es.len() as int), name, recursive),
    decreases k,
{
    if k == 0 {
        assert(es.subrange(0, es.len() as int) =~= es);
    } else {
        let t = es.subrange(1, es.len() as int);
        assert(!settles(es[0], name, recursive));
        assert forall|m: int| 0 <= m < k - 1 implies !settles(#[trigger] t[m], name, recursive) by {
            assert(t[m] == es[m + 1]);
        }
        lemma_first_hit_skips(dir, t, name, recursive, k - 1);
        assert(t.subrange(k - 1, t.len() as int) =~= es.subrange(k, es.len() as int));
    }
}

/// Without the module's exact file, a scan that does not descend chooses,
/// among the module's revision files `NAME@REVISION.yang`, the one whose
/// name sorts last: no revision file sorts after the chosen one.
pub proof fn latest_revision_chosen(dir: Seq<char>, es: Seq<DirEntry>, name: Seq<char>)
    requires
        forall|k: int| 0 <= k < es.len() ==> file_of(#[trigger] es[k]) != Some(exact_file(name)),
        exists|k: int| 0 <= k < es.len() && is_candidate_entry(#[trigger] es[k], name),
    ensures
        exists|b: Seq<char>|
            {
                &&& scan_choice(dir, es, name, false) == Some(join(dir, b))
                &&& exists|k: int| 0 <= k < es.len() && is_candidate_entry(es[k], name) && file_of(es[k]) == Some(b)
                &&& forall|k: int| 0 <= k < es.len() && is_candidate_entry(#[trigger] es[k], name) ==> !lex_lt(b, file_of(es[k])->0)
            },
{
    lemma_first_hit_skips(dir, es, name, false, es.len() as int);
    assert(es.subrange(es.len() as int, es.len() as int).len() == 0);
    lemma_best_candidate(es, name);
    let k = choose|k: int| 0 <= k < es.len() && is_candidate_entry(es[k], name);
    assert(best_candidate(es, name) is Some);
    let b = best_candidate(es, name)->0;
    assert(scan_choice(dir, es, name, false) == Some(join(dir, b)));
}

/// A recursive scan returns unchanged what a subdirectory's scan found, when
/// no entry before that subdirectory settles the search.  As each level hands
/// on the level below's find, a file nested at any depth is found, with the
/// same path, from any directory above it.
pub proof fn nested_find_returned(dir: Seq<char>, es: Seq<DirEntry>, name: Seq<char>, k: int)
    requires
        0 <= k < es.len(),
        hit_of(es[k]) is Some,
        forall|m: int| 0 <= m < k ==> !settles(#[trigger] es[m], name, true),
    ensures
        scan_choice(dir, es, name, true) == hit_of(es[k]),
{
    lemma_first_hit_skips(dir, es, name, true, k);
    let t = es.subrange(k, es.len() as int);
    assert(t[0] == es[k]);
}

/// A scan that does not descend finds nothing in a directory that holds only
/// subdirectories, whatever they hold.
pub proof fn flat_scan_ignores_subdirectories(dir: Seq<char>, es: Seq<DirEntry>, name: Seq<char>)
    requires
        forall|k: int| 0 <= k < es.len() ==> file_of(#[trigger] es[k]) is None,
    ensures
        scan_choice(dir, es, name, false) is None,
{
    lemma_first_hit_skips(dir, es, name, false, es.len() as int);
    assert(es.subrange(es.len() as int, es.len() as int).len() == 0);
    lemma_best_candidate(es, name);
}

fn str_eq(a: &Vec<char>, b: &str) -> (r: bool)
    ensures
        r == (a@ == b@),
{
    let n = b.unicode_len();
    if a.len() != n {
        return false;
    }
    let mut k: usize = 0;
    while k < n
        invariant
            n == a.len(),
            n == b@.len(),
            k <= n,
            forall|m: int| 0 <= m < k ==> a@[m] == b@[m],
        decreases n - k,
    {
        if a[k] != b.get_char(k) {
            return false;
        }
        k = k + 1;
    }
    assert(a@ =~= b@);
    true
}

fn has_prefix(s: &Vec<char>, t: &Vec<char>) -> (r: bool)
    ensures
        r == starts_with(s@, t@),
{
    if t.len() > s.len() {
        return false;
    }
    let mut k: usize = 0;
    while k < t.len()
        invariant
            t.len() <= s.len(),
            k <= t.len(),
            forall|m: int| 0 <= m < k ==> s@[m] == t@[m],
        decreases t.len() - k,
    {
        if s[k] != t[k] {
            assert(s@.subrange(0, t@.len() as int)[k as int] != t@[k as int]);
            return false;
        }
        k = k + 1;
    }
    assert(s@.subrange(0, t@.len() as int) =~= t@);
    true
}

fn has_suffix(s: &Vec<char>, t: &Vec<char>) -> (r: bool)
    ensures
        r == ends_with(s@, t@),
{
    if t.len() > s.len() {
        return false;
    }
    let d = s.len() - t.len();
    let mut k: usize = 0;
    while k < t.len()
        invariant
            t.len() <= s.len(),
            d == s.len() - t.len(),
            k <= t.len(),
            forall|m: int| 0 <= m < k ==> s@[d + m] == t@[m],
        decreases t.len() - k,
    {
        if s[d + k] != t[k] {
            assert(s@.subrange(d as int, s@.len() as int)[k as int] != t@[k as int]);
            return false;
        }
        k = k + 1;
    }
    assert(s@.subrange(d as int, s@.len() as int) =~= t@);
    true
}

fn chars_of(s: &str) -> (r: Vec<char>)
    ensures
        r@ == s@,
{
    crate::text::to_chars(s)
}

/// `a` comes before `b` in lexicographic order of characters.
pub fn lex_less(a: &Vec<char>, b: &Vec<char>) -> (r: bool)
    ensures
        r == lex_lt(a@, b@),
{
    let mut k: usize = 0;
    assert(a@.subrange(0, a@.len() as int) =~= a@);
    assert(b@.subrange(0, b@.len() as int) =~= b@);
    while k < a.len() && k < b.len() && a[k] == b[k]
        invariant
            k <= a.len(),
            k <= b.len(),
            lex_lt(a@, b@) == lex_lt(a@.subrange(k as int, a@.len() as int), b@.subrange(k as int, b@.len() as int)),
        decreases a.len() - k,
    {
        let ghost sa = a@.subrange(k as int, a@.len() as int);
        let ghost sb = b@.subrange(k as int, b@.len() as int);
        assert(sa.subrange(1, sa.len() as int) =~= a@.subrange(k + 1, a@.len() as int));
        assert(sb.subrange(1, sb.len() as int) =~= b@.subrange(k + 1, b@.len() as int));
        k = k + 1;
    }
    let ghost sa = a@.subrange(k as int, a@.len() as int);
    let ghost sb = b@.subrange(k as int, b@.len() as int);
    if k == a.len() {
        k < b.len()
    } else if k == b.len() {
        false
    } else {
        assert(sa[0] == a@[k as int] && sb[0] == b@[k as int]);
        a[k] < b[k]
    }
}

/// The directory that a search-path entry stands for, and whether to scan
/// it recursively.
pub fn scan_target(entry: &str) -> (r: ScanTarget)
    ensures
        target_view(r) == target_of(entry@),
{
    proof {
        reveal_strlit("...");
        reveal_strlit("/...");
        reveal_strlit(".");
    }
    let inp = Input::new(entry);
    let n = inp.len();
    if str_eq(&inp.chars, "...") {
        return ScanTarget { dir: String::from_str("."), recursive: true };
    }
    let tail = chars_of("/...");
    if has_suffix(&inp.chars, &tail) {
        ScanTarget { dir: inp.string(0, n - 4), recursive: true }
    } else {
        ScanTarget { dir: inp.string(0, n), recursive: false }
    }
}

/// The name of the file that holds module `name` under exactly its name.
pub fn exact_file_name(name: &str) -> (r: String)
    ensures
        r@ == exact_file(name@),
{
    proof {
        reveal_strlit(".yang");
    }
    let inp = Input::new(name);
    let n = inp.len();
    let ext = chars_of(".yang");
    let mut r = if has_suffix(&inp.chars, &ext) {
        inp.string(0, n - 5)
    } else {
        inp.string(0, n)
    };
    r.append(".yang");
    r
}

/// `f` in directory `dir`.
pub fn join_path(dir: &str, f: &str) -> (r: String)
    ensures
        r@ == join(dir@, f@),
{
    proof {
        reveal_strlit("/");
    }
    let n = dir.unicode_len();
    let mut r = String::from_str(dir);
    if n > 0 && dir.get_char(n - 1) != '/' {
        r.append("/");
    }
    r.append(f);
    r
}

/// `f` is a revision file `NAME@REVISION.yang` of module `name`.
fn candidate(f: &Vec<char>, name: &str) -> (r: bool)
    ensures
        r == is_candidate(f@, name@),
{
    proof {
        reveal_strlit(".yang");
        reveal_strlit("@");
    }
    let inp = Input::new(name);
    let n = inp.len();
    let ext = chars_of(".yang");
    let bn = if has_suffix(&inp.chars, &ext) {
        n - 5
    } else {
        n
    };
    let ghost base = base_name(name@);
    assert(base =~= inp@.subrange(0, bn as int));
    let mut k: usize = 0;
    while k < bn
        invariant
            inp.wf(),
            inp@ == name@,
            base == base_name(name@),
            bn <= n,
            n == inp@.len(),
            base =~= inp@.subrange(0, bn as int),
            k <= bn,
            forall|m: int| 0 <= m < k ==> base[m] != '@',
        decreases bn - k,
    {
        if inp.chars[k] == '@' {
            assert(base[k as int] == '@');
            assert(base.contains('@'));
            assert(base_name(name@).contains('@'));
            return false;
        }
        k = k + 1;
    }
    let mut prefix = inp.chars.clone();
    prefix.truncate(bn);
    prefix.push('@');
    assert(prefix@ =~= base + "@"@);
    has_prefix(f, &prefix) && has_suffix(f, &ext)
}

/// The file that a scan of directory `dir`, whose entries are `entries` in
/// the order read, finds for module `name` (given bare, with `.yang`, or as
/// `NAME@REVISION`): the first entry that settles the search, or else the
/// revision file whose name sorts last.
pub fn scan_entries(dir: &str, entries: &Vec<DirEntry>, name: &str, recursive: bool) -> (r: Option<String>)
    ensures
        match scan_choice(dir@, entries@, name@, recursive) {
            Some(p) => r matches Some(x) && x@ == p,
            None => r is None,
        },
{
    let exact = exact_file_name(name);
    let mut best: Option<Vec<char>> = None;
    let mut best_name: Option<&String> = None;
    let n = entries.len();
    let mut k: usize = 0;
    assert(entries@.subrange(0, n as int) =~= entries@);
    assert(entries@.subrange(0, 0) =~= Seq::<DirEntry>::empty());
    while k < n
        invariant
            n == entries@.len(),
            k <= n,
            exact@ == exact_file(name@),
            first_hit(dir@, entries@, name@, recursive) == first_hit(dir@, entries@.subrange(k as int, n as int), name@, recursive),
            match best_candidate(entries@.subrange(0, k as int), name@) {
                Some(b) => (best matches Some(x) && x@ == b) && (best_name matches Some(y) && y@ == b),
                None => best is None && best_name is None,
            },
        decreases n - k,
    {
        let ghost w = entries@.subrange(k as int, n as int);
        assert(w.subrange(1, w.len() as int) =~= entries@.subrange(k + 1, n as int));
        assert(w[0] == entries@[k as int]);
        assert(entries@.subrange(0, k + 1).drop_last() =~= entries@.subrange(0, k as int));
        assert(entries@.subrange(0, k + 1).last() == entries@[k as int]);
        match &entries[k] {
            DirEntry::Dir(_, found) => {
                if recursive {
                    if let Some(p) = found {
                        return Some(p.clone());
                    }
                }
            },
            DirEntry::File(f) => {
                if *f == exact {
                    return Some(join_path(dir, f.as_str()));
                }
                let fc = chars_of(f.as_str());
                if candidate(&fc, name) {
                    let better = match &best {
                        Some(b) => lex_less(b, &fc),
                        None => true,
                    };
                    if better {
                        best = Some(fc);
                        best_name = Some(f);
                    }
                }
            },
        }
        k = k + 1;
    }
    match best_name {
        Some(f) => Some(join_path(dir, f.as_str())),
        None => None,
    }
}

/// The directory part of `path`, before its last `/`; `.` where there is none.
pub fn parent_dir(path: &str) -> (r: String)
    ensures
        r@ == parent_of(path@),
{
    proof {
        reveal_strlit(".");
    }
    let inp = Input::new(path);
    let mut k = inp.len();
    while k > 0
        invariant
            inp.wf(),
            inp@ == path@,
            k <= inp@.len(),
            forall|m: int| k <= m < inp@.len() ==> inp@[m] != '/',
        decreases k,
    {
        if inp.chars[k - 1] == '/' {
            assert(is_last_slash(path@, k - 1));
            proof {
                let c = choose|c: int| is_last_slash(path@, c);
                assert(c == k - 1);
            }
            return inp.string(0, k - 1);
        }
        k = k - 1;
    }
    String::from_str(".")
}

/// `name` is a path to a file rather than a module name.
pub fn is_path(name: &str) -> (r: bool)
    ensures
        r == name@.contains('/'),
{
    let inp = Input::new(name);
    let mut k: usize = 0;
    while k < inp.len()
        invariant
            inp.wf(),
            inp@ == name@,
            k <= inp@.len(),
            forall|m: int| 0 <= m < k ==> inp@[m] != '/',
        decreases inp@.len() - k,
    {
        if inp.chars[k] == '/' {
            return true;
        }
        k = k + 1;
    }
    false
}

impl Yang {
    /// A locator with an empty search path.
    pub fn new() -> (r: Yang)
        ensures
            r.paths@.len() == 0,
    {
        Yang { paths: Vec::new() }
    }

    /// Adds the directories of a `:`-separated list to the search path.
    pub fn add_path(&mut self, path: &str)
        ensures
            views(final(self).paths@) == views(old(self).paths@) + split_colon(path@),
    {
        let inp = Input::new(path);
        let n = inp.len();
        let mut start: usize = 0;
        loop
            invariant
                inp.wf(),
                inp@ == path@,
                n == inp@.len(),
                start <= n,
                views(self.paths@) + split_from(path@, start as int) == views(old(self).paths@)
                    + split_colon(path@),
            decreases n - start,
        {
            let k = scan_at(&inp.chars, start, CharClass::NotColon);
            let seg = inp.string(start, k);
            let ghost prev = views(self.paths@);
            self.paths.push(seg);
            assert(views(self.paths@) =~= prev.push(path@.subrange(start as int, k as int)));
            if k < n {
                assert(split_from(path@, start as int) == seq![path@.subrange(start as int, k as int)] + split_from(path@, k + 1));
                assert(prev + split_from(path@, start as int) =~= views(self.paths@) + split_from(path@, k + 1));
                start = k + 1;
            } else {
                assert(split_from(path@, start as int) == seq![path@.subrange(start as int, n as int)]);
                assert(prev + split_from(path@, start as int) =~= views(self.paths@));
                return;
            }
        }
    }

    /// The directories to scan, in order: the plain directories of the
    /// search path, then its recursive roots.
    pub fn search_order(&self) -> (r: Vec<ScanTarget>)
        ensures
            targets_view(r@) == search_order(views(self.paths@)),
    {
        let ghost ps = views(self.paths@);
        let mut r: Vec<ScanTarget> = Vec::new();
        let mut pass: usize = 0;
        while pass < 2
            invariant
                ps == views(self.paths@),
                pass <= 2,
                pass == 0 ==> targets_view(r@) == Seq::<(Seq<char>, bool)>::empty(),
                pass == 1 ==> targets_view(r@) == targets_with(ps, false),
                pass == 2 ==> targets_view(r@) == search_order(ps),
            decreases 2 - pass,
        {
            let rec = pass == 1;
            let ghost start = targets_view(r@);
            let mut k: usize = 0;
            assert(ps.subrange(0, 0) =~= Seq::<Seq<char>>::empty());
            assert(start + targets_with(ps.subrange(0, 0), rec) =~= start);
            while k < self.paths.len()
                invariant
                    ps == views(self.paths@),
                    k <= self.paths.len(),
                    targets_view(r@) == start + targets_with(ps.subrange(0, k as int), rec),
                decreases self.paths.len() - k,
            {
                let t = scan_target(self.paths[k].as_str());
                let ghost before = targets_view(r@);
                assert(ps.subrange(0, k + 1).drop_last() =~= ps.subrange(0, k as int));
                assert(ps.subrange(0, k + 1).last() == self.paths[k as int]@);
                if t.recursive == rec {
                    let ghost tv = target_view(t);
                    r.push(t);
                    assert(targets_view(r@) =~= before.push(tv));
                    assert(start + targets_with(ps.subrange(0, k + 1), rec) =~= before.push(tv));
                } else {
                    assert(start + targets_with(ps.subrange(0, k + 1), rec) =~= before);
                }
                k = k + 1;
            }
            assert(ps.subrange(0, self.paths.len() as int) =~= ps);
            pass = pass + 1;
        }
        r
    }

    /// Adds the directory of a file that was found to the search path,
    /// unless it is there already.
    pub fn remember(&mut self, file: &str)
        ensures
            views(old(self).paths@).contains(parent_of(file@)) ==> final(self).paths@ == old(self).paths@,
            !views(old(self).paths@).contains(parent_of(file@)) ==> views(final(self).paths@) == views(
                old(self).paths@,
            ).push(parent_of(file@)),
    {
        let dir = parent_dir(file);
        let ghost ps = views(self.paths@);
        let mut k: usize = 0;
        while k < self.paths.len()
            invariant
                ps == views(self.paths@),
                *self == *old(self),
                k <= self.paths.len(),
                dir@ == parent_of(file@),
                forall|m: int| 0 <= m < k ==> ps[m] != dir@,
            decreases self.paths.len() - k,
        {
            if self.paths[k] == dir {
                assert(ps[k as int] == dir@);
                return;
            }
            k = k + 1;
        }
        assert(!ps.contains(dir@));
        self.paths.push(dir);
        assert(views(self.paths@) =~= ps.push(parent_of(file@)));
    }
}

} // verus!
