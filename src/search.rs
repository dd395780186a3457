use vstd::prelude::*;
use crate::tree::{Entry, EntryView, node_at};

verus! {

broadcast use vstd::string::group_string_axioms;

/// What `str::to_lowercase` makes of a text.
pub uninterp spec fn lower_of(s: Seq<char>) -> Seq<char>;

/// Relies on `str::to_lowercase`: the result depends on the characters alone, and is empty
/// exactly when the text is (each character lowers to one or more characters).
#[verifier::external_body]
pub(crate) fn lowercase(s: &str) -> (r: String)
    ensures
        r@ == lower_of(s@),
        r@.len() == 0 <==> s@.len() == 0,
{
    s.to_lowercase()
}

/// The paths held by a vector of paths.
pub open spec fn paths_view(v: Seq<Vec<usize>>) -> Seq<Seq<usize>> {
    v.map_values(|p: Vec<usize>| p@)
}

/// `needle` occurs in `hay` as a contiguous run.
pub open spec fn contains_seq(hay: Seq<char>, needle: Seq<char>) -> bool {
    exists|i: int| 0 <= i && i + needle.len() <= hay.len() && #[trigger] hay.subrange(i, i + needle.len()) == needle
}

/// A node matches the lower-cased query `ql` when its lower-cased title contains it.
pub open spec fn is_hit(n: EntryView, ql: Seq<char>) -> bool {
    contains_seq(lower_of(n.name), ql)
}

/// The matching descendants of `e`, which stands at `prefix`, in depth-first pre-order.
pub open spec fn tree_matches(e: EntryView, ql: Seq<char>, prefix: Seq<usize>) -> Seq<Seq<usize>>
    decreases e, 1nat,
{
    forest_matches(e.children, ql, prefix, 0)
}

/// The matches among `cs[i..]` (children of the node at `prefix`) and their descendants.
pub open spec fn forest_matches(cs: Seq<EntryView>, ql: Seq<char>, prefix: Seq<usize>, i: int) -> Seq<Seq<usize>>
    decreases cs, cs.len() - i,
{
    if i < 0 || i >= cs.len() || i > usize::MAX {
        Seq::empty()
    } else {
        let here: Seq<Seq<usize>> = if is_hit(cs[i], ql) { seq![prefix.push(i as usize)] } else { Seq::empty() };
        here + tree_matches(cs[i], ql, prefix.push(i as usize)) + forest_matches(cs, ql, prefix, i + 1)
    }
}

/// The paths that a search for `query` yields in `t`: none for the empty query, else every
/// node below the root whose lower-cased title contains the lower-cased query, in pre-order.
pub open spec fn search_results(t: EntryView, query: Seq<char>) -> Seq<Seq<usize>> {
    if query.len() == 0 {
        Seq::empty()
    } else {
        tree_matches(t, lower_of(query), Seq::empty())
    }
}

fn occurs_at(h: &Vec<char>, n: &Vec<char>, i: usize) -> (r: bool)
    requires
        i + n@.len() <= h@.len(),
    ensures
        r == (h@.subrange(i as int, i + n@.len()) == n@),
{
    let hl = h.len();
    let mut k: usize = 0;
    while k < n.len()
        invariant
            hl == h@.len(),
            i + n@.len() <= h@.len(),
            0 <= k <= n@.len(),
            h@.subrange(i as int, i + k) == n@.subrange(0, k as int),
        decreases n@.len() - k,
    {
        if h[i + k] != n[k] {
            assert(h@.subrange(i as int, i + n@.len())[k as int] != n@[k as int]);
            return false;
        }
        assert(h@.subrange(i as int, i + k + 1) =~= n@.subrange(0, k + 1));
        k = k + 1;
    }
    assert(n@.subrange(0, k as int) =~= n@);
    true
}

/// `needle` occurs in `hay`; both are taken as given (callers lower-case them first).
pub fn matches_folded(hay: &str, needle: &str) -> (r: bool)
    ensures
        r == contains_seq(hay@, needle@),
{
    let h = crate::text::chars_of(hay);
    let n = crate::text::chars_of(needle);
    if n.len() > h.len() {
        return false;
    }
    let last = h.len() - n.len();
    let mut i: usize = 0;
    while i <= last
        invariant
            last == h@.len() - n@.len(),
            n@.len() <= h@.len(),
            h@ == hay@,
            n@ == needle@,
            forall|j: int| 0 <= j < i ==> #[trigger] h@.subrange(j, j + n@.len()) != n@,
        decreases h@.len() - i,
    {
        if occurs_at(&h, &n, i) {
            return true;
        }
        if i == last {
            assert forall|j: int| 0 <= j && j + needle@.len() <= hay@.len() implies
                #[trigger] hay@.subrange(j, j + needle@.len()) != needle@ by {
                if j < i {
                } else {
                    assert(j == i);
                }
            }
            return false;
        }
        i = i + 1;
    }
    false
}

/// Appends to `out` the matches below `e`, which stands at `path`.
fn search_below(e: &Entry, ql: &str, path: &mut Vec<usize>, out: &mut Vec<Vec<usize>>)
    ensures
        final(path)@ == old(path)@,
        paths_view(final(out)@) == paths_view(old(out)@) + tree_matches(e@, ql@, old(path)@),
        titles_keep_emptiness(e@),
    decreases e,
{
    proof {
        e.lemma_view_children();
    }
    let ghost cs = e@.children;
    let ghost p0 = path@;
    let ghost out0 = paths_view(out@);
    let mut i: usize = 0;
    assert(paths_view(out@) + forest_matches(cs, ql@, p0, 0) =~= out0 + forest_matches(cs, ql@, p0, 0));
    while i < e.children.len()
        invariant
            cs == e@.children,
            cs.len() == e.children@.len(),
            forall|k: int| 0 <= k < cs.len() ==> #[trigger] cs[k] == e.children@[k]@,
            0 <= i <= cs.len(),
            path@ == p0,
            out0 + forest_matches(cs, ql@, p0, 0) == paths_view(out@) + forest_matches(cs, ql@, p0, i as int),
            forall|k: int| 0 <= k < i ==> {
                &&& (lower_of((#[trigger] cs[k]).name).len() == 0 <==> cs[k].name.len() == 0)
                &&& titles_keep_emptiness(cs[k])
            },
        decreases cs.len() - i,
    {
        let child = &e.children[i];
        let name_lower = lowercase(child.name.as_str());
        let ghost before = paths_view(out@);
        assert(cs[i as int].name == child.name@);
        path.push(i);
        let hit = matches_folded(name_lower.as_str(), ql);
        assert(hit == is_hit(cs[i as int], ql@));
        if hit {
            let found = path.clone();
            assert(found@ =~= path@);
            out.push(found);
            assert(paths_view(out@) =~= before.push(p0.push(i)));
        } else {
            assert(paths_view(out@) =~= before);
        }
        let ghost mid = paths_view(out@);
        assert(mid =~= before + (if is_hit(cs[i as int], ql@) { seq![p0.push(i)] } else { Seq::<Seq<usize>>::empty() }));
        search_below(child, ql, path, out);
        path.pop();
        proof {
            assert(path@ =~= p0);
            let here: Seq<Seq<usize>> = if is_hit(cs[i as int], ql@) { seq![p0.push(i)] } else { Seq::empty() };
            assert(forest_matches(cs, ql@, p0, i as int)
                == here + tree_matches(cs[i as int], ql@, p0.push(i)) + forest_matches(cs, ql@, p0, i + 1));
            assert(paths_view(out@) + forest_matches(cs, ql@, p0, i + 1)
                =~= before + forest_matches(cs, ql@, p0, i as int));
        }
        i = i + 1;
    }
    assert(forest_matches(cs, ql@, p0, i as int) =~= Seq::<Seq<usize>>::empty());
    assert(out0 + tree_matches(e@, ql@, p0) =~= paths_view(out@));
    assert(titles_keep_emptiness(e@));
}

/// The paths of all nodes below the root of `root` whose title contains `query`, ignoring
/// case, in depth-first pre-order; none for the empty query.
pub fn collect_matches(root: &Entry, query: &str) -> (r: Vec<Vec<usize>>)
    ensures
        paths_view(r@) == search_results(root@, query@),
        query@.len() > 0 ==> titles_keep_emptiness(root@) && lower_of(query@).len() > 0,
{
    let mut out: Vec<Vec<usize>> = Vec::new();
    if query.is_empty() {
        assert(paths_view(out@) =~= Seq::<Seq<usize>>::empty());
        return out;
    }
    let ql = lowercase(query);
    let mut path: Vec<usize> = Vec::new();
    assert(path@ =~= Seq::<usize>::empty());
    search_below(root, ql.as_str(), &mut path, &mut out);
    assert(paths_view(out@) =~= Seq::<Seq<usize>>::empty() + tree_matches(root@, ql@, Seq::empty()));
    out
}

/// The first position of `p` in `ms`, `ms.len()` when it is not there.
pub open spec fn position_of(ms: Seq<Seq<usize>>, p: Seq<usize>, i: int) -> int
    decreases ms.len() - i,
{
    if 0 <= i < ms.len() && ms[i] != p {
        position_of(ms, p, i + 1)
    } else {
        i
    }
}

fn copy_path(p: &Vec<usize>) -> (r: Vec<usize>)
    ensures
        r@ == p@,
{
    let r = p.clone();
    assert(r@ =~= p@);
    r
}

fn find_path(ms: &Vec<Vec<usize>>, current: &[usize]) -> (r: usize)
    ensures
        r as int == position_of(paths_view(ms@), current@, 0),
        r <= ms@.len(),
{
    let ghost v = paths_view(ms@);
    let mut i: usize = 0;
    while i < ms.len()
        invariant
            0 <= i <= ms@.len(),
            v == paths_view(ms@),
            position_of(v, current@, 0) == position_of(v, current@, i as int),
        decreases ms@.len() - i,
    {
        let p = &ms[i];
        let mut same = p.len() == current.len();
        let mut k: usize = 0;
        while same && k < p.len()
            invariant
                p@.len() == current@.len() || !same,
                0 <= k <= p@.len(),
                same ==> p@.subrange(0, k as int) == current@.subrange(0, k as int),
                !same ==> p@ != current@,
            decreases p@.len() - k + (if same { 1int } else { 0int }),
        {
            if p[k] != current[k] {
                same = false;
            } else {
                assert(p@.subrange(0, k + 1) =~= current@.subrange(0, k + 1));
                k = k + 1;
            }
        }
        if same {
            assert(p@ =~= p@.subrange(0, k as int));
            assert(current@ =~= current@.subrange(0, k as int));
            assert(v[i as int] == current@);
            return i;
        }
        assert(v[i as int] != current@);
        i = i + 1;
    }
    i
}

/// The first match, if any.
pub fn first_match(ms: &Vec<Vec<usize>>) -> (r: Option<Vec<usize>>)
    ensures
        ms@.len() == 0 ==> r is None,
        ms@.len() > 0 ==> (r matches Some(p) && p@ == ms@[0]@),
{
    if ms.len() == 0 {
        None
    } else {
        Some(copy_path(&ms[0]))
    }
}

/// The match after `current` in match order, wrapping to the first after the last; the first
/// match when `current` is not a match; `None` when there are no matches.
pub fn next_match(ms: &Vec<Vec<usize>>, current: &[usize]) -> (r: Option<Vec<usize>>)
    ensures
        ms@.len() == 0 ==> r is None,
        ms@.len() > 0 ==> (r matches Some(p) && ({
            let i = position_of(paths_view(ms@), current@, 0);
            if i < ms@.len() { p@ == ms@[(i + 1) % (ms@.len() as int)]@ } else { p@ == ms@[0]@ }
        })),
{
    let n = ms.len();
    if n == 0 {
        return None;
    }
    let i = find_path(ms, current);
    if i < n {
        let j = if i + 1 == n { 0 } else { i + 1 };
        assert(j as int == (i + 1) % (n as int)) by (nonlinear_arith)
            requires j == (if i + 1 == n { 0 } else { i + 1 }), i < n, n > 0;
        Some(copy_path(&ms[j]))
    } else {
        Some(copy_path(&ms[0]))
    }
}

/// The match before `current` in match order, wrapping to the last before the first; the
/// last match when `current` is not a match; `None` when there are no matches.
pub fn previous_match(ms: &Vec<Vec<usize>>, current: &[usize]) -> (r: Option<Vec<usize>>)
    ensures
        ms@.len() == 0 ==> r is None,
        ms@.len() > 0 ==> (r matches Some(p) && ({
            let i = position_of(paths_view(ms@), current@, 0);
            if i < ms@.len() {
                p@ == ms@[(i + ms@.len() - 1) % (ms@.len() as int)]@
            } else {
                p@ == ms@[ms@.len() - 1]@
            }
        })),
{
    let n = ms.len();
    if n == 0 {
        return None;
    }
    let i = find_path(ms, current);
    if i < n {
        let j = if i == 0 { n - 1 } else { i - 1 };
        assert(j as int == (i + n - 1) % (n as int)) by (nonlinear_arith)
            requires j == (if i == 0 { n - 1 } else { i - 1 }), i < n, n > 0;
        Some(copy_path(&ms[j]))
    } else {
        Some(copy_path(&ms[n - 1]))
    }
}

/// Lower-casing keeps every title below `e` empty or non-empty as it was.
pub open spec fn titles_keep_emptiness(e: EntryView) -> bool
    decreases e,
{
    forall|k: int| 0 <= k < e.children.len() ==> {
        &&& (lower_of((#[trigger] e.children[k]).name).len() == 0 <==> e.children[k].name.len() == 0)
        &&& titles_keep_emptiness(e.children[k])
    }
}

/// The node at `p` below `n` exists and matches `ql`.
pub open spec fn hit_below(n: EntryView, p: Seq<usize>, ql: Seq<char>) -> bool {
    match node_at(n, p) {
        Some(m) => is_hit(m, ql),
        None => false,
    }
}

proof fn lemma_concat_contains(a: Seq<Seq<usize>>, b: Seq<Seq<usize>>, x: Seq<usize>)
    ensures
        (a + b).contains(x) <==> (a.contains(x) || b.contains(x)),
{
    if (a + b).contains(x) {
        let k = choose|k: int| 0 <= k < (a + b).len() && (a + b)[k] == x;
        if k < a.len() {
            assert(a[k] == x);
        } else {
            assert(b[k - a.len()] == x);
        }
    }
    if a.contains(x) {
        let k = choose|k: int| 0 <= k < a.len() && a[k] == x;
        assert((a + b)[k] == x);
    }
    if b.contains(x) {
        let k = choose|k: int| 0 <= k < b.len() && b[k] == x;
        assert((a + b)[k + a.len()] == x);
    }
}

proof fn lemma_forest_contains(cs: Seq<EntryView>, ql: Seq<char>, pre: Seq<usize>, i: int, x: Seq<usize>)
    requires
        0 <= i,
    ensures
        forest_matches(cs, ql, pre, i).contains(x) <==> (x.len() > pre.len() && x.subrange(0, pre.len() as int) == pre
            && i <= x[pre.len() as int] < cs.len()
            && hit_below(cs[x[pre.len() as int] as int], x.subrange(pre.len() as int + 1, x.len() as int), ql)),
    decreases cs, cs.len() - i,
{
    let l = pre.len() as int;
    if i >= cs.len() || i > usize::MAX {
        assert(forest_matches(cs, ql, pre, i) =~= Seq::<Seq<usize>>::empty());
    } else {
        let p1 = pre.push(i as usize);
        let here: Seq<Seq<usize>> = if is_hit(cs[i], ql) { seq![p1] } else { Seq::empty() };
        let mid = tree_matches(cs[i], ql, p1);
        let rest = forest_matches(cs, ql, pre, i + 1);
        assert(forest_matches(cs, ql, pre, i) == here + mid + rest);
        lemma_concat_contains(here + mid, rest, x);
        lemma_concat_contains(here, mid, x);
        lemma_tree_contains(cs[i], ql, p1, x);
        lemma_forest_contains(cs, ql, pre, i + 1, x);
        let rhs = x.len() > l && x.subrange(0, l) == pre && i <= x[l] < cs.len()
            && hit_below(cs[x[l] as int], x.subrange(l + 1, x.len() as int), ql);
        if here.contains(x) {
            assert(x == p1);
            assert(x.subrange(0, l) =~= pre);
            assert(x.subrange(l + 1, x.len() as int) =~= Seq::<usize>::empty());
            assert(rhs);
        }
        if mid.contains(x) {
            assert(x.subrange(0, l + 1) == p1);
            assert(x.subrange(0, l) =~= x.subrange(0, l + 1).subrange(0, l));
            assert(x[l] == x.subrange(0, l + 1)[l]);
            assert(p1.subrange(0, l) =~= pre);
            assert(x.subrange(0, l) == pre);
            assert(x[l] == i);
            assert(x.subrange(l + 1, x.len() as int) == x.subrange(p1.len() as int, x.len() as int));
            assert(rhs);
        }
        if rest.contains(x) {
            assert(rhs);
        }
        if rhs {
            if x[l] == i {
                if x.len() == l + 1 {
                    assert(x =~= p1);
                    assert(x.subrange(l + 1, x.len() as int) =~= Seq::<usize>::empty());
                    assert(is_hit(cs[i], ql));
                    assert(here[0] == x);
                    assert(here.contains(x));
                } else {
                    assert(x.subrange(0, l + 1) =~= p1);
                    assert(x.subrange(l + 1, x.len() as int) == x.subrange(p1.len() as int, x.len() as int));
                    assert(mid.contains(x));
                }
            } else {
                assert(rest.contains(x));
            }
        }
    }
}

proof fn lemma_tree_contains(e: EntryView, ql: Seq<char>, pre: Seq<usize>, x: Seq<usize>)
    ensures
        tree_matches(e, ql, pre).contains(x) <==> (x.len() > pre.len() && x.subrange(0, pre.len() as int) == pre
            && hit_below(e, x.subrange(pre.len() as int, x.len() as int), ql)),
    decreases e, 0nat,
{
    lemma_forest_contains(e.children, ql, pre, 0, x);
    let l = pre.len() as int;
    if x.len() > l {
        let p = x.subrange(l, x.len() as int);
        assert(p[0] == x[l]);
        assert(p.drop_first() =~= x.subrange(l + 1, x.len() as int));
    }
}

/// A search yields a path exactly when the path addresses a node below the root whose
/// lower-cased title contains the lower-cased query (for a non-empty query).
pub proof fn lemma_search_containment(t: EntryView, query: Seq<char>, p: Seq<usize>)
    requires
        query.len() > 0,
    ensures
        search_results(t, query).contains(p) <==> (p.len() > 0 && hit_below(t, p, lower_of(query))),
{
    lemma_tree_contains(t, lower_of(query), Seq::empty(), p);
    assert(p.subrange(0, 0) =~= Seq::<usize>::empty());
    assert(p.subrange(0, p.len() as int) =~= p);
}

proof fn lemma_descendant_keeps_emptiness(t: EntryView, p: Seq<usize>)
    requires
        titles_keep_emptiness(t),
        p.len() > 0,
        node_at(t, p) is Some,
    ensures
        lower_of(node_at(t, p)->0.name).len() == 0 <==> node_at(t, p)->0.name.len() == 0,
    decreases p.len(),
{
    let c = t.children[p[0] as int];
    assert(titles_keep_emptiness(c));
    if p.len() > 1 {
        lemma_descendant_keeps_emptiness(c, p.drop_first());
    } else {
        assert(p.drop_first().len() == 0);
    }
}

/// Every title a search yields is non-empty, on a tree whose titles were each lower-cased
/// by the search (as `collect_matches` states of every tree it searched).
pub proof fn lemma_matched_titles_nonempty(t: EntryView, query: Seq<char>, p: Seq<usize>)
    requires
        query.len() > 0,
        lower_of(query).len() > 0,
        titles_keep_emptiness(t),
        search_results(t, query).contains(p),
    ensures
        node_at(t, p) matches Some(n) && n.name.len() > 0,
{
    lemma_search_containment(t, query, p);
    lemma_descendant_keeps_emptiness(t, p);
    let n = node_at(t, p)->0;
    let ql = lower_of(query);
    let i = choose|i: int| 0 <= i && i + ql.len() <= lower_of(n.name).len()
        && #[trigger] lower_of(n.name).subrange(i, i + ql.len()) == ql;
    assert(lower_of(n.name).len() > 0);
}

/// The empty query yields nothing, whatever the tree.
pub proof fn lemma_empty_query(t: EntryView, query: Seq<char>)
    requires
        query.len() == 0,
    ensures
        search_results(t, query) == Seq::<Seq<usize>>::empty(),
{
}

/// Two searches with the same query on the same tree yield the same paths in the same order.
pub proof fn lemma_search_deterministic(t: EntryView, query: Seq<char>, r1: Seq<Seq<usize>>, r2: Seq<Seq<usize>>)
    requires
        r1 == search_results(t, query),
        r2 == search_results(t, query),
    ensures
        r1 == r2,
{
}

} // verus!
