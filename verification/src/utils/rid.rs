//! Which build fits a platform, by the catalogue of .NET runtime identifiers.
use vstd::prelude::*;
use vstd::string::*;

use crate::keymap::{KeyMap, KeySet};
use crate::text::{same, slice_in, text_in, texts};

verus! {

/// Every runtime identifier that is known.
pub struct RidCatalog {
    pub runtimes: KeyMap<Runtime>,
}

/// The more general identifiers that one falls back on, the closest first.
pub struct Runtime {
    pub imports: Vec<String>,
}

/// The platform that the daemon runs on, in the words of the compiler.
pub struct Host {
    pub os: String,
    pub arch: String,
    pub musl: bool,
}

impl View for RidCatalog {
    type V = Map<Seq<char>, Seq<Seq<char>>>;

    open spec fn view(&self) -> Map<Seq<char>, Seq<Seq<char>>> {
        self.runtimes@.map_values(|r: Runtime| texts(r.imports@))
    }
}

/// Where a path through the catalogue leads: each step takes the import of the
/// given number. `None` where there is no such import.
pub open spec fn leads_to(
    catalog: Map<Seq<char>, Seq<Seq<char>>>,
    from: Seq<char>,
    path: Seq<nat>,
) -> Option<Seq<char>>
    decreases path.len(),
{
    if path.len() == 0 {
        Some(from)
    } else {
        match leads_to(catalog, from, path.drop_last()) {
            Some(x) => if catalog.contains_key(x) && path.last() < catalog[x].len() {
                Some(catalog[x][path.last() as int])
            } else {
                None
            },
            None => None,
        }
    }
}

/// Whether the path `a` is tried before the path `b`: the shorter first, of two
/// of one length the one that takes the earlier import where they part.
pub open spec fn tried_before(a: Seq<nat>, b: Seq<nat>) -> bool
    decreases a.len(),
{
    a.len() < b.len() || (a.len() == b.len() && a.len() > 0 && (tried_before(
        a.drop_last(),
        b.drop_last(),
    ) || (a.drop_last() == b.drop_last() && a.last() < b.last())))
}

/// Whether a path ends at one of the identifiers that are `wanted`.
pub open spec fn arrives(
    catalog: Map<Seq<char>, Seq<Seq<char>>>,
    from: Seq<char>,
    wanted: Seq<Seq<char>>,
    path: Seq<nat>,
) -> bool {
    leads_to(catalog, from, path) matches Some(x) && wanted.contains(x)
}

/// Whether `path` is the first to arrive.
pub open spec fn arrives_first(
    catalog: Map<Seq<char>, Seq<Seq<char>>>,
    from: Seq<char>,
    wanted: Seq<Seq<char>>,
    path: Seq<nat>,
) -> bool {
    &&& arrives(catalog, from, wanted, path)
    &&& forall|q: Seq<nat>| #[trigger]
        arrives(catalog, from, wanted, q) ==> q == path || tried_before(path, q)
}

/// Whether `r` is the identifier among `wanted` that is closest to `from`;
/// `None` where none can be fallen back on, or `from` is unknown.
pub open spec fn closest(
    catalog: Map<Seq<char>, Seq<Seq<char>>>,
    from: Seq<char>,
    wanted: Seq<Seq<char>>,
    r: Option<Seq<char>>,
) -> bool {
    match r {
        Some(x) => catalog.contains_key(from) && exists|p: Seq<nat>| #[trigger]
            arrives_first(catalog, from, wanted, p) && leads_to(catalog, from, p) == Some(x),
        None => !catalog.contains_key(from) || forall|p: Seq<nat>|
            !(#[trigger] arrives(catalog, from, wanted, p)),
    }
}

/// No path is tried before itself, and of two paths one is tried first.
pub proof fn lemma_one_goes_first(a: Seq<nat>, b: Seq<nat>)
    ensures
        a == b ==> !tried_before(a, b),
        a != b ==> tried_before(a, b) != tried_before(b, a),
    decreases a.len(),
{
    if a.len() == b.len() && a.len() > 0 {
        lemma_one_goes_first(a.drop_last(), b.drop_last());
        if a.drop_last() == b.drop_last() && a.last() == b.last() {
            assert(a =~= a.drop_last().push(a.last()));
            assert(b =~= b.drop_last().push(b.last()));
        }
    } else if a.len() == 0 && b.len() == 0 {
        assert(a =~= b);
    }
}

/// What is tried before a path that is tried before a third is tried before the
/// third.
proof fn lemma_trying_is_transitive(a: Seq<nat>, b: Seq<nat>, c: Seq<nat>)
    requires
        tried_before(a, b),
        tried_before(b, c),
    ensures
        tried_before(a, c),
    decreases a.len(),
{
    if a.len() == c.len() {
        let (x, y, z) = (a.drop_last(), b.drop_last(), c.drop_last());
        if tried_before(x, y) && tried_before(y, z) {
            lemma_trying_is_transitive(x, y, z);
        }
    }
}

/// Two paths that take the same last step are tried in the order of what is
/// before it.
proof fn lemma_one_step_more(a: Seq<nat>, b: Seq<nat>, i: nat, j: nat)
    requires
        tried_before(a, b),
    ensures
        tried_before(a.push(i), b.push(j)),
{
    assert(a.push(i).drop_last() =~= a);
    assert(b.push(j).drop_last() =~= b);
}

/// There is one closest identifier at most.
pub proof fn law_closest_is_one(
    catalog: Map<Seq<char>, Seq<Seq<char>>>,
    from: Seq<char>,
    wanted: Seq<Seq<char>>,
    a: Option<Seq<char>>,
    b: Option<Seq<char>>,
)
    requires
        closest(catalog, from, wanted, a),
        closest(catalog, from, wanted, b),
    ensures
        a == b,
{
    match (a, b) {
        (Some(x), Some(y)) => {
            let p = choose|p: Seq<nat>| #[trigger]
                arrives_first(catalog, from, wanted, p) && leads_to(catalog, from, p) == Some(x);
            let q = choose|q: Seq<nat>| #[trigger]
                arrives_first(catalog, from, wanted, q) && leads_to(catalog, from, q) == Some(y);
            assert(arrives(catalog, from, wanted, p));
            assert(arrives(catalog, from, wanted, q));
            lemma_one_goes_first(p, q);
        },
        (Some(x), None) => {
            let p = choose|p: Seq<nat>| #[trigger]
                arrives_first(catalog, from, wanted, p) && leads_to(catalog, from, p) == Some(x);
            assert(arrives(catalog, from, wanted, p));
        },
        (None, Some(y)) => {
            let q = choose|q: Seq<nat>| #[trigger]
                arrives_first(catalog, from, wanted, q) && leads_to(catalog, from, q) == Some(y);
            assert(arrives(catalog, from, wanted, q));
        },
        (None, None) => {},
    }
}

/// The closest identifier is one of those that are wanted, and no wanted one can
/// be reached in fewer steps.
pub proof fn law_closest_is_wanted(
    catalog: Map<Seq<char>, Seq<Seq<char>>>,
    from: Seq<char>,
    wanted: Seq<Seq<char>>,
    x: Seq<char>,
)
    requires
        closest(catalog, from, wanted, Some(x)),
    ensures
        wanted.contains(x),
        exists|p: Seq<nat>| #[trigger]
            leads_to(catalog, from, p) == Some(x) && forall|q: Seq<nat>| #[trigger]
                arrives(catalog, from, wanted, q) ==> p.len() <= q.len(),
{
    let p = choose|p: Seq<nat>| #[trigger]
        arrives_first(catalog, from, wanted, p) && leads_to(catalog, from, p) == Some(x);
    assert(leads_to(catalog, from, p) == Some(x));
}

/// A known identifier that is wanted is its own closest.
pub proof fn law_exact_match_wins(
    catalog: Map<Seq<char>, Seq<Seq<char>>>,
    from: Seq<char>,
    wanted: Seq<Seq<char>>,
)
    requires
        catalog.contains_key(from),
        wanted.contains(from),
    ensures
        closest(catalog, from, wanted, Some(from)),
{
    let p = Seq::<nat>::empty();
    assert(leads_to(catalog, from, p) == Some(from));
    assert forall|q: Seq<nat>| #[trigger] arrives(catalog, from, wanted, q) implies q == p
        || tried_before(p, q) by {
        if q.len() == 0 {
            assert(q =~= p);
        }
    }
    assert(arrives_first(catalog, from, wanted, p));
}

/// Whether a path is `a` or tried after it.
spec fn not_before(a: Seq<nat>, b: Seq<nat>) -> bool {
    a == b || tried_before(a, b)
}

/// The state of a search: `seen` are the identifiers met so far in the order in
/// which they are looked at, `paths` the ways to them. Those before `h` have
/// been looked at, with all their imports; of the imports of the one at `h`,
/// those before `j` have been met.
spec fn searching(
    catalog: Map<Seq<char>, Seq<Seq<char>>>,
    from: Seq<char>,
    seen: Seq<Seq<char>>,
    paths: Seq<Seq<nat>>,
    h: int,
    j: int,
) -> bool {
    &&& seen.len() == paths.len()
    &&& 0 <= h <= seen.len()
    &&& seen.len() > 0 && seen[0] == from && paths[0].len() == 0
    &&& forall|i: int|
        0 <= i < seen.len() ==> leads_to(catalog, from, #[trigger] paths[i]) == Some(seen[i])
    &&& forall|i: int, k: int|
        0 <= i < k < paths.len() ==> tried_before(#[trigger] paths[i], #[trigger] paths[k])
    &&& forall|i: int, k: int| #[trigger]
        met(catalog, seen, paths, i, k) || !(0 <= i < seen.len() && 0 <= k && catalog.contains_key(
            seen[i],
        ) && k < catalog[seen[i]].len() && (i < h || (i == h && k < j)))
    &&& forall|i: int, q: Seq<nat>|
        0 <= i < h && #[trigger] leads_to(catalog, from, q) == Some(#[trigger] seen[i])
            ==> not_before(paths[i], q)
    &&& forall|m: int|
        h <= m < paths.len() && (#[trigger] paths[m]).len() > 0 ==> tried_before(
            paths[m].drop_last(),
            paths[h],
        ) || (m > h && paths[m].drop_last() == paths[h] && paths[m].last() < j)
}

/// Whether the `k`th import of the `i`th identifier has been met, by a way that
/// is no worse than the one by that import.
spec fn met(
    catalog: Map<Seq<char>, Seq<Seq<char>>>,
    seen: Seq<Seq<char>>,
    paths: Seq<Seq<nat>>,
    i: int,
    k: int,
) -> bool {
    exists|m: int|
        0 <= m < seen.len() && #[trigger] seen[m] == catalog[seen[i]][k] && not_before(
            paths[m],
            paths[i].push(k as nat),
        )
}

/// Every path ends at an identifier that was looked at, or one that is yet to be
/// looked at has a way that is no worse.
proof fn lemma_frontier(
    catalog: Map<Seq<char>, Seq<Seq<char>>>,
    from: Seq<char>,
    seen: Seq<Seq<char>>,
    paths: Seq<Seq<nat>>,
    h: int,
    q: Seq<nat>,
) -> (m: int)
    requires
        searching(catalog, from, seen, paths, h, 0),
        leads_to(catalog, from, q) is Some,
    ensures
        0 <= m < seen.len(),
        m < h ==> leads_to(catalog, from, q) == Some(seen[m]),
        m >= h ==> not_before(paths[m], q),
    decreases q.len(),
{
    if q.len() == 0 {
        assert(q =~= paths[0]);
        0
    } else {
        let p = q.drop_last();
        let k = q.last();
        let i = lemma_frontier(catalog, from, seen, paths, h, p);
        assert(q =~= p.push(k));
        if i < h {
            assert(met(catalog, seen, paths, i, k as int));
            let m = choose|m: int|
                0 <= m < seen.len() && #[trigger] seen[m] == catalog[seen[i]][k as int]
                    && not_before(paths[m], paths[i].push(k));
            assert(not_before(paths[i], p)) by {
                assert(leads_to(catalog, from, p) == Some(seen[i]));
            }
            if paths[i] != p {
                lemma_one_step_more(paths[i], p, k, k);
            }
            if paths[m] != paths[i].push(k) && paths[i].push(k) != q {
                lemma_trying_is_transitive(paths[m], paths[i].push(k), q);
            }
            m
        } else {
            assert(tried_before(p, q));
            if paths[i] != p {
                lemma_trying_is_transitive(paths[i], p, q);
            }
            i
        }
    }
}

/// The way to the identifier that is looked at next is the best there is, to it
/// and to any that was not looked at.
proof fn lemma_next_is_best(
    catalog: Map<Seq<char>, Seq<Seq<char>>>,
    from: Seq<char>,
    seen: Seq<Seq<char>>,
    paths: Seq<Seq<nat>>,
    h: int,
    q: Seq<nat>,
)
    requires
        searching(catalog, from, seen, paths, h, 0),
        h < seen.len(),
        leads_to(catalog, from, q) is Some,
        !seen.take(h).contains(leads_to(catalog, from, q).unwrap()),
    ensures
        not_before(paths[h], q),
{
    let m = lemma_frontier(catalog, from, seen, paths, h, q);
    if m < h {
        assert(seen.take(h)[m] == seen[m]);
    }
    if m > h && paths[m] != q {
        lemma_trying_is_transitive(paths[h], paths[m], q);
    }
}

/// Whatever was met so far has a better way than by the import at hand.
proof fn lemma_met_is_better(
    catalog: Map<Seq<char>, Seq<Seq<char>>>,
    from: Seq<char>,
    seen: Seq<Seq<char>>,
    paths: Seq<Seq<nat>>,
    h: int,
    j: int,
    m: int,
)
    requires
        searching(catalog, from, seen, paths, h, j),
        0 <= m < seen.len(),
        h < seen.len(),
        0 <= j,
    ensures
        tried_before(paths[m], paths[h].push(j as nat)),
{
    let way = paths[h].push(j as nat);
    assert(way.drop_last() =~= paths[h]);
    if m < h {
        lemma_trying_is_transitive(paths[m], paths[h], way);
    } else if m > h {
        let before = paths[m].drop_last();
        assert(tried_before(paths[h], paths[m]));
        assert(paths[m] =~= before.push(paths[m].last()));
        if tried_before(before, paths[h]) {
            lemma_one_step_more(before, paths[h], paths[m].last(), j as nat);
        }
    }
}

/// One more import was met before.
proof fn lemma_known_import(
    catalog: Map<Seq<char>, Seq<Seq<char>>>,
    from: Seq<char>,
    seen: Seq<Seq<char>>,
    paths: Seq<Seq<nat>>,
    h: int,
    j: int,
    m: int,
)
    requires
        searching(catalog, from, seen, paths, h, j),
        h < seen.len(),
        0 <= j,
        0 <= m < seen.len(),
        seen[m] == catalog[seen[h]][j],
    ensures
        searching(catalog, from, seen, paths, h, j + 1),
{
    lemma_met_is_better(catalog, from, seen, paths, h, j, m);
    assert(met(catalog, seen, paths, h, j));
}

/// One more import is met for the first time.
proof fn lemma_new_import(
    catalog: Map<Seq<char>, Seq<Seq<char>>>,
    from: Seq<char>,
    seen: Seq<Seq<char>>,
    paths: Seq<Seq<nat>>,
    h: int,
    j: int,
)
    requires
        searching(catalog, from, seen, paths, h, j),
        h < seen.len(),
        catalog.contains_key(seen[h]),
        0 <= j < catalog[seen[h]].len(),
    ensures
        searching(
            catalog,
            from,
            seen.push(catalog[seen[h]][j]),
            paths.push(paths[h].push(j as nat)),
            h,
            j + 1,
        ),
{
    let w = catalog[seen[h]][j];
    let way = paths[h].push(j as nat);
    let seen2 = seen.push(w);
    let paths2 = paths.push(way);
    let n = seen.len() as int;
    assert(way.drop_last() =~= paths[h]);
    assert(leads_to(catalog, from, paths[h]) == Some(seen[h]));
    assert(leads_to(catalog, from, way) == Some(w));
    assert forall|i: int| 0 <= i < seen2.len() implies leads_to(
        catalog,
        from,
        #[trigger] paths2[i],
    ) == Some(seen2[i]) by {
        if i < n {
            assert(paths2[i] == paths[i]);
        }
    }
    assert forall|i: int, k: int| 0 <= i < k < paths2.len() implies tried_before(
        #[trigger] paths2[i],
        #[trigger] paths2[k],
    ) by {
        if k == n {
            lemma_met_is_better(catalog, from, seen, paths, h, j, i);
        } else {
            assert(paths2[i] == paths[i] && paths2[k] == paths[k]);
        }
    }
    assert forall|i: int, k: int| #[trigger]
        met(catalog, seen2, paths2, i, k) || !(0 <= i < seen2.len() && 0 <= k
            && catalog.contains_key(seen2[i]) && k < catalog[seen2[i]].len() && (i < h || (i == h
            && k < j + 1))) by {
        if 0 <= i <= h && 0 <= k && catalog.contains_key(seen2[i]) && k < catalog[seen2[i]].len()
            && (i < h || k < j + 1) {
            if i == h && k == j {
                assert(seen2[n] == catalog[seen2[i]][k]);
            } else {
                assert(met(catalog, seen, paths, i, k));
                let m = choose|m: int|
                    0 <= m < seen.len() && #[trigger] seen[m] == catalog[seen[i]][k] && not_before(
                        paths[m],
                        paths[i].push(k as nat),
                    );
                assert(seen2[m] == seen[m]);
            }
        }
    }
    assert forall|i: int, q: Seq<nat>|
        0 <= i < h && #[trigger] leads_to(catalog, from, q) == Some(
            #[trigger] seen2[i],
        ) implies not_before(paths2[i], q) by {
        assert(seen2[i] == seen[i]);
    }
    assert forall|m: int|
        h <= m < paths2.len() && (#[trigger] paths2[m]).len() > 0 implies tried_before(
        paths2[m].drop_last(),
        paths2[h],
    ) || (m > h && paths2[m].drop_last() == paths2[h] && paths2[m].last() < j + 1) by {
        if m < n {
            assert(paths2[m] == paths[m]);
        }
    }
}

/// The next identifier's turn.
proof fn lemma_next_turn(
    catalog: Map<Seq<char>, Seq<Seq<char>>>,
    from: Seq<char>,
    seen: Seq<Seq<char>>,
    paths: Seq<Seq<nat>>,
    h: int,
    j: int,
)
    requires
        searching(catalog, from, seen, paths, h, j),
        h < seen.len(),
        catalog.contains_key(seen[h]) ==> j == catalog[seen[h]].len(),
        forall|q: Seq<nat>| #[trigger]
            leads_to(catalog, from, q) == Some(seen[h]) ==> not_before(paths[h], q),
    ensures
        searching(catalog, from, seen, paths, h + 1, 0),
{
    assert forall|m: int|
        h + 1 <= m < paths.len() && (#[trigger] paths[m]).len() > 0 implies tried_before(
        paths[m].drop_last(),
        paths[h + 1],
    ) by {
        assert(tried_before(paths[h], paths[h + 1]));
        if tried_before(paths[m].drop_last(), paths[h]) {
            lemma_trying_is_transitive(paths[m].drop_last(), paths[h], paths[h + 1]);
        }
    }
}

/// No identifier stands twice in the order of a search.
proof fn lemma_seen_once(
    catalog: Map<Seq<char>, Seq<Seq<char>>>,
    from: Seq<char>,
    seen: Seq<Seq<char>>,
    paths: Seq<Seq<nat>>,
    h: int,
)
    requires
        searching(catalog, from, seen, paths, h, 0),
        h < seen.len(),
        forall|i: int, k: int| 0 <= i < k < seen.len() ==> seen[i] != seen[k],
    ensures
        !seen.take(h).contains(seen[h]),
{
}

/// Whether `key` is in the list.
fn listed(list: &[String], key: &str) -> (r: bool)
    ensures
        r == texts(list@).contains(key@),
{
    let mut i: usize = 0;
    while i < list.len()
        invariant
            i <= list@.len(),
            forall|k: int| 0 <= k < i ==> (#[trigger] list@[k])@ != key@,
        decreases list.len() - i,
    {
        if same(list[i].as_str(), key) {
            assert(texts(list@)[i as int] == key@);
            return true;
        }
        i = i + 1;
    }
    false
}

/// The identifier among `wanted` that is closest to `from`.
fn nearest(catalog: &RidCatalog, from: &str, wanted: &[String]) -> (r: Option<String>)
    requires
        catalog@.contains_key(from@),
    ensures
        closest(
            catalog@,
            from@,
            texts(wanted@),
            text_in(r),
        ),
{
    let ghost cat = catalog@;
    let ghost start = from@;
    let ghost goal = texts(wanted@);
    let n = catalog.runtimes.len();
    proof {
        let order = catalog.runtimes.order();
        assert(cat.dom() =~= order.to_set()) by {
            assert forall|k: Seq<char>| cat.dom().contains(k) <==> order.to_set().contains(k) by {
                assert(order.contains(k) <==> catalog.runtimes@.dom().contains(k));
            }
        }
        assert(cat.dom().finite());
    }
    let mut discovered = KeySet::new();
    let _ = discovered.insert(from.to_string());
    let mut queue: Vec<String> = Vec::new();
    queue.push(from.to_string());
    let ghost mut paths: Seq<Seq<nat>> = seq![Seq::<nat>::empty()];
    let mut h: usize = 0;
    proof {
        let seen = texts(queue@);
        assert(seen =~= seq![start]);
        assert(leads_to(cat, start, paths[0]) == Some(start));
        assert(discovered@ =~= set![start]);
        assert forall|k: Seq<char>| discovered@.contains(k) <==> #[trigger] seen.contains(k) by {
            assert(seen[0] == start);
        }
    }
    while h < queue.len()
        invariant
            cat == catalog@,
            start == from@,
            goal == texts(wanted@),
            cat.contains_key(start),
            cat.dom().finite(),
            h <= queue@.len(),
            searching(cat, start, texts(queue@), paths, h as int, 0),
            forall|i: int, k: int|
                0 <= i < k < queue@.len() ==> (#[trigger] queue@[i])@ != (#[trigger] queue@[k])@,
            forall|k: Seq<char>| discovered@.contains(k) <==> #[trigger] texts(queue@).contains(k),
            forall|i: int| 0 <= i < h ==> !goal.contains((#[trigger] queue@[i])@),
        decreases
            cat.dom().difference(texts(queue@).take(h as int).to_set()).len(),
            queue.len() - h,
    {
        let v = queue[h].clone();
        let ghost seen0 = texts(queue@);
        let ghost queue0 = queue@;
        proof {
            assert(seen0[h as int] == v@);
            lemma_seen_once(cat, start, seen0, paths, h as int);
            assert forall|q: Seq<nat>| #[trigger] leads_to(cat, start, q) == Some(
                v@,
            ) implies not_before(paths[h as int], q) by {
                lemma_next_is_best(cat, start, seen0, paths, h as int, q);
            }
        }
        if listed(wanted, v.as_str()) {
            proof {
                let p = paths[h as int];
                assert(arrives_first(cat, start, goal, p)) by {
                    assert forall|q: Seq<nat>| #[trigger]
                        arrives(cat, start, goal, q) implies q == p || tried_before(p, q) by {
                        let x = leads_to(cat, start, q).unwrap();
                        if seen0.take(h as int).contains(x) {
                            let i = choose|i: int|
                                0 <= i < h && seen0.take(h as int)[i] == x;
                            assert(queue@[i]@ == x);
                        }
                        lemma_next_is_best(cat, start, seen0, paths, h as int, q);
                    }
                }
            }
            assert(leads_to(cat, start, paths[h as int]) == Some(v@));
            return Some(v);
        }
        let ghost done = seen0.take(h as int).to_set();
        match catalog.runtimes.get(v.as_str()) {
            Some(rt) => {
                let mut j: usize = 0;
                let ghost imports = texts(rt.imports@);
                proof {
                    assert(cat[v@] =~= imports);
                }
                while j < rt.imports.len()
                    invariant
                        cat == catalog@,
                        imports == texts(rt.imports@),
                        cat.contains_key(v@),
                        cat[v@] == imports,
                        j <= imports.len(),
                        h < seen0.len() <= queue@.len(),
                        seen0[h as int] == v@,
                        texts(queue@).take(seen0.len() as int) == seen0,
                        searching(cat, start, texts(queue@), paths, h as int, j as int),
                        forall|q: Seq<nat>| #[trigger]
                            leads_to(cat, start, q) == Some(v@) ==> not_before(paths[h as int], q),
                        forall|i: int, k: int|
                            0 <= i < k < queue@.len() ==> (#[trigger] queue@[i])@ != (
                            #[trigger] queue@[k])@,
                        forall|k: Seq<char>|
                            discovered@.contains(k) <==> #[trigger] texts(queue@).contains(k),
                    decreases rt.imports.len() - j,
                {
                    let w = rt.imports[j].clone();
                    let ghost seen = texts(queue@);
                    let ghost x = w@;
                    let ghost was = discovered@;
                    proof {
                        assert(imports[j as int] == x);
                        assert(seen[h as int] == seen.take(seen0.len() as int)[h as int]);
                    }
                    if discovered.insert(w.clone()) {
                        queue.push(w);
                        proof {
                            let seen2 = texts(queue@);
                            assert(seen2 =~= seen.push(x));
                            lemma_new_import(cat, start, seen, paths, h as int, j as int);
                            paths = paths.push(paths[h as int].push(j as nat));
                            assert(seen2.take(seen0.len() as int) =~= seen0);
                            assert forall|i: int, k: int| 0 <= i < k < queue@.len() implies (
                            #[trigger] queue@[i])@ != (#[trigger] queue@[k])@ by {
                                if k == seen.len() {
                                    assert(seen[i] == queue@[i]@);
                                    assert(seen.contains(seen[i]));
                                }
                            }
                            assert forall|k: Seq<char>|
                                discovered@.contains(k) <==> #[trigger] seen2.contains(k) by {
                                assert(was.contains(k) <==> seen.contains(k));
                                assert(seen.contains(k) ==> seen2.contains(k)) by {
                                    if seen.contains(k) {
                                        let i = choose|i: int| 0 <= i < seen.len() && seen[i] == k;
                                        assert(seen2[i] == k);
                                    }
                                }
                                assert(seen2[seen.len() as int] == x);
                                if seen2.contains(k) && k != x {
                                    let i = choose|i: int| 0 <= i < seen2.len() && seen2[i] == k;
                                    assert(seen[i] == k);
                                }
                            }
                        }
                    } else {
                        proof {
                            assert(seen.contains(x));
                            let m = choose|m: int| 0 <= m < seen.len() && seen[m] == x;
                            lemma_known_import(cat, start, seen, paths, h as int, j as int, m);
                            assert forall|k: Seq<char>|
                                discovered@.contains(k) <==> #[trigger] seen.contains(k) by {
                                assert(was.contains(k) <==> seen.contains(k));
                            }
                        }
                    }
                    j = j + 1;
                }
                proof {
                    assert(texts(queue@)[h as int] == texts(queue@).take(
                        seen0.len() as int,
                    )[h as int]);
                    lemma_next_turn(cat, start, texts(queue@), paths, h as int, j as int);
                }
            },
            None => {
                proof {
                    lemma_next_turn(cat, start, seen0, paths, h as int, 0);
                }
            },
        }
        proof {
            let seen = texts(queue@);
            assert forall|i: int| 0 <= i < h + 1 implies !goal.contains((#[trigger] queue@[i])@) by {
                assert(queue@[i]@ == seen.take(seen0.len() as int)[i]);
                assert(seen.take(seen0.len() as int) =~= seen0);
                assert(queue0[i]@ == seen0[i]);
            }
            assert(seen.take(h + 1) =~= seen0.take(h as int).push(v@)) by {
                assert(seen.take(seen0.len() as int) =~= seen0);
                assert forall|i: int| 0 <= i < h + 1 implies seen.take(h + 1)[i] == seen0.take(
                    h as int,
                ).push(v@)[i] by {
                    assert(seen[i] == seen.take(seen0.len() as int)[i]);
                }
            }
            let left = cat.dom().difference(done);
            let then = cat.dom().difference(seen.take(h + 1).to_set());
            assert(then =~= left.remove(v@)) by {
                assert forall|k: Seq<char>| then.contains(k) <==> left.remove(v@).contains(k) by {
                    let a = seen0.take(h as int);
                    let b = a.push(v@);
                    if a.contains(k) {
                        let i = choose|i: int| 0 <= i < a.len() && a[i] == k;
                        assert(b[i] == k);
                    }
                    assert(b[a.len() as int] == v@);
                    if b.contains(k) && k != v@ {
                        let i = choose|i: int| 0 <= i < b.len() && b[i] == k;
                        assert(a[i] == k);
                    }
                }
            }
            assert(left.finite());
            if cat.contains_key(v@) {
                assert(left.contains(v@));
            } else {
                assert(then =~= left);
            }
        }
        h = h + 1;
    }
    proof {
        let seen = texts(queue@);
        assert forall|p: Seq<nat>| !(#[trigger] arrives(cat, start, goal, p)) by {
            if arrives(cat, start, goal, p) {
                let m = lemma_frontier(cat, start, seen, paths, h as int, p);
                assert(queue@[m]@ == seen[m]);
            }
        }
    }
    None
}

/// The identifier that is taken for a platform whose own is not in the
/// catalogue.
pub open spec fn guessed(os: Seq<char>, arch: Seq<char>) -> Seq<char> {
    if os == "linux"@ {
        if arch == "x86"@ {
            "linux-x86"@
        } else if arch == "x86_64"@ {
            "linux-x64"@
        } else if arch == "arm"@ {
            "linux-arm"@
        } else if arch == "aarch64"@ {
            "linux-arm64"@
        } else {
            "unknown"@
        }
    } else if os == "freebsd"@ {
        if arch == "x86_64"@ {
            "freebsd-x64"@
        } else {
            "unknown"@
        }
    } else if os == "windows"@ {
        if arch == "x86"@ {
            "win-x86"@
        } else if arch == "x86_64"@ {
            "win-x64"@
        } else if arch == "arm"@ {
            "win-arm"@
        } else if arch == "aarch64"@ {
            "win-arm64"@
        } else {
            "unknown"@
        }
    } else if os == "macos"@ {
        if arch == "x86_64"@ {
            "osx-x64"@
        } else if arch == "aarch64"@ {
            "osx-arm64"@
        } else {
            "unknown"@
        }
    } else {
        "unknown"@
    }
}

/// The identifier that is taken for a platform whose own is not in the
/// catalogue.
pub fn guess_rid(host: &Host) -> (r: &'static str)
    ensures
        r@ == guessed(host.os@, host.arch@),
{
    let arch = host.arch.as_str();
    let x86 = same(arch, "x86");
    let x64 = same(arch, "x86_64");
    let arm = same(arch, "arm");
    let arm64 = same(arch, "aarch64");
    if same(host.os.as_str(), "linux") {
        if x86 {
            "linux-x86"
        } else if x64 {
            "linux-x64"
        } else if arm {
            "linux-arm"
        } else if arm64 {
            "linux-arm64"
        } else {
            "unknown"
        }
    } else if same(host.os.as_str(), "freebsd") {
        if x64 {
            "freebsd-x64"
        } else {
            "unknown"
        }
    } else if same(host.os.as_str(), "windows") {
        if x86 {
            "win-x86"
        } else if x64 {
            "win-x64"
        } else if arm {
            "win-arm"
        } else if arm64 {
            "win-arm64"
        } else {
            "unknown"
        }
    } else if same(host.os.as_str(), "macos") {
        if x64 {
            "osx-x64"
        } else if arm64 {
            "osx-arm64"
        } else {
            "unknown"
        }
    } else {
        "unknown"
    }
}

/// How .NET names an operating system.
pub open spec fn os_part(os: Seq<char>, musl: bool) -> Option<Seq<char>> {
    if os == "linux"@ {
        if musl {
            Some("linux-musl"@)
        } else {
            Some("linux"@)
        }
    } else if os == "windows"@ {
        Some("win"@)
    } else if os == "macos"@ {
        Some("osx"@)
    } else {
        None
    }
}

/// How .NET names a processor.
pub open spec fn arch_part(arch: Seq<char>) -> Option<Seq<char>> {
    if arch == "x86_64"@ {
        Some("x64"@)
    } else if arch == "x86"@ {
        Some("x86"@)
    } else if arch == "aarch64"@ {
        Some("arm64"@)
    } else if arch == "arm"@ {
        Some("arm"@)
    } else {
        None
    }
}

/// The identifier of a platform, where it has one.
pub open spec fn identifier(host: Host) -> Option<Seq<char>> {
    match (os_part(host.os@, host.musl), arch_part(host.arch@)) {
        (Some(os), Some(arch)) => Some(os + "-"@ + arch),
        _ => None,
    }
}

/// The identifier of a platform, where it has one.
pub fn runtime_identifier(host: &Host) -> (r: Option<String>)
    ensures
        text_in(r) == identifier(*host),
{
    let os = if same(host.os.as_str(), "linux") {
        if host.musl {
            "linux-musl"
        } else {
            "linux"
        }
    } else if same(host.os.as_str(), "windows") {
        "win"
    } else if same(host.os.as_str(), "macos") {
        "osx"
    } else {
        return None;
    };
    let arch = if same(host.arch.as_str(), "x86_64") {
        "x64"
    } else if same(host.arch.as_str(), "x86") {
        "x86"
    } else if same(host.arch.as_str(), "aarch64") {
        "arm64"
    } else if same(host.arch.as_str(), "arm") {
        "arm"
    } else {
        return None;
    };
    let mut r = os.to_string();
    r.append("-");
    r.append(arch);
    Some(r)
}

/// Where the search starts: at `current` if it is given, else at the identifier
/// of the platform if the catalogue has it, else at a guess.
pub open spec fn search_start(
    catalog: Map<Seq<char>, Seq<Seq<char>>>,
    host: Host,
    current: Option<Seq<char>>,
) -> Seq<char> {
    match current {
        Some(c) => c,
        None => match identifier(host) {
            Some(rid) => if catalog.contains_key(rid) {
                rid
            } else {
                guessed(host.os@, host.arch@)
            },
            None => guessed(host.os@, host.arch@),
        },
    }
}

/// The build that fits best among `runtimes`: the one whose identifier is
/// closest to `current`, or to the platform where that is not given.
pub fn find_rid(
    catalog: &RidCatalog,
    host: &Host,
    runtimes: &[String],
    current: Option<&str>,
) -> (r: Option<String>)
    ensures
        closest(
            catalog@,
            search_start(
                catalog@,
                *host,
                slice_in(current),
            ),
            texts(runtimes@),
            text_in(r),
        ),
{
    let start = match current {
        Some(c) => c.to_string(),
        None => match runtime_identifier(host) {
            Some(rid) => if catalog.runtimes.contains_key(rid.as_str()) {
                rid
            } else {
                guess_rid(host).to_string()
            },
            None => guess_rid(host).to_string(),
        },
    };
    if !catalog.runtimes.contains_key(start.as_str()) {
        return None;
    }
    nearest(catalog, start.as_str(), runtimes)
}

/// The names of the operating systems, of the processors and of the identifiers,
/// letter by letter.
proof fn lemma_platform_names()
    ensures
        "linux"@ + "-"@ + "x64"@ == "linux-x64"@,
        "linux"@ + "-"@ + "x86"@ == "linux-x86"@,
        "linux"@ + "-"@ + "arm64"@ == "linux-arm64"@,
        "linux"@ + "-"@ + "arm"@ == "linux-arm"@,
        "linux-musl"@ + "-"@ + "x64"@ == "linux-musl-x64"@,
        "linux-musl"@ + "-"@ + "x86"@ == "linux-musl-x86"@,
        "linux-musl"@ + "-"@ + "arm64"@ == "linux-musl-arm64"@,
        "linux-musl"@ + "-"@ + "arm"@ == "linux-musl-arm"@,
        "win"@ + "-"@ + "x64"@ == "win-x64"@,
        "win"@ + "-"@ + "x86"@ == "win-x86"@,
        "win"@ + "-"@ + "arm64"@ == "win-arm64"@,
        "win"@ + "-"@ + "arm"@ == "win-arm"@,
        "osx"@ + "-"@ + "x64"@ == "osx-x64"@,
        "osx"@ + "-"@ + "x86"@ == "osx-x86"@,
        "osx"@ + "-"@ + "arm64"@ == "osx-arm64"@,
        "osx"@ + "-"@ + "arm"@ == "osx-arm"@,
        "x86_64"@ != "x86"@ && "x86_64"@ != "aarch64"@ && "x86_64"@ != "arm"@,
        "x86"@ != "aarch64"@ && "x86"@ != "arm"@ && "aarch64"@ != "arm"@,
        "linux"@ != "windows"@ && "linux"@ != "macos"@ && "linux"@ != "freebsd"@,
        "windows"@ != "macos"@ && "windows"@ != "freebsd"@ && "macos"@ != "freebsd"@,
{
    reveal_strlit("-");
    reveal_strlit("linux");
    reveal_strlit("linux-musl");
    reveal_strlit("win");
    reveal_strlit("osx");
    reveal_strlit("x64");
    reveal_strlit("x86");
    reveal_strlit("arm64");
    reveal_strlit("arm");
    reveal_strlit("linux-x64");
    reveal_strlit("linux-x86");
    reveal_strlit("linux-arm64");
    reveal_strlit("linux-arm");
    reveal_strlit("linux-musl-x64");
    reveal_strlit("linux-musl-x86");
    reveal_strlit("linux-musl-arm64");
    reveal_strlit("linux-musl-arm");
    reveal_strlit("win-x64");
    reveal_strlit("win-x86");
    reveal_strlit("win-arm64");
    reveal_strlit("win-arm");
    reveal_strlit("osx-x64");
    reveal_strlit("osx-x86");
    reveal_strlit("osx-arm64");
    reveal_strlit("osx-arm");
    reveal_strlit("x86_64");
    reveal_strlit("aarch64");
    reveal_strlit("windows");
    reveal_strlit("macos");
    reveal_strlit("freebsd");
    assert("x86_64"@.len() == 6 && "x86"@.len() == 3 && "aarch64"@.len() == 7 && "arm"@.len() == 3
        && "x86"@[0] == 'x' && "arm"@[0] == 'a');
    assert("linux"@.len() == 5 && "windows"@.len() == 7 && "macos"@.len() == 5 && "freebsd"@.len()
        == 7 && "linux"@[0] == 'l' && "macos"@[0] == 'm' && "windows"@[0] == 'w' && "freebsd"@[0]
        == 'f');
}

/// The identifier of every platform that has one: that of its operating system and
/// of its processor. No other platform has any.
pub proof fn law_identifiers(host: Host)
    ensures
        identifier(host) == if host.os@ == "linux"@ && !host.musl {
            if host.arch@ == "x86_64"@ {
                Some("linux-x64"@)
            } else if host.arch@ == "x86"@ {
                Some("linux-x86"@)
            } else if host.arch@ == "aarch64"@ {
                Some("linux-arm64"@)
            } else if host.arch@ == "arm"@ {
                Some("linux-arm"@)
            } else {
                None
            }
        } else if host.os@ == "linux"@ {
            if host.arch@ == "x86_64"@ {
                Some("linux-musl-x64"@)
            } else if host.arch@ == "x86"@ {
                Some("linux-musl-x86"@)
            } else if host.arch@ == "aarch64"@ {
                Some("linux-musl-arm64"@)
            } else if host.arch@ == "arm"@ {
                Some("linux-musl-arm"@)
            } else {
                None
            }
        } else if host.os@ == "windows"@ {
            if host.arch@ == "x86_64"@ {
                Some("win-x64"@)
            } else if host.arch@ == "x86"@ {
                Some("win-x86"@)
            } else if host.arch@ == "aarch64"@ {
                Some("win-arm64"@)
            } else if host.arch@ == "arm"@ {
                Some("win-arm"@)
            } else {
                None
            }
        } else if host.os@ == "macos"@ {
            if host.arch@ == "x86_64"@ {
                Some("osx-x64"@)
            } else if host.arch@ == "x86"@ {
                Some("osx-x86"@)
            } else if host.arch@ == "aarch64"@ {
                Some("osx-arm64"@)
            } else if host.arch@ == "arm"@ {
                Some("osx-arm"@)
            } else {
                None
            }
        } else {
            None
        },
{
    lemma_platform_names();
}

/// Two hosts that have an identifier share it only if they have the same operating
/// system and processor, and are of the same kind.
pub proof fn law_identifiers_differ(a: Host, b: Host)
    requires
        identifier(a) is Some,
        identifier(a) == identifier(b),
    ensures
        a.os@ == b.os@,
        a.arch@ == b.arch@,
        a.os@ == "linux"@ ==> a.musl == b.musl,
{
    lemma_platform_names();
    let x = identifier(a).unwrap();
    reveal_strlit("linux-x64");
    reveal_strlit("linux-x86");
    reveal_strlit("linux-arm64");
    reveal_strlit("linux-arm");
    reveal_strlit("linux-musl-x64");
    reveal_strlit("linux-musl-x86");
    reveal_strlit("linux-musl-arm64");
    reveal_strlit("linux-musl-arm");
    reveal_strlit("win-x64");
    reveal_strlit("win-x86");
    reveal_strlit("win-arm64");
    reveal_strlit("win-arm");
    reveal_strlit("osx-x64");
    reveal_strlit("osx-x86");
    reveal_strlit("osx-arm64");
    reveal_strlit("osx-arm");
    law_identifiers(a);
    law_identifiers(b);
    assert("linux-x64"@[0] == 'l' && "linux-x64"@[6] == 'x' && "linux-x64"@[7] == '6'
        && "linux-x64"@.len() == 9);
    assert("linux-x86"@[0] == 'l' && "linux-x86"@[6] == 'x' && "linux-x86"@[7] == '8'
        && "linux-x86"@.len() == 9);
    assert("linux-arm"@[0] == 'l' && "linux-arm"@[6] == 'a' && "linux-arm"@.len() == 9);
    assert("linux-arm64"@[0] == 'l' && "linux-arm64"@[6] == 'a' && "linux-arm64"@.len() == 11);
    assert("linux-musl-x64"@[0] == 'l' && "linux-musl-x64"@[6] == 'm' && "linux-musl-x64"@[12]
        == '6' && "linux-musl-x64"@.len() == 14 && "linux-musl-x64"@[11] == 'x');
    assert("linux-musl-x86"@[0] == 'l' && "linux-musl-x86"@[6] == 'm' && "linux-musl-x86"@[12]
        == '8' && "linux-musl-x86"@.len() == 14 && "linux-musl-x86"@[11] == 'x');
    assert("linux-musl-arm"@[0] == 'l' && "linux-musl-arm"@[6] == 'm' && "linux-musl-arm"@[11]
        == 'a' && "linux-musl-arm"@.len() == 14);
    assert("linux-musl-arm64"@[0] == 'l' && "linux-musl-arm64"@[6] == 'm'
        && "linux-musl-arm64"@.len() == 16);
    assert("win-x64"@[0] == 'w' && "win-x64"@[4] == 'x' && "win-x64"@[5] == '6'
        && "win-x64"@.len() == 7);
    assert("win-x86"@[0] == 'w' && "win-x86"@[4] == 'x' && "win-x86"@[5] == '8'
        && "win-x86"@.len() == 7);
    assert("win-arm"@[0] == 'w' && "win-arm"@[4] == 'a' && "win-arm"@.len() == 7);
    assert("win-arm64"@[0] == 'w' && "win-arm64"@.len() == 9);
    assert("osx-x64"@[0] == 'o' && "osx-x64"@[4] == 'x' && "osx-x64"@[5] == '6'
        && "osx-x64"@.len() == 7);
    assert("osx-x86"@[0] == 'o' && "osx-x86"@[4] == 'x' && "osx-x86"@[5] == '8'
        && "osx-x86"@.len() == 7);
    assert("osx-arm"@[0] == 'o' && "osx-arm"@[4] == 'a' && "osx-arm"@.len() == 7);
    assert("osx-arm64"@[0] == 'o' && "osx-arm64"@.len() == 9);
}

/// Where a platform has an identifier and is guessed at too, both are the same,
/// unless it is built against musl, which the guess does not know.
pub proof fn law_guess_agrees(host: Host)
    ensures
        identifier(host) is Some && !host.musl && guessed(host.os@, host.arch@) != "unknown"@
            ==> identifier(host) == Some(guessed(host.os@, host.arch@)),
        guessed(host.os@, host.arch@) == "unknown"@ <==> {
            &&& !((host.os@ == "linux"@ || host.os@ == "windows"@) && (host.arch@ == "x86_64"@
                || host.arch@ == "x86"@ || host.arch@ == "aarch64"@ || host.arch@ == "arm"@))
            &&& !(host.os@ == "macos"@ && (host.arch@ == "x86_64"@ || host.arch@ == "aarch64"@))
            &&& !(host.os@ == "freebsd"@ && host.arch@ == "x86_64"@)
        },
        host.os@ == "freebsd"@ && host.arch@ == "x86_64"@ ==> guessed(host.os@, host.arch@)
            == "freebsd-x64"@,
{
    lemma_platform_names();
    reveal_strlit("unknown");
    reveal_strlit("freebsd-x64");
    reveal_strlit("linux-x64");
    reveal_strlit("linux-x86");
    reveal_strlit("linux-arm64");
    reveal_strlit("linux-arm");
    reveal_strlit("win-x64");
    reveal_strlit("win-x86");
    reveal_strlit("win-arm64");
    reveal_strlit("win-arm");
    reveal_strlit("osx-x64");
    reveal_strlit("osx-arm64");
    assert("unknown"@[0] == 'u');
    assert("freebsd-x64"@[0] == 'f');
    assert("linux-x64"@[0] == 'l' && "linux-x86"@[0] == 'l' && "linux-arm64"@[0] == 'l'
        && "linux-arm"@[0] == 'l');
    assert("win-x64"@[0] == 'w' && "win-x86"@[0] == 'w' && "win-arm64"@[0] == 'w' && "win-arm"@[0]
        == 'w');
    assert("osx-x64"@[0] == 'o' && "osx-arm64"@[0] == 'o');
}

/// A build for exactly the platform of the host is taken before any other; a given
/// identifier counts in place of the host's.
pub proof fn law_own_platform_comes_first(
    catalog: Map<Seq<char>, Seq<Seq<char>>>,
    host: Host,
    given: Seq<char>,
    wanted: Seq<Seq<char>>,
    r: Option<Seq<char>>,
)
    ensures
        search_start(catalog, host, Some(given)) == given,
        identifier(host) matches Some(own) ==> (catalog.contains_key(own) && wanted.contains(own)
            && closest(catalog, search_start(catalog, host, None), wanted, r) ==> r == Some(own)),
        identifier(host) matches Some(own) ==> (!catalog.contains_key(own) ==> search_start(
            catalog,
            host,
            None,
        ) == guessed(host.os@, host.arch@)),
        identifier(host) is None ==> search_start(catalog, host, None) == guessed(
            host.os@,
            host.arch@,
        ),
{
    if let Some(own) = identifier(host) {
        if catalog.contains_key(own) && wanted.contains(own) {
            let start = search_start(catalog, host, None);
            assert(start == own);
            law_exact_match_wins(catalog, own, wanted);
            if closest(catalog, start, wanted, r) {
                law_closest_is_one(catalog, own, wanted, r, Some(own));
            }
        }
    }
}

/// What cannot be fallen back on is never taken: the build that is taken has the
/// identifier of the start, or is reached from it by imports, each of the one
/// before; and where none is taken, none can be reached, or the start is not known.
pub proof fn law_taken_build_is_reachable(
    catalog: Map<Seq<char>, Seq<Seq<char>>>,
    from: Seq<char>,
    wanted: Seq<Seq<char>>,
    r: Option<Seq<char>>,
    way: Seq<Seq<char>>,
)
    requires
        closest(catalog, from, wanted, r),
        is_way(catalog, from, way),
    ensures
        !catalog.contains_key(from) ==> r is None,
        r is None && catalog.contains_key(from) ==> !wanted.contains(way.last()),
        r matches Some(x) ==> wanted.contains(x) && exists|w: Seq<Seq<char>>| #[trigger]
            is_way(catalog, from, w) && w.last() == x && (wanted.contains(way.last()) ==> w.len()
                <= way.len()),
{
    let q = lemma_path_of_way(catalog, from, way);
    match r {
        None => {
            if catalog.contains_key(from) && wanted.contains(way.last()) {
                assert(arrives(catalog, from, wanted, q));
            }
        },
        Some(x) => {
            let p = choose|p: Seq<nat>| #[trigger]
                arrives_first(catalog, from, wanted, p) && leads_to(catalog, from, p) == Some(x);
            assert(arrives(catalog, from, wanted, p));
            let w = lemma_way_of_path(catalog, from, p);
            if wanted.contains(way.last()) {
                assert(arrives(catalog, from, wanted, q));
            }
            assert(is_way(catalog, from, w) && w.last() == x);
        },
    }
}

/// Whether each identifier of a list is one of the imports of the one before it,
/// from `from` on.
pub open spec fn is_way(
    catalog: Map<Seq<char>, Seq<Seq<char>>>,
    from: Seq<char>,
    way: Seq<Seq<char>>,
) -> bool {
    &&& way.len() > 0
    &&& way[0] == from
    &&& forall|i: int| 0 < i < way.len() ==> #[trigger] imports_next(catalog, way, i)
}

/// Whether the identifier at `i` is one of the imports of the one before it.
pub open spec fn imports_next(
    catalog: Map<Seq<char>, Seq<Seq<char>>>,
    way: Seq<Seq<char>>,
    i: int,
) -> bool {
    catalog.contains_key(way[i - 1]) && catalog[way[i - 1]].contains(way[i])
}

proof fn lemma_path_of_way(
    catalog: Map<Seq<char>, Seq<Seq<char>>>,
    from: Seq<char>,
    way: Seq<Seq<char>>,
) -> (path: Seq<nat>)
    requires
        is_way(catalog, from, way),
    ensures
        path.len() == way.len() - 1,
        leads_to(catalog, from, path) == Some(way.last()),
    decreases way.len(),
{
    if way.len() == 1 {
        Seq::empty()
    } else {
        let before = way.drop_last();
        assert forall|i: int| 0 < i < before.len() implies #[trigger] imports_next(
            catalog,
            before,
            i,
        ) by {
            assert(imports_next(catalog, way, i));
        }
        let p = lemma_path_of_way(catalog, from, before);
        let n = way.len() - 1;
        assert(imports_next(catalog, way, n));
        let imports = catalog[way[n - 1]];
        let x = way[n];
        let k = choose|k: int| 0 <= k < imports.len() && imports[k] == x;
        let path = p.push(k as nat);
        assert(path.drop_last() =~= p);
        path
    }
}

proof fn lemma_way_of_path(
    catalog: Map<Seq<char>, Seq<Seq<char>>>,
    from: Seq<char>,
    path: Seq<nat>,
) -> (way: Seq<Seq<char>>)
    requires
        leads_to(catalog, from, path) is Some,
    ensures
        is_way(catalog, from, way),
        way.len() == path.len() + 1,
        leads_to(catalog, from, path) == Some(way.last()),
    decreases path.len(),
{
    if path.len() == 0 {
        seq![from]
    } else {
        let w = lemma_way_of_path(catalog, from, path.drop_last());
        let x = leads_to(catalog, from, path).unwrap();
        let way = w.push(x);
        assert forall|i: int| 0 < i < way.len() implies #[trigger] imports_next(
            catalog,
            way,
            i,
        ) by {
            if i < w.len() {
                assert(imports_next(catalog, w, i));
            } else {
                assert(way[i - 1] == w.last());
                assert(catalog[w.last()][path.last() as int] == x);
            }
        }
        way
    }
}

/// Of two paths of one length, the one that takes the earlier import where they first
/// part is tried before the other, and a shorter one before any longer.
pub proof fn law_order_of_trying(a: Seq<nat>, b: Seq<nat>)
    ensures
        tried_before(a, b) <==> a.len() < b.len() || (a.len() == b.len() && exists|k: int|
            #[trigger] parts_earlier(a, b, k)),
    decreases a.len(),
{
    if a.len() == b.len() && a.len() > 0 {
        let x = a.drop_last();
        let y = b.drop_last();
        let n = a.len() - 1;
        law_order_of_trying(x, y);
        if tried_before(x, y) {
            let k = choose|k: int| #[trigger] parts_earlier(x, y, k);
            assert forall|i: int| 0 <= i < k implies #[trigger] a[i] == b[i] by {
                assert(x[i] == y[i]);
            }
            assert(parts_earlier(a, b, k));
        } else if x == y && a.last() < b.last() {
            assert forall|i: int| 0 <= i < n implies #[trigger] a[i] == b[i] by {
                assert(x[i] == a[i] && y[i] == b[i]);
            }
            assert(parts_earlier(a, b, n));
        }
        if exists|k: int| #[trigger] parts_earlier(a, b, k) {
            let k = choose|k: int| #[trigger] parts_earlier(a, b, k);
            if k < n {
                assert(parts_earlier(x, y, k));
            } else {
                assert(x =~= y);
            }
        }
    }
}

/// Whether two paths agree before the step `k`, and `a` takes an earlier import
/// there.
pub open spec fn parts_earlier(a: Seq<nat>, b: Seq<nat>, k: int) -> bool {
    &&& 0 <= k < a.len()
    &&& k < b.len()
    &&& forall|i: int| 0 <= i < k ==> #[trigger] a[i] == b[i]
    &&& a[k] < b[k]
}

/// Where there is no build for the start itself, a build for one of its imports is
/// taken, the first of them in the order of the catalogue.
pub proof fn law_earlier_import_is_taken(
    catalog: Map<Seq<char>, Seq<Seq<char>>>,
    from: Seq<char>,
    wanted: Seq<Seq<char>>,
    i: int,
    r: Option<Seq<char>>,
)
    requires
        catalog.contains_key(from),
        !wanted.contains(from),
        0 <= i < catalog[from].len(),
        wanted.contains(catalog[from][i]),
        forall|j: int| 0 <= j < i ==> !wanted.contains(#[trigger] catalog[from][j]),
        closest(catalog, from, wanted, r),
    ensures
        r == Some(catalog[from][i]),
{
    let p = seq![i as nat];
    assert(p.drop_last() =~= Seq::<nat>::empty());
    assert(leads_to(catalog, from, p.drop_last()) == Some(from));
    assert(leads_to(catalog, from, p) == Some(catalog[from][i]));
    assert(arrives(catalog, from, wanted, p));
    assert forall|q: Seq<nat>| #[trigger] arrives(catalog, from, wanted, q) implies q == p
        || tried_before(p, q) by {
        if q.len() == 0 {
            assert(leads_to(catalog, from, q) == Some(from));
        } else if q.len() == 1 {
            assert(q.drop_last() =~= Seq::<nat>::empty());
            assert(leads_to(catalog, from, q.drop_last()) == Some(from));
            assert(leads_to(catalog, from, q) == Some(catalog[from][q.last() as int]));
            if q.last() == i {
                assert(q =~= p);
            }
        }
    }
    assert(arrives_first(catalog, from, wanted, p));
    assert(closest(catalog, from, wanted, Some(catalog[from][i])));
    law_closest_is_one(catalog, from, wanted, r, Some(catalog[from][i]));
}

} // verus!
