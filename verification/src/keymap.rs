//! Values under text keys, kept in dictionary order of their keys.
use vstd::prelude::*;

use crate::text::{before, law_before_is_strict, law_before_is_transitive, rank, texts, Rank};

verus! {

/// A map from text to `V` whose keys come out in dictionary order.
pub struct KeyMap<V> {
    entries: Vec<(String, V)>,
}

/// Whether the texts stand in dictionary order, none of them twice.
pub open spec fn in_order(keys: Seq<Seq<char>>) -> bool {
    forall|i: int, j: int| 0 <= i < j < keys.len() ==> before(#[trigger] keys[i], #[trigger] keys[j])
}

/// Whether `keys` lists the members of `set` in dictionary order, each once.
pub open spec fn lists(keys: Seq<Seq<char>>, set: Set<Seq<char>>) -> bool {
    &&& in_order(keys)
    &&& forall|k: Seq<char>| #[trigger] keys.contains(k) <==> set.contains(k)
}

/// A set has at most one listing.
pub proof fn law_one_listing(a: Seq<Seq<char>>, b: Seq<Seq<char>>, set: Set<Seq<char>>)
    requires
        lists(a, set),
        lists(b, set),
    ensures
        a == b,
    decreases a.len(),
{
    if a.len() == 0 {
        if b.len() > 0 {
            assert(b.contains(b[0]));
            assert(a.contains(b[0]));
        }
        assert(a =~= b);
    } else {
        assert(a.contains(a.last()));
        assert(b.contains(a.last()));
        assert(b.contains(b.last()));
        assert(a.contains(b.last()));
        let i = choose|i: int| 0 <= i < a.len() && a[i] == b.last();
        let j = choose|j: int| 0 <= j < b.len() && b[j] == a.last();
        law_before_is_strict(a.last(), b.last());
        assert(a.last() == b.last());
        let top = a.last();
        let rest = set.remove(top);
        assert(lists(a.drop_last(), rest)) by {
            lemma_drop_last_lists(a, set);
        }
        assert(lists(b.drop_last(), rest)) by {
            lemma_drop_last_lists(b, set);
        }
        law_one_listing(a.drop_last(), b.drop_last(), rest);
        assert(a =~= a.drop_last().push(top));
        assert(b =~= b.drop_last().push(top));
    }
}

proof fn lemma_drop_last_lists(a: Seq<Seq<char>>, set: Set<Seq<char>>)
    requires
        a.len() > 0,
        lists(a, set),
    ensures
        lists(a.drop_last(), set.remove(a.last())),
{
    let d = a.drop_last();
    assert forall|k: Seq<char>| #[trigger] d.contains(k) <==> set.remove(a.last()).contains(k) by {
        if d.contains(k) {
            let i = choose|i: int| 0 <= i < d.len() && d[i] == k;
            assert(a[i] == k);
            assert(a.contains(k));
            law_before_is_strict(a[i], a[a.len() - 1]);
        }
        if set.remove(a.last()).contains(k) {
            assert(a.contains(k));
            let i = choose|i: int| 0 <= i < a.len() && a[i] == k;
            assert(d[i] == k);
        }
    }
}

/// The keys of a sequence of entries.
spec fn keys_of<V>(entries: Seq<(String, V)>) -> Seq<Seq<char>> {
    entries.map_values(|e: (String, V)| e.0@)
}

/// What a sequence of entries maps each key to.
spec fn map_of<V>(entries: Seq<(String, V)>) -> Map<Seq<char>, V> {
    Map::new(
        |k: Seq<char>| keys_of(entries).contains(k),
        |k: Seq<char>| entries[place_of(entries, k)].1,
    )
}

/// Where the entry under `k` stands.
spec fn place_of<V>(entries: Seq<(String, V)>, k: Seq<char>) -> int {
    choose|i: int| 0 <= i < entries.len() && (#[trigger] entries[i]).0@ == k
}

proof fn lemma_map_at<V>(entries: Seq<(String, V)>, i: int)
    requires
        in_order(keys_of(entries)),
        0 <= i < entries.len(),
    ensures
        map_of(entries).contains_key(entries[i].0@),
        map_of(entries)[entries[i].0@] == entries[i].1,
{
    let k = entries[i].0@;
    assert(keys_of(entries)[i] == k);
    let c = place_of(entries, k);
    assert(keys_of(entries)[c] == k);
    law_before_is_strict(k, k);
    assert(c == i);
}

impl<V> KeyMap<V> {
    #[verifier::type_invariant]
    spec fn sorted(self) -> bool {
        in_order(keys_of(self.entries@))
    }

    /// The keys in dictionary order.
    pub closed spec fn order(self) -> Seq<Seq<char>> {
        keys_of(self.entries@)
    }

    /// A map without entries.
    pub fn new() -> (r: Self)
        ensures
            r@ == Map::<Seq<char>, V>::empty(),
    {
        let r = KeyMap { entries: Vec::new() };
        assert(r@ =~= Map::<Seq<char>, V>::empty());
        r
    }

    /// How many entries there are.
    pub fn len(&self) -> (r: usize)
        ensures
            r == self.order().len(),
            lists(self.order(), self@.dom()),
    {
        proof {
            use_type_invariant(self);
        }
        self.entries.len()
    }

    /// Whether there are no entries.
    pub fn is_empty(&self) -> (r: bool)
        ensures
            r == (self@ == Map::<Seq<char>, V>::empty()),
            r == (self.order().len() == 0),
    {
        proof {
            if self.entries@.len() == 0 {
                assert(self@ =~= Map::<Seq<char>, V>::empty());
            } else {
                assert(keys_of(self.entries@)[0] == self.entries@[0].0@);
                assert(self@.contains_key(self.entries@[0].0@));
            }
        }
        self.entries.len() == 0
    }

    /// The `i`th key.
    pub fn key_at(&self, i: usize) -> (r: &String)
        requires
            i < self.order().len(),
        ensures
            r@ == self.order()[i as int],
            self@.contains_key(r@),
    {
        proof {
            use_type_invariant(self);
            lemma_map_at(self.entries@, i as int);
        }
        &self.entries[i].0
    }

    /// The value under the `i`th key.
    pub fn value_at(&self, i: usize) -> (r: &V)
        requires
            i < self.order().len(),
        ensures
            self@.contains_key(self.order()[i as int]),
            *r == self@[self.order()[i as int]],
    {
        proof {
            use_type_invariant(self);
            lemma_map_at(self.entries@, i as int);
        }
        &self.entries[i].1
    }

    /// Where `key` stands or would stand, and whether it stands there.
    fn locate(&self, key: &str) -> (r: (usize, bool))
        ensures
            r.0 <= self.entries@.len(),
            forall|i: int| 0 <= i < r.0 ==> before(#[trigger] self.entries@[i].0@, key@),
            r.1 ==> r.0 < self.entries@.len() && self.entries@[r.0 as int].0@ == key@,
            !r.1 ==> forall|i: int|
                r.0 <= i < self.entries@.len() ==> before(key@, #[trigger] self.entries@[i].0@),
            r.1 == self@.contains_key(key@),
    {
        proof {
            use_type_invariant(self);
        }
        let ghost ks = keys_of(self.entries@);
        let mut i: usize = 0;
        while i < self.entries.len()
            invariant
                i <= self.entries@.len(),
                ks == keys_of(self.entries@),
                in_order(ks),
                forall|j: int| 0 <= j < i ==> before(#[trigger] self.entries@[j].0@, key@),
            decreases self.entries.len() - i,
        {
            match rank(self.entries[i].0.as_str(), key) {
                Rank::Before => {
                    i = i + 1;
                },
                Rank::Same => {
                    assert(ks[i as int] == key@);
                    return (i, true);
                },
                Rank::After => {
                    proof {
                        assert forall|j: int| i <= j < self.entries@.len() implies before(
                            key@,
                            #[trigger] self.entries@[j].0@,
                        ) by {
                            if j > i {
                                assert(before(ks[i as int], ks[j]));
                                law_before_is_transitive(key@, ks[i as int], ks[j]);
                            }
                        }
                        self.lemma_absent(key@, i as int);
                    }
                    return (i, false);
                },
            }
        }
        proof {
            self.lemma_absent(key@, i as int);
        }
        (i, false)
    }

    proof fn lemma_absent(&self, k: Seq<char>, at: int)
        requires
            0 <= at <= self.entries@.len(),
            forall|i: int| 0 <= i < at ==> before(#[trigger] self.entries@[i].0@, k),
            forall|i: int| at <= i < self.entries@.len() ==> before(k, #[trigger] self.entries@[i].0@),
        ensures
            !self@.contains_key(k),
    {
        if self@.contains_key(k) {
            let i = choose|i: int| 0 <= i < keys_of(self.entries@).len() && keys_of(self.entries@)[i] == k;
            assert(self.entries@[i].0@ == k);
            law_before_is_strict(k, k);
        }
    }

    /// Whether there is an entry under `key`.
    pub fn contains_key(&self, key: &str) -> (r: bool)
        ensures
            r == self@.contains_key(key@),
    {
        self.locate(key).1
    }

    /// The value under `key`.
    pub fn get(&self, key: &str) -> (r: Option<&V>)
        ensures
            match r {
                Some(v) => self@.contains_key(key@) && *v == self@[key@],
                None => !self@.contains_key(key@),
            },
    {
        let (i, found) = self.locate(key);
        if found {
            proof {
                use_type_invariant(self);
                lemma_map_at(self.entries@, i as int);
            }
            Some(&self.entries[i].1)
        } else {
            None
        }
    }

    /// Puts `value` under `key`, in the place of what stood there.
    pub fn insert(&mut self, key: String, value: V)
        ensures
            final(self)@ == old(self)@.insert(key@, value),
    {
        let (i, found) = self.locate(key.as_str());
        proof {
            use_type_invariant(&*self);
        }
        let ghost before_entries = self.entries@;
        let ghost k = key@;
        let mut entries: Vec<(String, V)> = Vec::new();
        std::mem::swap(&mut entries, &mut self.entries);
        if found {
            let _ = entries.remove(i);
        }
        entries.insert(i, (key, value));
        proof {
            lemma_placed(before_entries, entries@, i as int, found, k, value);
        }
        self.entries = entries;
    }

    /// Takes the entry under `key` out.
    pub fn remove(&mut self, key: &str) -> (r: Option<V>)
        ensures
            final(self)@ == old(self)@.remove(key@),
            match r {
                Some(v) => old(self)@.contains_key(key@) && v == old(self)@[key@],
                None => !old(self)@.contains_key(key@),
            },
    {
        let (i, found) = self.locate(key);
        if !found {
            assert(self@ =~= self@.remove(key@));
            return None;
        }
        proof {
            use_type_invariant(&*self);
            lemma_map_at(self.entries@, i as int);
        }
        let ghost before_entries = self.entries@;
        let mut entries: Vec<(String, V)> = Vec::new();
        std::mem::swap(&mut entries, &mut self.entries);
        let (_, value) = entries.remove(i);
        proof {
            lemma_taken(before_entries, entries@, i as int);
        }
        self.entries = entries;
        Some(value)
    }

    /// All keys, in dictionary order.
    pub fn keys(&self) -> (r: Vec<String>)
        ensures
            texts(r@) == self.order(),
            lists(texts(r@), self@.dom()),
    {
        proof {
            use_type_invariant(self);
        }
        let mut r: Vec<String> = Vec::new();
        let mut i: usize = 0;
        while i < self.entries.len()
            invariant
                i <= self.entries@.len(),
                r@.len() == i,
                forall|j: int| 0 <= j < i ==> (#[trigger] r@[j])@ == self.entries@[j].0@,
            decreases self.entries.len() - i,
        {
            r.push(self.entries[i].0.clone());
            i = i + 1;
        }
        assert(texts(r@) =~= self.order());
        r
    }
}

impl<V> View for KeyMap<V> {
    type V = Map<Seq<char>, V>;

    closed spec fn view(&self) -> Map<Seq<char>, V> {
        map_of(self.entries@)
    }
}

proof fn lemma_placed<V>(
    a: Seq<(String, V)>,
    b: Seq<(String, V)>,
    i: int,
    found: bool,
    k: Seq<char>,
    v: V,
)
    requires
        in_order(keys_of(a)),
        0 <= i <= a.len(),
        forall|j: int| 0 <= j < i ==> before(#[trigger] a[j].0@, k),
        found ==> i < a.len() && a[i].0@ == k,
        !found ==> forall|j: int| i <= j < a.len() ==> before(k, #[trigger] a[j].0@),
        b.len() == a.len() + (if found {
            0int
        } else {
            1int
        }),
        b[i].0@ == k,
        b[i].1 == v,
        forall|j: int| 0 <= j < i ==> b[j] == a[j],
        forall|j: int| i < j < b.len() ==> b[j] == a[if found {
            j
        } else {
            j - 1
        }],
    ensures
        in_order(keys_of(b)),
        map_of(b) == map_of(a).insert(k, v),
{
    let ka = keys_of(a);
    let kb = keys_of(b);
    assert forall|x: int, y: int| 0 <= x < y < kb.len() implies before(
        #[trigger] kb[x],
        #[trigger] kb[y],
    ) by {
        let ox = if x < i || found {
            x
        } else {
            x - 1
        };
        let oy = if y < i || found {
            y
        } else {
            y - 1
        };
        if x != i && y != i {
            assert(before(ka[ox], ka[oy]));
        } else if x == i {
            if found {
                assert(before(ka[i], ka[y]));
            } else {
                assert(before(k, a[y - 1].0@));
            }
        } else {
            assert(before(a[x].0@, k));
        }
    }
    assert forall|q: Seq<char>| kb.contains(q) <==> (ka.contains(q) || q == k) by {
        if kb.contains(q) {
            let j = choose|j: int| 0 <= j < kb.len() && kb[j] == q;
            if j < i {
                assert(ka[j] == q);
            } else if j > i {
                assert(ka[if found {
                    j
                } else {
                    j - 1
                }] == q);
            }
        }
        if ka.contains(q) {
            let j = choose|j: int| 0 <= j < ka.len() && ka[j] == q;
            if j < i || found {
                assert(kb[j] == q);
            } else {
                assert(kb[j + 1] == q);
            }
        }
        if q == k {
            assert(kb[i] == k);
        }
    }
    let m = map_of(a).insert(k, v);
    assert forall|q: Seq<char>| map_of(b).contains_key(q) implies map_of(b)[q] == m[q] by {
        let j = choose|j: int| 0 <= j < kb.len() && kb[j] == q;
        lemma_map_at(b, j);
        if q == k {
            lemma_map_at(b, i);
        } else {
            let o = if j < i || found {
                j
            } else {
                j - 1
            };
            assert(j != i);
            lemma_map_at(a, o);
        }
    }
    assert(map_of(b) =~= m);
}

proof fn lemma_taken<V>(a: Seq<(String, V)>, b: Seq<(String, V)>, i: int)
    requires
        in_order(keys_of(a)),
        0 <= i < a.len(),
        b == a.remove(i),
    ensures
        in_order(keys_of(b)),
        map_of(b) == map_of(a).remove(a[i].0@),
{
    let ka = keys_of(a);
    let kb = keys_of(b);
    let k = a[i].0@;
    assert(ka[i] == k);
    assert forall|x: int, y: int| 0 <= x < y < kb.len() implies before(
        #[trigger] kb[x],
        #[trigger] kb[y],
    ) by {
        assert(before(
            ka[if x < i {
                x
            } else {
                x + 1
            }],
            ka[if y < i {
                y
            } else {
                y + 1
            }],
        ));
    }
    assert forall|q: Seq<char>| kb.contains(q) <==> (ka.contains(q) && q != k) by {
        if kb.contains(q) {
            let j = choose|j: int| 0 <= j < kb.len() && kb[j] == q;
            let o = if j < i {
                j
            } else {
                j + 1
            };
            assert(ka[o] == q);
            law_before_is_strict(k, k);
        }
        if ka.contains(q) && q != k {
            let j = choose|j: int| 0 <= j < ka.len() && ka[j] == q;
            if j < i {
                assert(kb[j] == q);
            } else {
                assert(kb[j - 1] == q);
            }
        }
    }
    let m = map_of(a).remove(k);
    assert forall|q: Seq<char>| map_of(b).contains_key(q) implies map_of(b)[q] == m[q] by {
        let j = choose|j: int| 0 <= j < kb.len() && kb[j] == q;
        lemma_map_at(b, j);
        lemma_map_at(
            a,
            if j < i {
                j
            } else {
                j + 1
            },
        );
    }
    assert(map_of(b) =~= m);
}

/// A prefix with one more key has that key more.
pub proof fn lemma_one_more(keys: Seq<Seq<char>>, i: int, k: Seq<char>)
    requires
        0 <= i < keys.len(),
    ensures
        keys.take(i + 1).contains(k) <==> keys.take(i).contains(k) || k == keys[i],
{
    let a = keys.take(i);
    let b = keys.take(i + 1);
    if a.contains(k) {
        let j = choose|j: int| 0 <= j < a.len() && a[j] == k;
        assert(b[j] == k);
    }
    if b.contains(k) {
        let j = choose|j: int| 0 <= j < b.len() && b[j] == k;
        if j < i {
            assert(a[j] == k);
        }
    }
    assert(b[i] == keys[i]);
}

/// The keys of `a` that are keys of `b` too, or those that are not.
pub open spec fn shared<A, B>(
    a: Map<Seq<char>, A>,
    b: Map<Seq<char>, B>,
    inside: bool,
) -> Set<Seq<char>> {
    a.dom().filter(|k: Seq<char>| b.contains_key(k) == inside)
}

/// The keys of `a` that are keys of `b` too, or those that are not, in
/// dictionary order.
pub fn shared_keys<A, B>(a: &KeyMap<A>, b: &KeyMap<B>, inside: bool) -> (r: Vec<String>)
    ensures
        lists(texts(r@), shared(a@, b@, inside)),
{
    let n = a.len();
    let mut r: Vec<String> = Vec::new();
    let mut i: usize = 0;
    let ghost order = a.order();
    while i < n
        invariant
            order == a.order(),
            n == order.len(),
            lists(order, a@.dom()),
            i <= n,
            in_order(texts(r@)),
            forall|k: Seq<char>| #[trigger]
                texts(r@).contains(k) <==> order.take(i as int).contains(k) && b@.contains_key(k)
                    == inside,
        decreases n - i,
    {
        let key = a.key_at(i);
        let ghost old_r = texts(r@);
        if b.contains_key(key.as_str()) == inside {
            r.push(key.clone());
            proof {
                let new_r = texts(r@);
                assert(new_r =~= old_r.push(order[i as int]));
                assert forall|x: int, y: int| 0 <= x < y < new_r.len() implies before(
                    #[trigger] new_r[x],
                    #[trigger] new_r[y],
                ) by {
                    if y == old_r.len() {
                        assert(old_r.contains(old_r[x]));
                        let before_i = order.take(i as int);
                        assert(before_i.contains(old_r[x]));
                        let z = choose|z: int| 0 <= z < before_i.len() && before_i[z] == old_r[x];
                        assert(order[z] == old_r[x]);
                    } else {
                        assert(new_r[x] == old_r[x] && new_r[y] == old_r[y]);
                    }
                }
            }
        }
        proof {
            let new_r = texts(r@);
            assert forall|k: Seq<char>| #[trigger] new_r.contains(k) <==> order.take(i + 1).contains(
                k,
            ) && b@.contains_key(k) == inside by {
                lemma_one_more(order, i as int, k);
                assert(old_r.contains(k) <==> order.take(i as int).contains(k) && b@.contains_key(k)
                    == inside);
                if old_r.contains(k) {
                    let j = choose|j: int| 0 <= j < old_r.len() && old_r[j] == k;
                    assert(new_r[j] == k);
                }
                if b@.contains_key(order[i as int]) == inside {
                    assert(new_r[old_r.len() as int] == order[i as int]);
                }
            }
        }
        i = i + 1;
    }
    proof {
        assert(order.take(n as int) =~= order);
        assert forall|k: Seq<char>| #[trigger] texts(r@).contains(k) <==> shared(
            a@,
            b@,
            inside,
        ).contains(k) by {
            assert(order.contains(k) <==> a@.dom().contains(k));
        }
    }
    r
}

impl KeyMap<String> {
    /// A copy of a map of texts.
    pub fn duplicate(&self) -> (r: Self)
        ensures
            r@ == self@,
    {
        let n = self.len();
        let mut r: KeyMap<String> = KeyMap::new();
        let mut i: usize = 0;
        while i < n
            invariant
                n == self.order().len(),
                lists(self.order(), self@.dom()),
                i <= n,
                forall|k: Seq<char>| #[trigger]
                    r@.contains_key(k) <==> self.order().take(i as int).contains(k),
                forall|k: Seq<char>| #[trigger]
                    r@.contains_key(k) ==> self@.contains_key(k) && r@[k] == self@[k],
            decreases n - i,
        {
            let ghost was = r@;
            r.insert(self.key_at(i).clone(), self.value_at(i).clone());
            proof {
                assert forall|k: Seq<char>| #[trigger]
                    r@.contains_key(k) <==> self.order().take(i + 1).contains(k) by {
                    lemma_one_more(self.order(), i as int, k);
                    assert(was.contains_key(k) <==> self.order().take(i as int).contains(k));
                }
            }
            i = i + 1;
        }
        proof {
            assert(self.order().take(n as int) =~= self.order());
            assert(r@ =~= self@);
        }
        r
    }
}

/// A set of texts.
pub struct KeySet {
    members: KeyMap<()>,
}

impl View for KeySet {
    type V = Set<Seq<char>>;

    closed spec fn view(&self) -> Set<Seq<char>> {
        self.members@.dom()
    }
}

impl KeySet {
    /// A set without members.
    pub fn new() -> (r: Self)
        ensures
            r@ == Set::<Seq<char>>::empty(),
    {
        let r = KeySet { members: KeyMap::new() };
        assert(r@ =~= Set::<Seq<char>>::empty());
        r
    }

    /// Whether `key` is a member.
    pub fn contains(&self, key: &str) -> (r: bool)
        ensures
            r == self@.contains(key@),
    {
        self.members.contains_key(key)
    }

    /// Makes `key` a member; says whether it was none before.
    pub fn insert(&mut self, key: String) -> (r: bool)
        ensures
            final(self)@ == old(self)@.insert(key@),
            r == !old(self)@.contains(key@),
    {
        let fresh = !self.members.contains_key(key.as_str());
        let ghost k = key@;
        self.members.insert(key, ());
        assert(self@ =~= old(self)@.insert(k));
        fresh
    }

    /// Strikes `key` off.
    pub fn remove(&mut self, key: &str)
        ensures
            final(self)@ == old(self)@.remove(key@),
    {
        let _ = self.members.remove(key);
        assert(self@ =~= old(self)@.remove(key@));
    }

    /// All members, in dictionary order.
    pub fn to_sorted(&self) -> (r: Vec<String>)
        ensures
            lists(texts(r@), self@),
    {
        self.members.keys()
    }
}

/// A listing of a set names each of its members, once and nothing else, in dictionary
/// order; and what two maps share are the keys of the one that the other has, or has not.
pub proof fn law_listing<A, B>(
    keys: Seq<Seq<char>>,
    set: Set<Seq<char>>,
    k: Seq<char>,
    i: int,
    j: int,
    a: Map<Seq<char>, A>,
    b: Map<Seq<char>, B>,
)
    requires
        lists(keys, set),
    ensures
        keys.contains(k) <==> set.contains(k),
        0 <= i < j < keys.len() ==> before(keys[i], keys[j]),
        shared(a, b, true).contains(k) <==> a.contains_key(k) && b.contains_key(k),
        shared(a, b, false).contains(k) <==> a.contains_key(k) && !b.contains_key(k),
{
}

} // verus!
