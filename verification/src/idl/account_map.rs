//! The map from IDL account names to account addresses of one instruction.
use vstd::prelude::*;

use vstd::utf8::{decode_utf8, encode_utf8, encode_utf8_decode_utf8};

use crate::text::str_eq;

verus! {

/// The map that inserting `pairs` in order into an empty map gives: where a
/// name occurs twice, the later address wins.
pub open spec fn pairs_map(pairs: Seq<(Seq<char>, Seq<char>)>) -> Map<Seq<char>, Seq<char>>
    decreases pairs.len(),
{
    if pairs.len() == 0 {
        Map::empty()
    } else {
        pairs_map(pairs.drop_last()).insert(pairs.last().0, pairs.last().1)
    }
}

/// Whether `a` comes strictly before `b` in lexicographic byte order, the
/// order of `String`s.
pub open spec fn bytes_lt(a: Seq<u8>, b: Seq<u8>) -> bool
    decreases a.len(),
{
    if a.len() == 0 {
        b.len() > 0
    } else if b.len() == 0 {
        false
    } else if a[0] != b[0] {
        a[0] < b[0]
    } else {
        bytes_lt(a.drop_first(), b.drop_first())
    }
}

pub proof fn lemma_bytes_lt_irreflexive(a: Seq<u8>)
    ensures
        !bytes_lt(a, a),
    decreases a.len(),
{
    if a.len() > 0 {
        lemma_bytes_lt_irreflexive(a.drop_first());
    }
}

pub proof fn lemma_bytes_lt_transitive(a: Seq<u8>, b: Seq<u8>, c: Seq<u8>)
    requires
        bytes_lt(a, b),
        bytes_lt(b, c),
    ensures
        bytes_lt(a, c),
    decreases a.len(),
{
    if a.len() > 0 && b.len() > 0 && c.len() > 0 && a[0] == b[0] && b[0] == c[0] {
        lemma_bytes_lt_transitive(a.drop_first(), b.drop_first(), c.drop_first());
    }
}

/// The outcome of comparing two byte sequences.
#[derive(Debug, Clone, Copy, PartialEq, Eq, Structural)]
pub enum ByteOrder {
    Less,
    Equal,
    Greater,
}

/// Compares `a` and `b` in lexicographic byte order.
pub fn compare_bytes(a: &[u8], b: &[u8]) -> (r: ByteOrder)
    ensures
        (r == ByteOrder::Less) == bytes_lt(a@, b@),
        (r == ByteOrder::Equal) == (a@ == b@),
        (r == ByteOrder::Greater) == bytes_lt(b@, a@),
{
    let mut i: usize = 0;
    let alen = a.len();
    let blen = b.len();
    proof {
        assert(a@.skip(0) == a@);
        assert(b@.skip(0) == b@);
    }
    while i < alen && i < blen
        invariant
            0 <= i <= alen,
            i <= blen,
            alen == a@.len(),
            blen == b@.len(),
            a@.take(i as int) == b@.take(i as int),
            bytes_lt(a@, b@) == bytes_lt(a@.skip(i as int), b@.skip(i as int)),
            bytes_lt(b@, a@) == bytes_lt(b@.skip(i as int), a@.skip(i as int)),
        decreases alen - i,
    {
        if a[i] != b[i] {
            proof {
                assert(a@.skip(i as int)[0] == a@[i as int]);
                assert(b@.skip(i as int)[0] == b@[i as int]);
                assert(a@.take(i + 1)[i as int] != b@.take(i + 1)[i as int]);
            }
            if a[i] < b[i] {
                return ByteOrder::Less;
            } else {
                return ByteOrder::Greater;
            }
        }
        proof {
            assert(a@.skip(i as int).drop_first() == a@.skip(i + 1));
            assert(b@.skip(i as int).drop_first() == b@.skip(i + 1));
            assert(a@.take(i + 1) == a@.take(i as int).push(a@[i as int]));
            assert(b@.take(i + 1) == b@.take(i as int).push(b@[i as int]));
        }
        i = i + 1;
    }
    if alen == blen {
        assert(a@ == a@.take(i as int));
        assert(b@ == b@.take(i as int));
        proof {
            lemma_bytes_lt_irreflexive(a@);
        }
        ByteOrder::Equal
    } else if alen < blen {
        assert(a@.skip(i as int).len() == 0);
        assert(a@ != b@);
        ByteOrder::Less
    } else {
        assert(b@.skip(i as int).len() == 0);
        assert(a@ != b@);
        ByteOrder::Greater
    }
}

/// The characters of each pair of strings.
pub open spec fn pairs_view(pairs: Seq<(String, String)>) -> Seq<(Seq<char>, Seq<char>)> {
    pairs.map_values(|p: (String, String)| (p.0@, p.1@))
}

/// The names in a map built from pairs are exactly the names of the pairs.
pub proof fn lemma_pairs_map_names(pairs: Seq<(Seq<char>, Seq<char>)>, name: Seq<char>)
    ensures
        pairs_map(pairs).contains_key(name) <==> exists|j: int|
            0 <= j < pairs.len() && #[trigger] pairs[j].0 == name,
    decreases pairs.len(),
{
    if pairs.len() > 0 {
        let prefix = pairs.drop_last();
        lemma_pairs_map_names(prefix, name);
        if pairs_map(pairs).contains_key(name) && pairs.last().0 != name {
            let j = choose|j: int| 0 <= j < prefix.len() && #[trigger] prefix[j].0 == name;
            assert(pairs[j].0 == name);
        }
        if exists|j: int| 0 <= j < pairs.len() && #[trigger] pairs[j].0 == name {
            let j = choose|j: int| 0 <= j < pairs.len() && #[trigger] pairs[j].0 == name;
            if j < pairs.len() - 1 {
                assert(prefix[j].0 == name);
            }
        }
    }
}

/// Each address of a map built from pairs is the address of one of the pairs.
pub proof fn lemma_pairs_map_addresses(pairs: Seq<(Seq<char>, Seq<char>)>, name: Seq<char>)
    requires
        pairs_map(pairs).contains_key(name),
    ensures
        exists|j: int| 0 <= j < pairs.len() && #[trigger] pairs[j] == (name, pairs_map(pairs)[name]),
    decreases pairs.len(),
{
    let prefix = pairs.drop_last();
    if pairs.last().0 == name {
        assert(pairs[pairs.len() - 1] == (name, pairs_map(pairs)[name]));
    } else {
        lemma_pairs_map_addresses(prefix, name);
        let j = choose|j: int| 0 <= j < prefix.len() && #[trigger] prefix[j] == (
            name,
            pairs_map(prefix)[name],
        );
        assert(pairs[j] == (name, pairs_map(pairs)[name]));
    }
}

/// Where a name occurs in several pairs, the map keeps the address of the
/// last of them.
pub proof fn lemma_pairs_map_last_wins(pairs: Seq<(Seq<char>, Seq<char>)>, i: int)
    requires
        0 <= i < pairs.len(),
        forall|j: int| i < j < pairs.len() ==> pairs[j].0 != pairs[i].0,
    ensures
        pairs_map(pairs).get(pairs[i].0) == Some(pairs[i].1),
{
    lemma_pairs_map_tail(pairs, i + 1, pairs[i].0);
    assert(pairs.take(i + 1).drop_last() == pairs.take(i));
    assert(pairs.take(i + 1).last() == pairs[i]);
}

/// The UTF-8 bytes of a pair's name.
pub open spec fn name_bytes(p: (String, String)) -> Seq<u8> {
    encode_utf8(p.0@)
}

/// Pairs whose names are in strictly increasing byte order, so that no name
/// occurs twice.
pub open spec fn sorted_by_name(pairs: Seq<(String, String)>) -> bool {
    forall|i: int, j: int|
        0 <= i < j < pairs.len() ==> bytes_lt(name_bytes(pairs[i]), name_bytes(pairs[j]))
}

/// No two pairs share a name.
pub open spec fn distinct_names(pairs: Seq<(Seq<char>, Seq<char>)>) -> bool {
    forall|i: int, j: int| 0 <= i < j < pairs.len() ==> pairs[i].0 != pairs[j].0
}

/// Sorted pairs have distinct names.
pub proof fn lemma_sorted_distinct(pairs: Seq<(String, String)>)
    requires
        sorted_by_name(pairs),
    ensures
        distinct_names(pairs_view(pairs)),
{
    assert forall|i: int, j: int| 0 <= i < j < pairs.len() implies pairs_view(pairs)[i].0
        != pairs_view(pairs)[j].0 by {
        assert(pairs_view(pairs)[i].0 == pairs[i].0@);
        assert(pairs_view(pairs)[j].0 == pairs[j].0@);
        assert(bytes_lt(name_bytes(pairs[i]), name_bytes(pairs[j])));
        if pairs[i].0@ == pairs[j].0@ {
            assert(name_bytes(pairs[i]) == name_bytes(pairs[j]));
            lemma_bytes_lt_irreflexive(name_bytes(pairs[i]));
        }
    }
}

/// A map from pairs with distinct names holds exactly their names, each with
/// its address.
proof fn lemma_distinct_lookup(pairs: Seq<(Seq<char>, Seq<char>)>, i: int)
    requires
        distinct_names(pairs),
        0 <= i < pairs.len(),
    ensures
        pairs_map(pairs).contains_key(pairs[i].0),
        pairs_map(pairs)[pairs[i].0] == pairs[i].1,
{
    lemma_pairs_map_last_wins(pairs, i);
}

/// Two sequences of pairs with distinct names, whose pairs agree but for the
/// name `k`, which `q` holds with `v`, build maps that differ by setting `k`.
proof fn lemma_distinct_map_insert(
    p: Seq<(Seq<char>, Seq<char>)>,
    q: Seq<(Seq<char>, Seq<char>)>,
    k: Seq<char>,
    v: Seq<char>,
)
    requires
        distinct_names(p),
        distinct_names(q),
        exists|j: int| 0 <= j < q.len() && q[j] == (k, v),
        forall|j: int| 0 <= j < q.len() && q[j].0 != k ==> exists|m: int| 0 <= m < p.len() && p[m] == q[j],
        forall|m: int| 0 <= m < p.len() && p[m].0 != k ==> exists|j: int| 0 <= j < q.len() && q[j] == p[m],
    ensures
        pairs_map(q) == pairs_map(p).insert(k, v),
{
    let mq = pairs_map(q);
    let mp = pairs_map(p).insert(k, v);
    let jk = choose|j: int| 0 <= j < q.len() && q[j] == (k, v);
    lemma_distinct_lookup(q, jk);
    assert forall|x: Seq<char>| #[trigger] mq.contains_key(x) <==> mp.contains_key(x) by {
        lemma_pairs_map_names(q, x);
        lemma_pairs_map_names(p, x);
        if x != k {
            if mq.contains_key(x) {
                let j = choose|j: int| 0 <= j < q.len() && #[trigger] q[j].0 == x;
                let m = choose|m: int| 0 <= m < p.len() && p[m] == q[j];
                assert(p[m].0 == x);
            }
            if pairs_map(p).contains_key(x) {
                let m = choose|m: int| 0 <= m < p.len() && #[trigger] p[m].0 == x;
                let j = choose|j: int| 0 <= j < q.len() && q[j] == p[m];
                assert(q[j].0 == x);
            }
        }
    }
    assert forall|x: Seq<char>| mq.contains_key(x) implies #[trigger] mq[x] == mp[x] by {
        if x != k {
            lemma_pairs_map_names(q, x);
            let j = choose|j: int| 0 <= j < q.len() && #[trigger] q[j].0 == x;
            let m = choose|m: int| 0 <= m < p.len() && p[m] == q[j];
            lemma_distinct_lookup(q, j);
            lemma_distinct_lookup(p, m);
        }
    }
    assert(mq =~= mp);
}

/// A map from account names to addresses, kept as its pairs in increasing byte
/// order of their names, the order in which a `BTreeMap<String, String>` holds
/// them; each name occurs once.
#[derive(Debug)]
pub struct AccountMap {
    pairs: Vec<(String, String)>,
}

impl View for AccountMap {
    type V = Map<Seq<char>, Seq<char>>;

    closed spec fn view(&self) -> Map<Seq<char>, Seq<char>> {
        pairs_map(pairs_view(self.pairs@))
    }
}

/// Pairs past position `n` that never name `key` leave its entry as it was.
proof fn lemma_pairs_map_tail(pairs: Seq<(Seq<char>, Seq<char>)>, n: int, key: Seq<char>)
    requires
        0 <= n <= pairs.len(),
        forall|j: int| n <= j < pairs.len() ==> pairs[j].0 != key,
    ensures
        pairs_map(pairs).contains_key(key) == pairs_map(pairs.take(n)).contains_key(key),
        pairs_map(pairs)[key] == pairs_map(pairs.take(n))[key],
    decreases pairs.len() - n,
{
    if n < pairs.len() {
        let shorter = pairs.drop_last();
        assert(shorter.take(n) == pairs.take(n));
        lemma_pairs_map_tail(shorter, n, key);
    } else {
        assert(pairs.take(n) == pairs);
    }
}

impl AccountMap {
    #[verifier::type_invariant]
    spec fn names_sorted(&self) -> bool {
        sorted_by_name(self.pairs@)
    }

    pub fn new() -> (m: Self)
        ensures
            m@ == Map::<Seq<char>, Seq<char>>::empty(),
    {
        let m = AccountMap { pairs: Vec::new() };
        assert(pairs_view(m.pairs@) =~= seq![]);
        m
    }

    /// Sets the address of `name`, replacing any earlier one.
    pub fn insert(&mut self, name: String, address: String)
        ensures
            final(self)@ == old(self)@.insert(name@, address@),
    {
        proof {
            use_type_invariant(&*self);
        }
        let ghost old_pairs = self.pairs@;
        let ghost key = encode_utf8(name@);
        let n = self.pairs.len();
        let mut i: usize = 0;
        let mut stop = false;
        let mut order = ByteOrder::Greater;
        while i < n && !stop
            invariant
                0 <= i <= n,
                n == old_pairs.len(),
                old_pairs == self.pairs@,
                key == encode_utf8(name@),
                forall|j: int| 0 <= j < i ==> bytes_lt(name_bytes(old_pairs[j]), key),
                stop ==> i < n && (order == ByteOrder::Equal || order == ByteOrder::Greater),
                stop && order == ByteOrder::Equal ==> name_bytes(old_pairs[i as int]) == key,
                stop && order == ByteOrder::Greater ==> bytes_lt(key, name_bytes(old_pairs[i as int])),
            decreases n - i + (if stop { 0int } else { 1int }),
        {
            let o = compare_bytes(self.pairs[i].0.as_str().as_bytes(), name.as_str().as_bytes());
            match o {
                ByteOrder::Less => {
                    i = i + 1;
                },
                _ => {
                    stop = true;
                    order = o;
                },
            }
        }
        let ghost newp = (name, address);
        let mut pairs: Vec<(String, String)> = Vec::new();
        std::mem::swap(&mut pairs, &mut self.pairs);
        assert(pairs@ == old_pairs);
        if stop && order == ByteOrder::Equal {
            proof {
                encode_utf8_decode_utf8(old_pairs[i as int].0@);
                encode_utf8_decode_utf8(name@);
                assert(old_pairs[i as int].0@ == name@);
                let q = old_pairs.update(i as int, newp);
                assert(sorted_by_name(q)) by {
                    assert forall|a: int, b: int| 0 <= a < b < q.len() implies bytes_lt(
                        name_bytes(q[a]),
                        name_bytes(q[b]),
                    ) by {
                        assert(name_bytes(q[a]) == name_bytes(old_pairs[a]));
                        assert(name_bytes(q[b]) == name_bytes(old_pairs[b]));
                    }
                }
                lemma_sorted_distinct(old_pairs);
                lemma_sorted_distinct(q);
                let pv = pairs_view(old_pairs);
                let qv = pairs_view(q);
                assert(qv =~= pv.update(i as int, (name@, address@)));
                assert(qv[i as int] == (name@, address@));
                assert forall|m: int| 0 <= m < pv.len() && pv[m].0 != name@ implies exists|j: int|
                    0 <= j < qv.len() && qv[j] == pv[m] by {
                    assert(qv[m] == pv[m]);
                }
                assert forall|j: int| 0 <= j < qv.len() && qv[j].0 != name@ implies exists|m: int|
                    0 <= m < pv.len() && pv[m] == qv[j] by {
                    assert(qv[j] == pv[j]);
                }
                lemma_distinct_map_insert(pv, qv, name@, address@);
            }
            pairs.set(i, (name, address));
        } else {
            proof {
                let q = old_pairs.insert(i as int, newp);
                assert(sorted_by_name(q)) by {
                    assert forall|a: int, b: int| 0 <= a < b < q.len() implies bytes_lt(
                        name_bytes(q[a]),
                        name_bytes(q[b]),
                    ) by {
                        if b < i {
                            assert(q[a] == old_pairs[a] && q[b] == old_pairs[b]);
                        } else if b == i {
                            assert(q[a] == old_pairs[a]);
                        } else if a == i {
                            assert(q[b] == old_pairs[b - 1]);
                            if b - 1 > i {
                                lemma_bytes_lt_transitive(
                                    key,
                                    name_bytes(old_pairs[i as int]),
                                    name_bytes(old_pairs[b - 1]),
                                );
                            }
                        } else if a < i {
                            assert(q[a] == old_pairs[a] && q[b] == old_pairs[b - 1]);
                        } else {
                            assert(q[a] == old_pairs[a - 1] && q[b] == old_pairs[b - 1]);
                        }
                    }
                }
                lemma_sorted_distinct(old_pairs);
                lemma_sorted_distinct(q);
                let pv = pairs_view(old_pairs);
                let qv = pairs_view(q);
                assert(qv =~= pv.insert(i as int, (name@, address@)));
                assert(qv[i as int] == (name@, address@));
                assert forall|m: int| 0 <= m < pv.len() && pv[m].0 != name@ implies exists|j: int|
                    0 <= j < qv.len() && qv[j] == pv[m] by {
                    if m < i {
                        assert(qv[m] == pv[m]);
                    } else {
                        assert(qv[m + 1] == pv[m]);
                    }
                }
                assert forall|j: int| 0 <= j < qv.len() && qv[j].0 != name@ implies exists|m: int|
                    0 <= m < pv.len() && pv[m] == qv[j] by {
                    if j < i {
                        assert(qv[j] == pv[j]);
                    } else if j > i {
                        assert(qv[j] == pv[j - 1]);
                    }
                }
                lemma_distinct_map_insert(pv, qv, name@, address@);
            }
            pairs.insert(i, (name, address));
        }
        self.pairs = pairs;
    }

    /// The address of `name`, if the map holds one.
    pub fn get(&self, name: &str) -> (address: Option<&String>)
        ensures
            address is Some <==> self@.contains_key(name@),
            address matches Some(a) ==> self@[name@] == a@,
    {
        let ghost all = pairs_view(self.pairs@);
        let mut i: usize = self.pairs.len();
        while i > 0
            invariant
                0 <= i <= self.pairs@.len(),
                all == pairs_view(self.pairs@),
                forall|j: int| i <= j < all.len() ==> all[j].0 != name@,
            decreases i,
        {
            let k = i - 1;
            if str_eq(self.pairs[k].0.as_str(), name) {
                proof {
                    lemma_pairs_map_tail(all, i as int, name@);
                    assert(all.take(i as int).drop_last() == all.take(k as int));
                }
                return Some(&self.pairs[k].1);
            }
            i = k;
        }
        proof {
            lemma_pairs_map_tail(all, 0, name@);
        }
        None
    }

    /// The names and addresses in increasing byte order of the names, each
    /// name once; building a map from them gives this map.
    pub fn pairs(&self) -> (pairs: &Vec<(String, String)>)
        ensures
            sorted_by_name(pairs@),
            distinct_names(pairs_view(pairs@)),
            pairs_map(pairs_view(pairs@)) == self@,
    {
        proof {
            use_type_invariant(self);
            lemma_sorted_distinct(self.pairs@);
        }
        &self.pairs
    }
}

impl Clone for AccountMap {
    fn clone(&self) -> (copy: Self)
        ensures
            copy@ == self@,
    {
        proof {
            use_type_invariant(self);
        }
        let mut pairs: Vec<(String, String)> = Vec::new();
        let mut i: usize = 0;
        while i < self.pairs.len()
            invariant
                0 <= i <= self.pairs@.len(),
                pairs@ == self.pairs@.take(i as int),
            decreases self.pairs@.len() - i,
        {
            let p = (self.pairs[i].0.clone(), self.pairs[i].1.clone());
            pairs.push(p);
            assert(self.pairs@.take(i + 1) =~= self.pairs@.take(i as int).push(self.pairs@[i as int]));
            i = i + 1;
        }
        assert(self.pairs@.take(self.pairs@.len() as int) == self.pairs@);
        AccountMap { pairs }
    }
}

} // verus!
