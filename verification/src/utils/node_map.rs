use vstd::prelude::*;

verus! {

/// Lexicographic order on character sequences, comparing code points; a proper
/// prefix comes first.
pub open spec fn char_seq_lt(a: Seq<char>, b: Seq<char>) -> bool
    decreases a.len(),
{
    if a.len() == 0 {
        b.len() > 0
    } else if b.len() == 0 {
        false
    } else if a[0] < b[0] {
        true
    } else if a[0] == b[0] {
        char_seq_lt(a.drop_first(), b.drop_first())
    } else {
        false
    }
}

pub proof fn lemma_char_seq_lt_irreflexive(a: Seq<char>)
    ensures
        !char_seq_lt(a, a),
    decreases a.len(),
{
    if a.len() > 0 {
        lemma_char_seq_lt_irreflexive(a.drop_first());
    }
}

pub proof fn lemma_char_seq_lt_asymmetric(a: Seq<char>, b: Seq<char>)
    requires
        char_seq_lt(a, b),
    ensures
        !char_seq_lt(b, a),
    decreases a.len(),
{
    if a.len() > 0 && b.len() > 0 && a[0] == b[0] {
        lemma_char_seq_lt_asymmetric(a.drop_first(), b.drop_first());
    }
}

pub proof fn lemma_char_seq_lt_transitive(a: Seq<char>, b: Seq<char>, c: Seq<char>)
    requires
        char_seq_lt(a, b),
        char_seq_lt(b, c),
    ensures
        char_seq_lt(a, c),
    decreases a.len(),
{
    if a.len() > 0 && b.len() > 0 && c.len() > 0 && a[0] == b[0] && b[0] == c[0] {
        lemma_char_seq_lt_transitive(a.drop_first(), b.drop_first(), c.drop_first());
    }
}

pub proof fn lemma_char_seq_lt_total(a: Seq<char>, b: Seq<char>)
    requires
        a != b,
    ensures
        char_seq_lt(a, b) || char_seq_lt(b, a),
    decreases a.len(),
{
    if a.len() > 0 && b.len() > 0 && a[0] == b[0] {
        if a.drop_first() == b.drop_first() {
            assert(a =~= seq![a[0]] + a.drop_first());
            assert(b =~= seq![b[0]] + b.drop_first());
        }
        lemma_char_seq_lt_total(a.drop_first(), b.drop_first());
    } else if a.len() == 0 && b.len() == 0 {
        assert(a =~= b);
    }
}

/// `<` on strings: lexicographic order of their characters, compared one by
/// one.
fn string_lt(a: &String, b: &String) -> (r: bool)
    ensures
        r == char_seq_lt(a@, b@),
{
    let sa = a.as_str();
    let sb = b.as_str();
    let la = sa.unicode_len();
    let lb = sb.unicode_len();
    let mut i: usize = 0;
    assert(a@.skip(0) =~= a@);
    assert(b@.skip(0) =~= b@);
    while i < la && i < lb
        invariant
            sa@ == a@,
            sb@ == b@,
            la == a@.len(),
            lb == b@.len(),
            i <= la,
            i <= lb,
            char_seq_lt(a@, b@) == char_seq_lt(a@.skip(i as int), b@.skip(i as int)),
        decreases la - i,
    {
        let ca = sa.get_char(i);
        let cb = sb.get_char(i);
        assert(a@.skip(i as int)[0] == ca);
        assert(b@.skip(i as int)[0] == cb);
        if ca < cb {
            return true;
        }
        if ca != cb {
            return false;
        }
        assert(a@.skip(i as int).drop_first() =~= a@.skip(i + 1));
        assert(b@.skip(i as int).drop_first() =~= b@.skip(i + 1));
        i = i + 1;
    }
    assert(a@.skip(i as int).len() == la - i);
    assert(b@.skip(i as int).len() == lb - i);
    i == la && i < lb
}

/// Keys strictly increasing.
pub open spec fn keys_sorted(keys: Seq<Seq<char>>) -> bool {
    forall|i: int, j: int| 0 <= i < j < keys.len() ==> char_seq_lt(keys[i], keys[j])
}

/// A map from node ids to envelope ids, kept sorted by node id so that it is
/// walked in the same order as an ordered map keyed by strings.
pub struct NodeMap {
    entries: Vec<(String, u128)>,
}

impl NodeMap {
    /// The node ids, in walking order.
    pub closed spec fn keys(&self) -> Seq<Seq<char>> {
        self.entries@.map_values(|e: (String, u128)| e.0@)
    }

    /// The envelope ids, aligned with `keys`.
    pub closed spec fn vals(&self) -> Seq<u128> {
        self.entries@.map_values(|e: (String, u128)| e.1)
    }

    pub closed spec fn wf(&self) -> bool {
        keys_sorted(self.keys())
    }

    pub open spec fn contains_key(&self, k: Seq<char>) -> bool {
        self.keys().contains(k)
    }

    /// The envelope id recorded for node `k`.
    pub open spec fn index_of(&self, k: Seq<char>) -> int {
        choose|i: int| 0 <= i < self.keys().len() && self.keys()[i] == k
    }

    pub open spec fn get_spec(&self, k: Seq<char>) -> Option<u128> {
        if self.contains_key(k) {
            Some(self.vals()[self.index_of(k)])
        } else {
            None
        }
    }

    pub proof fn lemma_len(&self)
        ensures
            self.keys().len() == self.vals().len(),
    {
    }

    /// In a sorted map every key occurs once, so its index is determined.
    pub proof fn lemma_index_unique(&self, i: int)
        requires
            self.wf(),
            0 <= i < self.keys().len(),
        ensures
            self.contains_key(self.keys()[i]),
            self.index_of(self.keys()[i]) == i,
            self.get_spec(self.keys()[i]) == Some(self.vals()[i]),
    {
        let k = self.keys()[i];
        assert(self.keys()[i] == k);
        let j = self.index_of(k);
        if j != i {
            if j < i {
                assert(char_seq_lt(self.keys()[j], self.keys()[i]));
            } else {
                assert(char_seq_lt(self.keys()[i], self.keys()[j]));
            }
            lemma_char_seq_lt_irreflexive(k);
        }
    }

    pub fn new() -> (m: Self)
        ensures
            m.wf(),
            m.keys() == Seq::<Seq<char>>::empty(),
    {
        let m = NodeMap { entries: Vec::new() };
        assert(m.keys() =~= Seq::<Seq<char>>::empty());
        m
    }

    pub fn len(&self) -> (n: usize)
        ensures
            n == self.keys().len(),
    {
        self.entries.len()
    }

    pub fn key_at(&self, i: usize) -> (k: &String)
        requires
            i < self.keys().len(),
        ensures
            k@ == self.keys()[i as int],
    {
        &self.entries[i].0
    }

    pub fn val_at(&self, i: usize) -> (v: u128)
        requires
            i < self.keys().len(),
        ensures
            v == self.vals()[i as int],
    {
        self.entries[i].1
    }

    /// The position at which `k` is, or would be inserted.
    fn find_pos(&self, k: &String) -> (p: usize)
        requires
            self.wf(),
        ensures
            p <= self.keys().len(),
            forall|i: int| 0 <= i < p ==> char_seq_lt(#[trigger] self.keys()[i], k@),
            p < self.keys().len() ==> !char_seq_lt(self.keys()[p as int], k@),
    {
        let mut p: usize = 0;
        while p < self.entries.len()
            invariant
                p <= self.keys().len(),
                self.keys().len() == self.entries@.len(),
                forall|i: int| 0 <= i < p ==> char_seq_lt(#[trigger] self.keys()[i], k@),
            decreases self.entries@.len() - p,
        {
            if !string_lt(&self.entries[p].0, k) {
                return p;
            }
            p = p + 1;
        }
        p
    }

    pub fn get(&self, k: &String) -> (r: Option<u128>)
        requires
            self.wf(),
        ensures
            r == self.get_spec(k@),
    {
        let p = self.find_pos(k);
        if p < self.entries.len() && self.entries[p].0 == *k {
            proof {
                self.lemma_index_unique(p as int);
            }
            Some(self.entries[p].1)
        } else {
            proof {
                if self.contains_key(k@) {
                    let j = choose|j: int| 0 <= j < self.keys().len() && self.keys()[j] == k@;
                    if j < p {
                        lemma_char_seq_lt_irreflexive(k@);
                    } else if j > p {
                        assert(char_seq_lt(self.keys()[p as int], self.keys()[j]));
                        lemma_char_seq_lt_total(self.keys()[p as int], k@);
                    }
                }
            }
            None
        }
    }

    pub fn contains(&self, k: &String) -> (r: bool)
        requires
            self.wf(),
        ensures
            r == self.contains_key(k@),
    {
        self.get(k).is_some()
    }

    /// Records `v` for node `k`, replacing what was there.
    pub fn insert(&mut self, k: String, v: u128)
        requires
            old(self).wf(),
        ensures
            final(self).wf(),
            final(self).contains_key(k@),
            final(self).get_spec(k@) == Some(v),
            forall|q: Seq<char>|
                q != k@ ==> #[trigger] final(self).get_spec(q) == old(self).get_spec(q),
            forall|q: Seq<char>|
                #[trigger] final(self).contains_key(q) <==> (q == k@ || old(self).contains_key(q)),
    {
        let p = self.find_pos(&k);
        let ghost old_keys = self.keys();
        let ghost old_vals = self.vals();
        let ghost old_self = *self;
        if p < self.entries.len() && self.entries[p].0 == k {
            self.entries.set(p, (k, v));
            proof {
                assert(self.keys() =~= old_keys.update(p as int, k@));
                assert(self.vals() =~= old_vals.update(p as int, v));
                assert(self.keys() =~= old_keys);
                self.lemma_index_unique(p as int);
                assert forall|q: Seq<char>| q != k@ implies #[trigger] self.get_spec(q)
                    == old_self.get_spec(q) by {
                    if self.contains_key(q) {
                        let j = choose|j: int| 0 <= j < self.keys().len() && self.keys()[j] == q;
                        self.lemma_index_unique(j);
                        old_self.lemma_index_unique(j);
                    }
                }
            }
        } else {
            let ghost kk = k@;
            self.entries.insert(p, (k, v));
            proof {
                assert(self.keys() =~= old_keys.insert(p as int, kk));
                assert(self.vals() =~= old_vals.insert(p as int, v));
                if p < old_keys.len() {
                    lemma_char_seq_lt_total(old_keys[p as int], kk);
                }
                assert forall|i: int, j: int|
                    0 <= i < j < self.keys().len() implies char_seq_lt(
                    self.keys()[i],
                    self.keys()[j],
                ) by {
                    if i < p && j == p {
                    } else if i < p && j > p {
                        assert(char_seq_lt(old_keys[i], kk));
                        if j - 1 > p {
                            assert(char_seq_lt(old_keys[p as int], old_keys[j - 1]));
                            lemma_char_seq_lt_transitive(kk, old_keys[p as int], old_keys[j - 1]);
                        }
                        lemma_char_seq_lt_transitive(old_keys[i], kk, old_keys[j - 1]);
                    } else if i == p {
                        if j - 1 > p {
                            assert(char_seq_lt(old_keys[p as int], old_keys[j - 1]));
                            lemma_char_seq_lt_transitive(kk, old_keys[p as int], old_keys[j - 1]);
                        }
                    } else if i > p {
                        assert(char_seq_lt(old_keys[i - 1], old_keys[j - 1]));
                    } else {
                        assert(char_seq_lt(old_keys[i], old_keys[j]));
                    }
                }
                assert(self.keys()[p as int] == kk);
                self.lemma_index_unique(p as int);
                assert forall|q: Seq<char>| #[trigger]
                    self.contains_key(q) <==> (q == kk || old_self.contains_key(q)) by {
                    if old_self.contains_key(q) {
                        let j = choose|j: int| 0 <= j < old_keys.len() && old_keys[j] == q;
                        if j < p {
                            assert(self.keys()[j] == q);
                        } else {
                            assert(self.keys()[j + 1] == q);
                        }
                    }
                    if self.contains_key(q) && q != kk {
                        let j = choose|j: int| 0 <= j < self.keys().len() && self.keys()[j] == q;
                        if j < p {
                            assert(old_keys[j] == q);
                        } else if j > p {
                            assert(old_keys[j - 1] == q);
                        }
                    }
                }
                assert forall|q: Seq<char>| q != kk implies #[trigger] self.get_spec(q)
                    == old_self.get_spec(q) by {
                    if old_self.contains_key(q) {
                        let j = choose|j: int| 0 <= j < old_keys.len() && old_keys[j] == q;
                        old_self.lemma_index_unique(j);
                        if j < p {
                            self.lemma_index_unique(j);
                        } else {
                            self.lemma_index_unique(j + 1);
                        }
                    }
                }
            }
        }
    }
}

} // verus!

verus! {

/// A set of node ids, walked in increasing order.
pub struct NodeSet {
    map: NodeMap,
}

impl NodeSet {
    /// The members in walking order.
    pub closed spec fn keys(&self) -> Seq<Seq<char>> {
        self.map.keys()
    }

    pub closed spec fn wf(&self) -> bool {
        self.map.wf()
    }

    pub open spec fn contains_spec(&self, k: Seq<char>) -> bool {
        self.keys().contains(k)
    }

    pub fn new() -> (s: Self)
        ensures
            s.wf(),
            s.keys() == Seq::<Seq<char>>::empty(),
    {
        NodeSet { map: NodeMap::new() }
    }

    pub fn len(&self) -> (n: usize)
        ensures
            n == self.keys().len(),
    {
        self.map.len()
    }

    pub fn at(&self, i: usize) -> (k: &String)
        requires
            i < self.keys().len(),
        ensures
            k@ == self.keys()[i as int],
    {
        self.map.key_at(i)
    }

    pub fn contains(&self, k: &String) -> (r: bool)
        requires
            self.wf(),
        ensures
            r == self.contains_spec(k@),
    {
        self.map.contains(k)
    }

    pub fn insert(&mut self, k: String)
        requires
            old(self).wf(),
        ensures
            final(self).wf(),
            forall|q: Seq<char>|
                #[trigger] final(self).contains_spec(q) <==> (q == k@ || old(self).contains_spec(q)),
    {
        self.map.insert(k, 0);
        assert forall|q: Seq<char>| #[trigger] self.contains_spec(q) <==> (q == k@ || old(self).contains_spec(q)) by {
            assert(self.contains_spec(q) == self.map.contains_key(q));
            assert(old(self).contains_spec(q) == old(self).map.contains_key(q));
        }
    }
}

} // verus!
