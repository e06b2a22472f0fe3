use vstd::prelude::*;

verus! {

pub open spec fn strictly_increasing(s: Seq<u64>) -> bool {
    forall|i: int, j: int| 0 <= i < j < s.len() ==> s[i] < s[j]
}

/// A set of nomination values, walked in increasing order.
pub struct ValueSet {
    vals: Vec<u64>,
}

impl View for ValueSet {
    type V = Set<u64>;

    open spec fn view(&self) -> Set<u64> {
        self.seq().to_set()
    }
}

impl ValueSet {
    /// The members in increasing order.
    pub closed spec fn seq(&self) -> Seq<u64> {
        self.vals@
    }

    pub closed spec fn wf(&self) -> bool {
        strictly_increasing(self.vals@)
    }

    /// The members are walked in increasing order.
    pub proof fn lemma_wf_increasing(&self)
        requires
            self.wf(),
        ensures
            strictly_increasing(self.seq()),
    {
    }

    pub proof fn lemma_seq_contains(&self, x: u64)
        ensures
            self@.contains(x) <==> self.seq().contains(x),
    {
    }

    pub fn new() -> (s: Self)
        ensures
            s.wf(),
            s.seq() == Seq::<u64>::empty(),
            s@ == Set::<u64>::empty(),
    {
        let s = ValueSet { vals: Vec::new() };
        assert(s@ =~= Set::<u64>::empty());
        s
    }

    pub fn len(&self) -> (n: usize)
        ensures
            n == self.seq().len(),
    {
        self.vals.len()
    }

    pub fn is_empty(&self) -> (r: bool)
        ensures
            r == (self.seq().len() == 0),
            r == (self@ == Set::<u64>::empty()),
    {
        proof {
            if self.seq().len() > 0 {
                assert(self@.contains(self.seq()[0]));
            } else {
                assert(self@ =~= Set::<u64>::empty());
            }
        }
        self.vals.len() == 0
    }

    pub fn at(&self, i: usize) -> (x: u64)
        requires
            i < self.seq().len(),
        ensures
            x == self.seq()[i as int],
    {
        self.vals[i]
    }

    /// The position at which `x` is, or would be inserted.
    fn find_pos(&self, x: u64) -> (p: usize)
        requires
            self.wf(),
        ensures
            p <= self.seq().len(),
            forall|i: int| 0 <= i < p ==> #[trigger] self.seq()[i] < x,
            p < self.seq().len() ==> self.seq()[p as int] >= x,
    {
        let mut p: usize = 0;
        while p < self.vals.len()
            invariant
                p <= self.vals@.len(),
                forall|i: int| 0 <= i < p ==> #[trigger] self.vals@[i] < x,
            decreases self.vals@.len() - p,
        {
            if self.vals[p] >= x {
                return p;
            }
            p = p + 1;
        }
        p
    }

    pub fn contains(&self, x: u64) -> (r: bool)
        requires
            self.wf(),
        ensures
            r == self@.contains(x),
    {
        let p = self.find_pos(x);
        let r = p < self.vals.len() && self.vals[p] == x;
        proof {
            if !r && self.seq().contains(x) {
                let j = choose|j: int| 0 <= j < self.seq().len() && self.seq()[j] == x;
                if j > p {
                    assert(self.seq()[p as int] < self.seq()[j]);
                }
            }
        }
        r
    }

    /// Adds `x`; returns whether it was new.
    pub fn insert(&mut self, x: u64) -> (r: bool)
        requires
            old(self).wf(),
        ensures
            final(self).wf(),
            final(self)@ == old(self)@.insert(x),
            r == !old(self)@.contains(x),
    {
        let p = self.find_pos(x);
        let ghost old_seq = self.seq();
        if p < self.vals.len() && self.vals[p] == x {
            proof {
                assert(old_seq.contains(x));
                assert(self@ =~= old_seq.to_set().insert(x));
            }
            false
        } else {
            self.vals.insert(p, x);
            proof {
                assert(self.seq() =~= old_seq.insert(p as int, x));
                if old_seq.contains(x) {
                    let j = choose|j: int| 0 <= j < old_seq.len() && old_seq[j] == x;
                    if j > p {
                        assert(old_seq[p as int] < old_seq[j]);
                    }
                }
                assert forall|y: u64| self@.contains(y) <==> old_seq.to_set().insert(x).contains(
                    y,
                ) by {
                    if old_seq.contains(y) {
                        let j = choose|j: int| 0 <= j < old_seq.len() && old_seq[j] == y;
                        if j < p {
                            assert(self.seq()[j] == y);
                        } else {
                            assert(self.seq()[j + 1] == y);
                        }
                    }
                    if self.seq().contains(y) && y != x {
                        let j = choose|j: int| 0 <= j < self.seq().len() && self.seq()[j] == y;
                        if j < p {
                            assert(old_seq[j] == y);
                        } else if j > p {
                            assert(old_seq[j - 1] == y);
                        }
                    }
                    assert(self.seq()[p as int] == x);
                }
                assert(self@ =~= old_seq.to_set().insert(x));
            }
            true
        }
    }

    /// The members, in increasing order.
    pub fn to_vec(&self) -> (v: Vec<u64>)
        ensures
            v@ == self.seq(),
    {
        let mut v: Vec<u64> = Vec::new();
        let mut i: usize = 0;
        while i < self.vals.len()
            invariant
                i <= self.vals@.len(),
                v@ == self.vals@.subrange(0, i as int),
            decreases self.vals@.len() - i,
        {
            v.push(self.vals[i]);
            i = i + 1;
            assert(v@ =~= self.vals@.subrange(0, i as int));
        }
        assert(self.vals@.subrange(0, i as int) =~= self.vals@);
        v
    }

    pub fn clone_set(&self) -> (r: Self)
        requires
            self.wf(),
        ensures
            r.wf(),
            r.seq() == self.seq(),
            r@ == self@,
    {
        ValueSet { vals: self.to_vec() }
    }
}

} // verus!

verus! {

/// Adds every value of `vals` to `set`.
pub fn insert_all(set: &mut ValueSet, vals: &Vec<u64>)
    requires
        old(set).wf(),
    ensures
        final(set).wf(),
        final(set)@ == old(set)@ + vals@.to_set(),
{
    let ghost start = set@;
    let mut i: usize = 0;
    while i < vals.len()
        invariant
            i <= vals@.len(),
            set.wf(),
            set@ == start + vals@.subrange(0, i as int).to_set(),
        decreases vals@.len() - i,
    {
        set.insert(vals[i]);
        proof {
            let pre = vals@.subrange(0, i as int);
            let post = vals@.subrange(0, i + 1);
            assert(post =~= pre.push(vals@[i as int]));
            assert forall|x: u64| post.to_set().contains(x) <==> (pre.to_set().contains(x) || x
                == vals@[i as int]) by {
                if post.contains(x) {
                    let k = choose|k: int| 0 <= k < post.len() && post[k] == x;
                    if k < i {
                        assert(pre[k] == x);
                    }
                }
                if pre.contains(x) {
                    let k = choose|k: int| 0 <= k < pre.len() && pre[k] == x;
                    assert(post[k] == x);
                }
                if x == vals@[i as int] {
                    assert(post[i as int] == x);
                }
            }
            assert(set@ =~= start + post.to_set());
        }
        i = i + 1;
    }
    assert(vals@.subrange(0, i as int) =~= vals@);
}

} // verus!
