use vstd::prelude::*;

verus! {

/// The count recorded for `k` in `m`; a key that is absent counts as zero.
pub open spec fn count_of(m: Map<Seq<char>, nat>, k: Seq<char>) -> nat {
    if m.contains_key(k) {
        m[k]
    } else {
        0
    }
}

/// `m` after one more request from `k`.
pub open spec fn bump(m: Map<Seq<char>, nat>, k: Seq<char>) -> Map<Seq<char>, nat> {
    m.insert(k, count_of(m, k) + 1)
}

/// The table `m` after one request from each key of `keys`, in order.
pub open spec fn counts_after(m: Map<Seq<char>, nat>, keys: Seq<Seq<char>>) -> Map<
    Seq<char>,
    nat,
>
    decreases keys.len(),
{
    if keys.len() == 0 {
        m
    } else {
        bump(counts_after(m, keys.drop_last()), keys.last())
    }
}

/// How many times `k` occurs in `keys`.
pub open spec fn occurrences(keys: Seq<Seq<char>>, k: Seq<char>) -> nat
    decreases keys.len(),
{
    if keys.len() == 0 {
        0
    } else {
        occurrences(keys.drop_last(), k) + if keys.last() == k {
            1nat
        } else {
            0nat
        }
    }
}

/// No update is lost: whatever the order in which increments on any mix of keys
/// are applied, each key's count grows by exactly the number of increments
/// issued for that key.
pub proof fn lemma_count_is_occurrences(m: Map<Seq<char>, nat>, keys: Seq<Seq<char>>, k: Seq<char>)
    ensures
        count_of(counts_after(m, keys), k) == count_of(m, k) + occurrences(keys, k),
    decreases keys.len(),
{
    if keys.len() > 0 {
        lemma_count_is_occurrences(m, keys.drop_last(), k);
    }
}

/// One increment adds exactly one to its own key and leaves every other key
/// as it was.
pub proof fn lemma_bump_adds_one(m: Map<Seq<char>, nat>, k: Seq<char>, j: Seq<char>)
    ensures
        count_of(bump(m, k), j) == count_of(m, j) + if j == k {
            1nat
        } else {
            0nat
        },
{
}

/// `n` increments of one key, starting from an empty table, leave that key at
/// exactly `n`.
pub proof fn lemma_repeated_key(k: Seq<char>, n: nat)
    ensures
        count_of(counts_after(Map::empty(), Seq::new(n, |i: int| k)), k) == n,
    decreases n,
{
    let keys = Seq::new(n, |i: int| k);
    lemma_count_is_occurrences(Map::empty(), keys, k);
    lemma_occurrences_of_repeated(k, n);
}

proof fn lemma_occurrences_of_repeated(k: Seq<char>, n: nat)
    ensures
        occurrences(Seq::new(n, |i: int| k), k) == n,
    decreases n,
{
    if n > 0 {
        let keys = Seq::new(n, |i: int| k);
        assert(keys.drop_last() =~= Seq::new((n - 1) as nat, |i: int| k));
        lemma_occurrences_of_repeated(k, (n - 1) as nat);
    }
}

/// A key that was never incremented, starting from an empty table, counts zero.
pub proof fn lemma_untouched_key(keys: Seq<Seq<char>>, k: Seq<char>)
    requires
        !keys.contains(k),
    ensures
        count_of(counts_after(Map::empty(), keys), k) == 0,
{
    lemma_count_is_occurrences(Map::empty(), keys, k);
    lemma_no_occurrences(keys, k);
}

proof fn lemma_no_occurrences(keys: Seq<Seq<char>>, k: Seq<char>)
    requires
        !keys.contains(k),
    ensures
        occurrences(keys, k) == 0,
    decreases keys.len(),
{
    if keys.len() > 0 {
        assert forall|i: int| 0 <= i < keys.drop_last().len() implies keys.drop_last()[i] != k by {
            assert(keys[i] == keys.drop_last()[i]);
        }
        assert(keys.last() == keys[keys.len() - 1]);
        lemma_no_occurrences(keys.drop_last(), k);
    }
}

/// A table from client identity to the number of requests seen from it.
pub struct Counters {
    keys: Vec<String>,
    values: Vec<u64>,
    model: Ghost<Map<Seq<char>, nat>>,
}

impl View for Counters {
    type V = Map<Seq<char>, nat>;

    closed spec fn view(&self) -> Map<Seq<char>, nat> {
        self.model@
    }
}

impl Counters {
    /// Keys are unique, each key's slot holds its count in the model, and the
    /// model holds no key that the table lacks.
    pub closed spec fn wf(&self) -> bool {
        &&& self.keys.len() == self.values.len()
        &&& forall|i: int, j: int|
            0 <= i < j < self.keys.len() ==> self.keys[i]@ != self.keys[j]@
        &&& forall|i: int|
            0 <= i < self.keys.len() ==> {
                &&& #[trigger] self.model@.contains_key(self.keys[i]@)
                &&& self.model@[self.keys[i]@] == self.values[i] as nat
            }
        &&& forall|k: Seq<char>|
            #[trigger] self.model@.contains_key(k) ==> exists|i: int|
                0 <= i < self.keys.len() && self.keys[i]@ == k
    }

    /// An empty table.
    pub fn new() -> (r: Counters)
        ensures
            r.wf(),
            r@ == Map::<Seq<char>, nat>::empty(),
    {
        Counters { keys: Vec::new(), values: Vec::new(), model: Ghost(Map::empty()) }
    }

    /// Position of `key` in the table, if it is there.
    fn find(&self, key: &str) -> (r: Option<usize>)
        requires
            self.wf(),
        ensures
            match r {
                Some(i) => i < self.keys.len() && self.keys[i as int]@ == key@,
                None => !self@.contains_key(key@),
            },
    {
        let wanted = key.to_owned();
        let mut i: usize = 0;
        while i < self.keys.len()
            invariant
                self.wf(),
                wanted@ == key@,
                i <= self.keys.len(),
                forall|j: int| 0 <= j < i ==> self.keys[j]@ != key@,
            decreases self.keys.len() - i,
        {
            if self.keys[i] == wanted {
                return Some(i);
            }
            i = i + 1;
        }
        None
    }

    /// Records one more request from `key`: an absent key enters with count 1.
    pub fn increase(&mut self, key: &str)
        requires
            old(self).wf(),
            count_of(old(self)@, key@) < u64::MAX,
        ensures
            final(self).wf(),
            final(self)@ == bump(old(self)@, key@),
    {
        match self.find(key) {
            Some(i) => {
                let c = self.values[i];
                self.values.set(i, c + 1);
                self.model = Ghost(bump(self.model@, key@));
                assert forall|k: Seq<char>| #[trigger] self.model@.contains_key(k) implies exists|j: int|
                    0 <= j < self.keys.len() && self.keys[j]@ == k by {
                    if k != key@ {
                        assert(old(self).model@.contains_key(k));
                        let j = choose|j: int| 0 <= j < old(self).keys.len() && old(self).keys[j]@ == k;
                        assert(self.keys[j]@ == k);
                    } else {
                        assert(self.keys[i as int]@ == k);
                    }
                }
            },
            None => {
                self.keys.push(key.to_owned());
                self.values.push(1);
                self.model = Ghost(bump(self.model@, key@));
                let ghost last = self.keys.len() - 1;
                assert(self.keys[last]@ == key@);
                assert forall|k: Seq<char>| #[trigger] self.model@.contains_key(k) implies exists|j: int|
                    0 <= j < self.keys.len() && self.keys[j]@ == k by {
                    if k != key@ {
                        assert(old(self).model@.contains_key(k));
                        let j = choose|j: int| 0 <= j < old(self).keys.len() && old(self).keys[j]@ == k;
                        assert(self.keys[j]@ == k);
                    } else {
                        assert(self.keys[last]@ == k);
                    }
                }
            },
        }
    }

    /// The count recorded for `key`, zero where it has none.
    pub fn get(&self, key: &str) -> (r: u64)
        requires
            self.wf(),
        ensures
            r == count_of(self@, key@),
    {
        match self.find(key) {
            Some(i) => self.values[i],
            None => 0,
        }
    }
}

} // verus!
