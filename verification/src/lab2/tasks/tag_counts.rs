use vstd::prelude::*;

verus! {

/// The count of `k` in `m`, zero when `k` is absent.
pub open spec fn count_of(m: Map<Seq<char>, nat>, k: Seq<char>) -> nat {
    if m.dom().contains(k) {
        m[k]
    } else {
        0
    }
}

/// The counts of two tallies added key by key.
pub open spec fn merge_spec(a: Map<Seq<char>, nat>, b: Map<Seq<char>, nat>) -> Map<Seq<char>, nat> {
    Map::new(
        |k: Seq<char>| a.dom().contains(k) || b.dom().contains(k),
        |k: Seq<char>| count_of(a, k) + count_of(b, k),
    )
}

/// `m` with the count of `k` raised by one.
pub open spec fn add_one_spec(m: Map<Seq<char>, nat>, k: Seq<char>) -> Map<Seq<char>, nat> {
    m.insert(k, count_of(m, k) + 1)
}

/// The empty tally is the identity of `merge_spec`.
pub proof fn lemma_merge_identity(a: Map<Seq<char>, nat>)
    ensures
        merge_spec(a, Map::empty()) == a,
        merge_spec(Map::empty(), a) == a,
{
    assert(merge_spec(a, Map::empty()) =~= a);
    assert(merge_spec(Map::empty(), a) =~= a);
}

/// `merge_spec` is commutative.
pub proof fn lemma_merge_commutative(a: Map<Seq<char>, nat>, b: Map<Seq<char>, nat>)
    ensures
        merge_spec(a, b) == merge_spec(b, a),
{
    assert(merge_spec(a, b) =~= merge_spec(b, a));
}

/// `merge_spec` is associative.
pub proof fn lemma_merge_associative(
    a: Map<Seq<char>, nat>,
    b: Map<Seq<char>, nat>,
    c: Map<Seq<char>, nat>,
)
    ensures
        merge_spec(merge_spec(a, b), c) == merge_spec(a, merge_spec(b, c)),
{
    assert(merge_spec(merge_spec(a, b), c) =~= merge_spec(a, merge_spec(b, c)));
}

/// The tally that a sequence of entries stands for; later entries win for a repeated key.
pub open spec fn entries_map(s: Seq<(String, usize)>) -> Map<Seq<char>, nat>
    decreases s.len(),
{
    if s.len() == 0 {
        Map::empty()
    } else {
        entries_map(s.drop_last()).insert(s.last().0@, s.last().1 as nat)
    }
}

/// No key occurs twice.
pub open spec fn distinct_keys(s: Seq<(String, usize)>) -> bool {
    forall|i: int, j: int| 0 <= i < s.len() && 0 <= j < s.len() && i != j ==> #[trigger] s[i].0@
        != #[trigger] s[j].0@
}

proof fn lemma_entries_dom(s: Seq<(String, usize)>, k: Seq<char>)
    ensures
        entries_map(s).dom().contains(k) <==> exists|i: int| 0 <= i < s.len() && #[trigger] s[i].0@ == k,
    decreases s.len(),
{
    if s.len() > 0 {
        lemma_entries_dom(s.drop_last(), k);
        if entries_map(s.drop_last()).dom().contains(k) {
            let i = choose|i: int| 0 <= i < s.drop_last().len() && #[trigger] s.drop_last()[i].0@ == k;
            assert(s[i].0@ == k);
        }
        if exists|i: int| 0 <= i < s.len() && #[trigger] s[i].0@ == k {
            let i = choose|i: int| 0 <= i < s.len() && #[trigger] s[i].0@ == k;
            if i < s.len() - 1 {
                assert(s.drop_last()[i].0@ == k);
            }
        }
    }
}

proof fn lemma_entries_lookup(s: Seq<(String, usize)>, i: int)
    requires
        distinct_keys(s),
        0 <= i < s.len(),
    ensures
        entries_map(s).dom().contains(s[i].0@),
        entries_map(s)[s[i].0@] == s[i].1 as nat,
    decreases s.len(),
{
    if i < s.len() - 1 {
        assert(distinct_keys(s.drop_last()));
        assert(s.drop_last()[i] == s[i]);
        lemma_entries_lookup(s.drop_last(), i);
        assert(s.last().0@ != s[i].0@);
    }
}

proof fn lemma_entries_update(s: Seq<(String, usize)>, i: int, v: usize)
    requires
        distinct_keys(s),
        0 <= i < s.len(),
    ensures
        entries_map(s.update(i, (s[i].0, v))) == entries_map(s).insert(s[i].0@, v as nat),
        distinct_keys(s.update(i, (s[i].0, v))),
    decreases s.len(),
{
    let t = s.update(i, (s[i].0, v));
    if i == s.len() - 1 {
        assert(t.drop_last() =~= s.drop_last());
        assert(entries_map(t) =~= entries_map(s).insert(s[i].0@, v as nat));
    } else {
        assert(t.drop_last() =~= s.drop_last().update(i, (s[i].0, v)));
        assert(distinct_keys(s.drop_last()));
        lemma_entries_update(s.drop_last(), i, v);
        assert(s.last().0@ != s[i].0@);
        assert(entries_map(t) =~= entries_map(s).insert(s[i].0@, v as nat));
    }
    assert(distinct_keys(t)) by {
        assert forall|a: int, b: int| 0 <= a < t.len() && 0 <= b < t.len() && a != b implies #[trigger] t[a].0@
            != #[trigger] t[b].0@ by {
            assert(t[a].0@ == s[a].0@);
            assert(t[b].0@ == s[b].0@);
        }
    }
}

proof fn lemma_entries_len(s: Seq<(String, usize)>)
    requires
        distinct_keys(s),
    ensures
        entries_map(s).dom().finite(),
        entries_map(s).dom().len() == s.len(),
    decreases s.len(),
{
    if s.len() > 0 {
        assert(distinct_keys(s.drop_last()));
        lemma_entries_len(s.drop_last());
        lemma_entries_dom(s.drop_last(), s.last().0@);
        if entries_map(s.drop_last()).dom().contains(s.last().0@) {
            let i = choose|i: int| 0 <= i < s.drop_last().len() && #[trigger] s.drop_last()[i].0@
                == s.last().0@;
            assert(s[i].0@ == s[s.len() - 1].0@);
        }
    }
}

/// A tally of tag names: how often each name occurs.
pub struct TagCounts {
    entries: Vec<(String, usize)>,
}

impl View for TagCounts {
    type V = Map<Seq<char>, nat>;

    closed spec fn view(&self) -> Map<Seq<char>, nat> {
        entries_map(self.entries@)
    }
}

impl TagCounts {
    #[verifier::type_invariant]
    spec fn distinct(self) -> bool {
        distinct_keys(self.entries@)
    }

    /// The empty tally.
    pub fn new() -> (r: Self)
        ensures
            r@ == Map::<Seq<char>, nat>::empty(),
    {
        TagCounts { entries: Vec::new() }
    }

    /// The number of distinct names.
    pub fn len(&self) -> (r: usize)
        ensures
            self@.dom().finite(),
            r == self@.dom().len(),
    {
        proof {
            use_type_invariant(self);
            lemma_entries_len(self.entries@);
        }
        self.entries.len()
    }

    /// The count of `key`, zero when absent.
    pub fn get(&self, key: &String) -> (r: usize)
        ensures
            r == count_of(self@, key@),
    {
        proof {
            use_type_invariant(self);
        }
        match self.position(key) {
            Some(i) => {
                proof {
                    lemma_entries_lookup(self.entries@, i as int);
                }
                self.entries[i].1
            },
            None => 0,
        }
    }

    fn position(&self, key: &String) -> (r: Option<usize>)
        ensures
            match r {
                Some(i) => i < self.entries@.len() && self.entries@[i as int].0@ == key@,
                None => !self@.dom().contains(key@),
            },
    {
        let mut i: usize = 0;
        while i < self.entries.len()
            invariant
                i <= self.entries@.len(),
                forall|j: int| 0 <= j < i ==> self.entries@[j].0@ != key@,
            decreases self.entries@.len() - i,
        {
            if self.entries[i].0 == *key {
                return Some(i);
            }
            i = i + 1;
        }
        proof {
            lemma_entries_dom(self.entries@, key@);
        }
        None
    }

    /// Adds `amount` to the count of `key`.
    pub fn add(&mut self, key: String, amount: usize)
        requires
            count_of(old(self)@, key@) + amount <= usize::MAX,
        ensures
            final(self)@ == old(self)@.insert(key@, count_of(old(self)@, key@) + amount as nat),
    {
        proof {
            use_type_invariant(&*self);
        }
        match self.position(&key) {
            Some(i) => {
                proof {
                    lemma_entries_lookup(self.entries@, i as int);
                    lemma_entries_update(self.entries@, i as int, (self.entries@[i as int].1 + amount) as usize);
                }
                let entry_key = self.entries[i].0.clone();
                let value = self.entries[i].1 + amount;
                let mut entries = Vec::new();
                std::mem::swap(&mut entries, &mut self.entries);
                entries.set(i, (entry_key, value));
                self.entries = entries;
            },
            None => {
                let mut entries = Vec::new();
                std::mem::swap(&mut entries, &mut self.entries);
                proof {
                    lemma_entries_dom(entries@, key@);
                }
                entries.push((key, amount));
                assert(distinct_keys(entries@)) by {
                    assert forall|a: int, b: int|
                        0 <= a < entries@.len() && 0 <= b < entries@.len() && a != b implies #[trigger] entries@[a].0@
                        != #[trigger] entries@[b].0@ by {
                        if a == entries@.len() - 1 {
                            assert(!(exists|i: int| 0 <= i < entries@.len() - 1 && #[trigger] entries@.drop_last()[i].0@ == key@));
                            assert(entries@.drop_last()[b] == entries@[b]);
                        } else if b == entries@.len() - 1 {
                            assert(entries@.drop_last()[a] == entries@[a]);
                        }
                    }
                }
                assert(entries@.drop_last() =~= old(self).entries@);
                self.entries = entries;
            },
        }
    }

    /// The tally of both: the counts added name by name.
    pub fn merge(self, other: Self) -> (r: Self)
        requires
            forall|k: Seq<char>| count_of(self@, k) + count_of(other@, k) <= usize::MAX,
        ensures
            r@ == merge_spec(self@, other@),
    {
        proof {
            use_type_invariant(&self);
            use_type_invariant(&other);
        }
        let ghost a0 = self@;
        let ghost b0 = other@;
        let mut acc = self;
        let mut rest = other.entries;
        proof {
            lemma_merge_identity(a0);
        }
        while rest.len() > 0
            invariant
                distinct_keys(rest@),
                merge_spec(acc@, entries_map(rest@)) == merge_spec(a0, b0),
                forall|k: Seq<char>| count_of(a0, k) + count_of(b0, k) <= usize::MAX,
                forall|k: Seq<char>|
                    count_of(acc@, k) + count_of(entries_map(rest@), k) == count_of(a0, k) + count_of(
                        b0,
                        k,
                    ),
            decreases rest@.len(),
        {
            let ghost before = rest@;
            let (key, amount) = rest.pop().unwrap();
            proof {
                assert(rest@ =~= before.drop_last());
                assert(distinct_keys(rest@));
                lemma_entries_dom(rest@, key@);
                if entries_map(rest@).dom().contains(key@) {
                    let i = choose|i: int| 0 <= i < rest@.len() && #[trigger] rest@[i].0@ == key@;
                    assert(before[i].0@ == before[before.len() - 1].0@);
                }
                assert(count_of(entries_map(before), key@) == amount);
                assert(count_of(acc@, key@) + amount == count_of(a0, key@) + count_of(b0, key@));
            }
            let ghost acc_before = acc@;
            acc.add(key, amount);
            proof {
                assert forall|k: Seq<char>|
                    count_of(acc@, k) + count_of(entries_map(rest@), k) == count_of(a0, k) + count_of(
                        b0,
                        k,
                    ) by {
                    if k != key@ {
                        assert(count_of(entries_map(before), k) == count_of(entries_map(rest@), k));
                    }
                }
                assert(merge_spec(acc@, entries_map(rest@)) =~= merge_spec(acc_before, entries_map(before)));
            }
        }
        proof {
            assert(entries_map(rest@) =~= Map::<Seq<char>, nat>::empty());
            lemma_merge_identity(acc@);
        }
        acc
    }
}

} // verus!
