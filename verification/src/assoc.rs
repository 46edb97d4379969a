use vstd::prelude::*;

verus! {

/// The map that a list of `(key, value)` entries denotes: a later entry for a
/// key overrides an earlier one (with distinct keys there is nothing to override).
pub open spec fn entries_map<V>(entries: Seq<(String, V)>) -> Map<Seq<char>, V>
    decreases entries.len(),
{
    if entries.len() == 0 {
        Map::empty()
    } else {
        entries_map(entries.drop_last()).insert(entries.last().0@, entries.last().1)
    }
}

/// No key occurs twice among the entries.
pub open spec fn distinct_keys<V>(entries: Seq<(String, V)>) -> bool {
    forall|i: int, j: int|
        0 <= i < entries.len() && 0 <= j < entries.len() && i != j ==> entries[i].0@
            != entries[j].0@
}

pub proof fn lemma_entries_map_domain<V>(entries: Seq<(String, V)>, key: Seq<char>)
    ensures
        entries_map(entries).contains_key(key) <==> exists|i: int|
            0 <= i < entries.len() && entries[i].0@ == key,
    decreases entries.len(),
{
    if entries.len() > 0 {
        let init = entries.drop_last();
        lemma_entries_map_domain(init, key);
        if entries_map(init).contains_key(key) {
            let i = choose|i: int| 0 <= i < init.len() && init[i].0@ == key;
            assert(entries[i].0@ == key);
        }
        if exists|i: int| 0 <= i < entries.len() && entries[i].0@ == key {
            let i = choose|i: int| 0 <= i < entries.len() && entries[i].0@ == key;
            if i < init.len() {
                assert(init[i].0@ == key);
            }
        }
    }
}

pub proof fn lemma_entries_map_value<V>(entries: Seq<(String, V)>, i: int)
    requires
        distinct_keys(entries),
        0 <= i < entries.len(),
    ensures
        entries_map(entries).contains_key(entries[i].0@),
        entries_map(entries)[entries[i].0@] == entries[i].1,
    decreases entries.len(),
{
    let init = entries.drop_last();
    if i < entries.len() - 1 {
        assert(distinct_keys(init));
        lemma_entries_map_value(init, i);
        assert(init[i] == entries[i]);
    }
}

pub proof fn lemma_entries_map_push<V>(entries: Seq<(String, V)>, key: String, value: V)
    ensures
        entries_map(entries.push((key, value))) == entries_map(entries).insert(key@, value),
{
    assert(entries.push((key, value)).drop_last() =~= entries);
}

pub proof fn lemma_entries_map_remove<V>(entries: Seq<(String, V)>, i: int)
    requires
        distinct_keys(entries),
        0 <= i < entries.len(),
    ensures
        distinct_keys(entries.remove(i)),
        entries_map(entries.remove(i)) =~= entries_map(entries).remove(entries[i].0@),
{
    let rest = entries.remove(i);
    let key = entries[i].0@;
    assert forall|a: int, b: int|
        0 <= a < rest.len() && 0 <= b < rest.len() && a != b implies rest[a].0@ != rest[b].0@ by {
        let ia = if a < i { a } else { a + 1 };
        let ib = if b < i { b } else { b + 1 };
        assert(rest[a] == entries[ia]);
        assert(rest[b] == entries[ib]);
    }
    assert forall|k: Seq<char>|
        #![trigger entries_map(rest).contains_key(k)]
        entries_map(rest).contains_key(k) <==> entries_map(entries).remove(key).contains_key(k) by {
        lemma_entries_map_domain(rest, k);
        lemma_entries_map_domain(entries, k);
        if entries_map(rest).contains_key(k) {
            let a = choose|a: int| 0 <= a < rest.len() && rest[a].0@ == k;
            let ia = if a < i { a } else { a + 1 };
            assert(rest[a] == entries[ia]);
        }
        if entries_map(entries).remove(key).contains_key(k) {
            let a = choose|a: int| 0 <= a < entries.len() && entries[a].0@ == k;
            assert(a != i);
            let ra = if a < i { a } else { a - 1 };
            assert(rest[ra] == entries[a]);
        }
    }
    assert forall|k: Seq<char>| #[trigger]
        entries_map(rest).contains_key(k) implies entries_map(rest)[k] == entries_map(
        entries,
    )[k] by {
        lemma_entries_map_domain(rest, k);
        let a = choose|a: int| 0 <= a < rest.len() && rest[a].0@ == k;
        let ia = if a < i { a } else { a + 1 };
        assert(rest[a] == entries[ia]);
        lemma_entries_map_value(rest, a);
        lemma_entries_map_value(entries, ia);
    }
}

pub proof fn lemma_entries_map_update<V>(entries: Seq<(String, V)>, i: int, value: V)
    requires
        distinct_keys(entries),
        0 <= i < entries.len(),
    ensures
        distinct_keys(entries.update(i, (entries[i].0, value))),
        entries_map(entries.update(i, (entries[i].0, value))) =~= entries_map(entries).insert(
            entries[i].0@,
            value,
        ),
{
    let next = entries.update(i, (entries[i].0, value));
    let key = entries[i].0@;
    assert forall|a: int, b: int|
        0 <= a < next.len() && 0 <= b < next.len() && a != b implies next[a].0@ != next[b].0@ by {
        assert(next[a].0@ == entries[a].0@);
        assert(next[b].0@ == entries[b].0@);
    }
    assert forall|k: Seq<char>|
        #![trigger entries_map(next).contains_key(k)]
        entries_map(next).contains_key(k) <==> entries_map(entries).insert(key, value).contains_key(
            k,
        ) by {
        lemma_entries_map_domain(next, k);
        lemma_entries_map_domain(entries, k);
        if entries_map(next).contains_key(k) {
            let a = choose|a: int| 0 <= a < next.len() && next[a].0@ == k;
            assert(entries[a].0@ == k);
        }
        if entries_map(entries).contains_key(k) {
            let a = choose|a: int| 0 <= a < entries.len() && entries[a].0@ == k;
            assert(next[a].0@ == k);
        }
        if k == key {
            assert(next[i].0@ == k);
        }
    }
    assert forall|k: Seq<char>| #[trigger]
        entries_map(next).contains_key(k) implies entries_map(next)[k] == entries_map(
        entries,
    ).insert(key, value)[k] by {
        lemma_entries_map_domain(next, k);
        let a = choose|a: int| 0 <= a < next.len() && next[a].0@ == k;
        lemma_entries_map_value(next, a);
        if a != i {
            lemma_entries_map_value(entries, a);
        }
    }
}

/// A map from strings to values, kept as a list of entries with distinct keys.
pub struct StrMap<V> {
    entries: Vec<(String, V)>,
}

impl<V> View for StrMap<V> {
    type V = Map<Seq<char>, V>;

    closed spec fn view(&self) -> Map<Seq<char>, V> {
        entries_map(self.entries@)
    }
}

impl<V> StrMap<V> {
    #[verifier::type_invariant]
    closed spec fn keys_are_distinct(&self) -> bool {
        distinct_keys(self.entries@)
    }

    /// The entries in the order in which they are kept.
    pub closed spec fn entry_seq(&self) -> Seq<(String, V)> {
        self.entries@
    }

    pub fn new() -> (r: Self)
        ensures
            r@ == Map::<Seq<char>, V>::empty(),
            r.entry_seq().len() == 0,
    {
        StrMap { entries: Vec::new() }
    }

    pub fn len(&self) -> (r: usize)
        ensures
            r == self.entry_seq().len(),
            distinct_keys(self.entry_seq()),
            self@ == entries_map(self.entry_seq()),
    {
        proof {
            use_type_invariant(self);
        }
        self.entries.len()
    }

    pub fn entry_at(&self, i: usize) -> (r: &(String, V))
        requires
            i < self.entry_seq().len(),
        ensures
            *r == self.entry_seq()[i as int],
    {
        &self.entries[i]
    }

    fn position(&self, key: &str) -> (r: Option<usize>)
        ensures
            match r {
                Some(i) => i < self.entries@.len() && self.entries@[i as int].0@ == key@,
                None => forall|j: int| 0 <= j < self.entries@.len() ==> self.entries@[j].0@ != key@,
            },
    {
        let mut i: usize = 0;
        while i < self.entries.len()
            invariant
                i <= self.entries@.len(),
                forall|j: int| 0 <= j < i ==> self.entries@[j].0@ != key@,
            decreases self.entries@.len() - i,
        {
            if str_eq(self.entries[i].0.as_str(), key) {
                return Some(i);
            }
            i += 1;
        }
        None
    }

    pub fn contains_key(&self, key: &str) -> (r: bool)
        ensures
            r == self@.contains_key(key@),
    {
        proof {
            lemma_entries_map_domain(self.entries@, key@);
        }
        self.position(key).is_some()
    }

    pub fn get(&self, key: &str) -> (r: Option<&V>)
        ensures
            match r {
                Some(v) => self@.contains_key(key@) && self@[key@] == *v,
                None => !self@.contains_key(key@),
            },
    {
        proof {
            use_type_invariant(self);
            lemma_entries_map_domain(self.entries@, key@);
        }
        match self.position(key) {
            Some(i) => {
                proof {
                    lemma_entries_map_value(self.entries@, i as int);
                }
                Some(&self.entries[i].1)
            },
            None => None,
        }
    }

    pub fn insert(&mut self, key: String, value: V)
        ensures
            final(self)@ == old(self)@.insert(key@, value),
    {
        proof {
            use_type_invariant(&*self);
        }
        match self.position(key.as_str()) {
            Some(i) => {
                proof {
                    lemma_entries_map_update(self.entries@, i as int, value);
                }
                let mut entries = Vec::new();
                std::mem::swap(&mut entries, &mut self.entries);
                let k = entries[i].0.clone();
                entries[i] = (k, value);
                self.entries = entries;
            },
            None => {
                proof {
                    lemma_entries_map_push(self.entries@, key, value);
                    assert(distinct_keys(self.entries@.push((key, value))));
                }
                let mut entries = Vec::new();
                std::mem::swap(&mut entries, &mut self.entries);
                entries.push((key, value));
                self.entries = entries;
            },
        }
    }

    pub fn remove(&mut self, key: &str) -> (r: Option<V>)
        ensures
            final(self)@ == old(self)@.remove(key@),
            final(self).entry_seq().len() == old(self).entry_seq().len() - (if old(self)@.contains_key(
                key@,
            ) {
                1int
            } else {
                0int
            }),
            r == (if old(self)@.contains_key(key@) {
                Some(old(self)@[key@])
            } else {
                None
            }),
    {
        proof {
            use_type_invariant(&*self);
            lemma_entries_map_domain(self.entries@, key@);
        }
        match self.position(key) {
            Some(i) => {
                proof {
                    lemma_entries_map_remove(self.entries@, i as int);
                    lemma_entries_map_value(self.entries@, i as int);
                }
                let mut entries = Vec::new();
                std::mem::swap(&mut entries, &mut self.entries);
                let (_, value) = entries.remove(i);
                self.entries = entries;
                Some(value)
            },
            None => {
                proof {
                    assert(self@.remove(key@) =~= self@);
                }
                None
            },
        }
    }
}

/// Whether two strings hold the same characters.
pub fn str_eq(a: &str, b: &str) -> (r: bool)
    ensures
        r == (a@ == b@),
{
    let x = a.to_owned();
    let y = b.to_owned();
    x == y
}

} // verus!
