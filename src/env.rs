use vstd::prelude::*;

verus! {

/// The names bound so far, each with the durable value it holds: the bit
/// pattern of a binary64 number, valid in every compilation unit.
pub struct SymbolEnv {
    entries: Vec<(String, u64)>,
}

/// The map that a list of entries with distinct names stands for.
pub open spec fn map_of(s: Seq<(String, u64)>) -> Map<Seq<char>, u64>
    decreases s.len(),
{
    if s.len() == 0 {
        Map::empty()
    } else {
        map_of(s.drop_last()).insert(s.last().0@, s.last().1)
    }
}

pub open spec fn distinct_names(s: Seq<(String, u64)>) -> bool {
    forall|i: int, j: int|
        0 <= i < s.len() && 0 <= j < s.len() && i != j ==> #[trigger] s[i].0@ != #[trigger] s[j].0@
}

/// The map `env` after binding every name of `names` to `v`.
pub open spec fn bind_all(env: Map<Seq<char>, u64>, names: Seq<Seq<char>>, v: u64) -> Map<
    Seq<char>,
    u64,
> {
    env.union_prefer_right(Map::new(|k: Seq<char>| names.contains(k), |k: Seq<char>| v))
}

/// The names held by a list of strings.
pub open spec fn names_of(v: Seq<String>) -> Seq<Seq<char>> {
    v.map_values(|s: String| s@)
}

proof fn lemma_map_of_keys(s: Seq<(String, u64)>, k: Seq<char>)
    ensures
        map_of(s).contains_key(k) <==> exists|i: int| 0 <= i < s.len() && #[trigger] s[i].0@ == k,
    decreases s.len(),
{
    if s.len() > 0 {
        let p = s.drop_last();
        lemma_map_of_keys(p, k);
        if exists|i: int| 0 <= i < p.len() && #[trigger] p[i].0@ == k {
            let i = choose|i: int| 0 <= i < p.len() && #[trigger] p[i].0@ == k;
            assert(s[i].0@ == k);
        }
        if exists|i: int| 0 <= i < s.len() && #[trigger] s[i].0@ == k {
            let i = choose|i: int| 0 <= i < s.len() && #[trigger] s[i].0@ == k;
            if i < p.len() {
                assert(p[i].0@ == k);
            }
        }
    }
}

proof fn lemma_map_of_index(s: Seq<(String, u64)>, i: int)
    requires
        distinct_names(s),
        0 <= i < s.len(),
    ensures
        map_of(s).contains_key(s[i].0@),
        map_of(s)[s[i].0@] == s[i].1,
    decreases s.len(),
{
    let p = s.drop_last();
    if i < s.len() - 1 {
        assert(p[i] == s[i]);
        assert(distinct_names(p)) by {
            assert forall|a: int, b: int|
                0 <= a < p.len() && 0 <= b < p.len() && a != b implies #[trigger] p[a].0@
                != #[trigger] p[b].0@ by {
                assert(p[a] == s[a] && p[b] == s[b]);
            }
        }
        lemma_map_of_index(p, i);
        assert(s[i].0@ != s.last().0@);
    }
}

impl SymbolEnv {
    pub closed spec fn view(&self) -> Map<Seq<char>, u64> {
        map_of(self.entries@)
    }

    pub closed spec fn wf(&self) -> bool {
        distinct_names(self.entries@)
    }

    /// An environment with no names bound.
    pub fn new() -> (r: SymbolEnv)
        ensures
            r.wf(),
            r@ == Map::<Seq<char>, u64>::empty(),
    {
        SymbolEnv { entries: Vec::new() }
    }

    fn position(&self, name: &String) -> (r: Option<usize>)
        requires
            self.wf(),
        ensures
            match r {
                Some(i) => i < self.entries@.len() && self.entries@[i as int].0@ == name@,
                None => forall|i: int|
                    0 <= i < self.entries@.len() ==> #[trigger] self.entries@[i].0@ != name@,
            },
    {
        let mut i: usize = 0;
        while i < self.entries.len()
            invariant
                i <= self.entries@.len(),
                forall|j: int| 0 <= j < i ==> #[trigger] self.entries@[j].0@ != name@,
            decreases self.entries@.len() - i,
        {
            if self.entries[i].0 == *name {
                return Some(i);
            }
            i = i + 1;
        }
        None
    }

    /// The durable value bound to `name`, if any.
    pub fn lookup(&self, name: &String) -> (r: Option<u64>)
        requires
            self.wf(),
        ensures
            r == (if self@.contains_key(name@) {
                Some(self@[name@])
            } else {
                None::<u64>
            }),
    {
        let p = self.position(name);
        proof {
            lemma_map_of_keys(self.entries@, name@);
        }
        match p {
            Some(i) => {
                proof {
                    lemma_map_of_index(self.entries@, i as int);
                }
                Some(self.entries[i].1)
            },
            None => None,
        }
    }

    /// Binds `name` to `v`, replacing any earlier binding of it.
    pub fn bind(&mut self, name: String, v: u64)
        requires
            old(self).wf(),
        ensures
            final(self).wf(),
            final(self)@ == old(self)@.insert(name@, v),
    {
        let p = self.position(&name);
        let ghost s0 = self.entries@;
        proof {
            lemma_map_of_keys(s0, name@);
        }
        match p {
            Some(i) => {
                self.entries.set(i, (name, v));
                let ghost s1 = self.entries@;
                assert(distinct_names(s1)) by {
                    assert forall|a: int, b: int|
                        0 <= a < s1.len() && 0 <= b < s1.len() && a != b implies #[trigger] s1[a].0@
                        != #[trigger] s1[b].0@ by {
                        assert(s1[a].0@ == s0[a].0@ && s1[b].0@ == s0[b].0@);
                    }
                }
                assert forall|k: Seq<char>| #[trigger] map_of(s1).contains_key(k)
                    == old(self)@.insert(name@, v).contains_key(k) by {
                    lemma_map_of_keys(s0, k);
                    lemma_map_of_keys(s1, k);
                    if exists|j: int| 0 <= j < s0.len() && #[trigger] s0[j].0@ == k {
                        let j = choose|j: int| 0 <= j < s0.len() && #[trigger] s0[j].0@ == k;
                        assert(s1[j].0@ == k);
                    }
                    if exists|j: int| 0 <= j < s1.len() && #[trigger] s1[j].0@ == k {
                        let j = choose|j: int| 0 <= j < s1.len() && #[trigger] s1[j].0@ == k;
                        assert(s0[j].0@ == k);
                    }
                }
                assert forall|k: Seq<char>| #[trigger] map_of(s1).contains_key(k) implies map_of(
                    s1,
                )[k] == old(self)@.insert(name@, v)[k] by {
                    lemma_map_of_keys(s1, k);
                    let j = choose|j: int| 0 <= j < s1.len() && #[trigger] s1[j].0@ == k;
                    lemma_map_of_index(s1, j);
                    if j != i {
                        assert(s0[j] == s1[j]);
                        lemma_map_of_index(s0, j);
                    }
                }
                assert(map_of(s1) =~= old(self)@.insert(name@, v));
            },
            None => {
                self.entries.push((name, v));
                let ghost s1 = self.entries@;
                assert(s1.drop_last() =~= s0);
                assert(distinct_names(s1)) by {
                    assert forall|a: int, b: int|
                        0 <= a < s1.len() && 0 <= b < s1.len() && a != b implies #[trigger] s1[a].0@
                        != #[trigger] s1[b].0@ by {
                        if a < s0.len() {
                            assert(s1[a] == s0[a]);
                        }
                        if b < s0.len() {
                            assert(s1[b] == s0[b]);
                        }
                    }
                }
            },
        }
    }

    /// Binds every name of `names` to the durable value `v`: the result of
    /// the line that bound them.
    pub fn commit(&mut self, names: &Vec<String>, v: u64)
        requires
            old(self).wf(),
        ensures
            final(self).wf(),
            final(self)@ == bind_all(old(self)@, names_of(names@), v),
    {
        let ghost m0 = self@;
        let mut i: usize = 0;
        while i < names.len()
            invariant
                self.wf(),
                i <= names@.len(),
                self@ == bind_all(m0, names_of(names@.take(i as int)), v),
            decreases names@.len() - i,
        {
            let ghost before = names_of(names@.take(i as int));
            self.bind(names[i].clone(), v);
            proof {
                let after = names_of(names@.take(i + 1));
                assert(after =~= before.push(names@[i as int]@));
                assert forall|k: Seq<char>| #[trigger] after.contains(k) == (before.contains(k) || k
                    == names@[i as int]@) by {
                    if after.contains(k) && k != names@[i as int]@ {
                        let j = choose|j: int| 0 <= j < after.len() && after[j] == k;
                        assert(before[j] == k);
                    }
                    if before.contains(k) {
                        let j = choose|j: int| 0 <= j < before.len() && before[j] == k;
                        assert(after[j] == k);
                    }
                    if k == names@[i as int]@ {
                        assert(after[i as int] == k);
                    }
                }
                assert(self@ =~= bind_all(m0, after, v));
            }
            i = i + 1;
        }
        assert(names@.take(names@.len() as int) =~= names@);
    }
}

} // verus!
