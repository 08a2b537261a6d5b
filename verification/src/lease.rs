//! Lease tokens, and the table that binds a lease to a task's index path.

use vstd::prelude::*;

verus! {

/// A lease token for task completion; it also identifies plans.
#[derive(Clone, Copy, Debug, PartialEq, Eq, Hash)]
pub struct Lease(pub u8);

/// The value of a lease.
pub open spec fn lease_value(l: Lease) -> u8 {
    l.0
}

impl Lease {
    /// The inner value of the lease.
    pub fn value(&self) -> (v: u8)
        ensures
            v == self.0,
    {
        self.0
    }

    /// Creates a new lease.
    pub fn new(value: u8) -> (l: Self)
        ensures
            l.0 == value,
    {
        Lease(value)
    }
}

/// The lease bound to each index path, by a list of bindings in which no
/// path occurs twice. (A `HashMap` keyed by `Vec<usize>` has no usable
/// specification in vstd, whose hash maps are specified for keys whose
/// hashing it models, such as integers.)
pub struct LeaseTable {
    entries: Vec<(Vec<usize>, Lease)>,
}

/// The map that a list of bindings describes; a later binding of a path
/// overrides an earlier one.
pub open spec fn bindings_map(s: Seq<(Vec<usize>, Lease)>) -> Map<Seq<usize>, u8>
    decreases s.len(),
{
    if s.len() == 0 {
        Map::empty()
    } else {
        bindings_map(s.drop_last()).insert(s.last().0@, s.last().1.0)
    }
}

/// No path is bound twice.
pub open spec fn distinct_paths(s: Seq<(Vec<usize>, Lease)>) -> bool {
    forall|i: int, j: int| 0 <= i < j < s.len() ==> #[trigger] s[i].0@ != #[trigger] s[j].0@
}

proof fn lemma_bindings_lookup(s: Seq<(Vec<usize>, Lease)>)
    requires
        distinct_paths(s),
    ensures
        forall|i: int| 0 <= i < s.len() ==> #[trigger] bindings_map(s).contains_key(s[i].0@)
            && bindings_map(s)[s[i].0@] == s[i].1.0,
        forall|k: Seq<usize>| #[trigger]
            bindings_map(s).contains_key(k) ==> exists|i: int| 0 <= i < s.len() && s[i].0@ == k,
    decreases s.len(),
{
    if s.len() > 0 {
        let t = s.drop_last();
        assert(distinct_paths(t)) by {
            assert forall|i: int, j: int| 0 <= i < j < t.len() implies #[trigger] t[i].0@ != #[trigger] t[j].0@ by {
                assert(t[i] == s[i] && t[j] == s[j]);
            }
        }
        lemma_bindings_lookup(t);
        assert forall|i: int| 0 <= i < s.len() implies #[trigger] bindings_map(s).contains_key(s[i].0@)
            && bindings_map(s)[s[i].0@] == s[i].1.0 by {
            assert(bindings_map(s) == bindings_map(t).insert(s.last().0@, s.last().1.0));
            if i < s.len() - 1 {
                assert(t[i] == s[i]);
                assert(s[i].0@ != s[s.len() - 1].0@);
                assert(bindings_map(t).contains_key(t[i].0@));
            }
        }
        assert forall|k: Seq<usize>| #[trigger] bindings_map(s).contains_key(k) implies exists|i: int|
            0 <= i < s.len() && s[i].0@ == k by {
            if k != s.last().0@ {
                assert(bindings_map(t).contains_key(k));
                let i = choose|i: int| 0 <= i < t.len() && t[i].0@ == k;
                assert(s[i] == t[i]);
            } else {
                assert(s[s.len() - 1].0@ == k);
            }
        }
    }
}

proof fn lemma_bindings_update(s: Seq<(Vec<usize>, Lease)>, i: int, x: (Vec<usize>, Lease))
    requires
        distinct_paths(s),
        0 <= i < s.len(),
        s[i].0@ == x.0@,
    ensures
        bindings_map(s.update(i, x)) == bindings_map(s).insert(x.0@, x.1.0),
        distinct_paths(s.update(i, x)),
    decreases s.len(),
{
    let u = s.update(i, x);
    assert(distinct_paths(u)) by {
        assert forall|a: int, b: int| 0 <= a < b < u.len() implies #[trigger] u[a].0@ != #[trigger] u[b].0@ by {
            assert(s[a].0@ != s[b].0@);
        }
    }
    lemma_bindings_lookup(s);
    lemma_bindings_lookup(u);
    assert forall|k: Seq<usize>| bindings_map(u).contains_key(k) <==> #[trigger] bindings_map(s).insert(x.0@, x.1.0).contains_key(k) by {
        if bindings_map(u).contains_key(k) {
            let j = choose|j: int| 0 <= j < u.len() && u[j].0@ == k;
            if j != i {
                assert(bindings_map(s).contains_key(s[j].0@));
            }
        }
        if bindings_map(s).contains_key(k) && k != x.0@ {
            let j = choose|j: int| 0 <= j < s.len() && s[j].0@ == k;
            assert(u[j] == s[j]);
            assert(bindings_map(u).contains_key(u[j].0@));
        }
        if k == x.0@ {
            assert(u[i] == x);
            assert(bindings_map(u).contains_key(u[i].0@));
        }
    }
    assert forall|k: Seq<usize>| #[trigger] bindings_map(u).contains_key(k) implies bindings_map(u)[k]
        == bindings_map(s).insert(x.0@, x.1.0)[k] by {
        let j = choose|j: int| 0 <= j < u.len() && u[j].0@ == k;
        assert(bindings_map(u).contains_key(u[j].0@));
        if j == i {
            assert(u[i] == x);
        } else {
            assert(u[j] == s[j]);
            assert(bindings_map(s).contains_key(s[j].0@));
        }
    }
    assert(bindings_map(u) =~= bindings_map(s).insert(x.0@, x.1.0));
}

proof fn lemma_bindings_remove(s: Seq<(Vec<usize>, Lease)>, i: int)
    requires
        distinct_paths(s),
        0 <= i < s.len(),
    ensures
        bindings_map(s.remove(i)) == bindings_map(s).remove(s[i].0@),
        distinct_paths(s.remove(i)),
{
    let u = s.remove(i);
    assert(distinct_paths(u)) by {
        assert forall|a: int, b: int| 0 <= a < b < u.len() implies #[trigger] u[a].0@ != #[trigger] u[b].0@ by {
            let a2 = if a < i { a } else { a + 1 };
            let b2 = if b < i { b } else { b + 1 };
            assert(u[a] == s[a2] && u[b] == s[b2]);
            assert(s[a2].0@ != s[b2].0@);
        }
    }
    lemma_bindings_lookup(s);
    lemma_bindings_lookup(u);
    let k0 = s[i].0@;
    assert forall|k: Seq<usize>| bindings_map(u).contains_key(k) <==> #[trigger] bindings_map(s).remove(k0).contains_key(k) by {
        if bindings_map(u).contains_key(k) {
            let j = choose|j: int| 0 <= j < u.len() && u[j].0@ == k;
            let j2 = if j < i { j } else { j + 1 };
            assert(u[j] == s[j2]);
            assert(s[j2].0@ != s[i].0@);
            assert(bindings_map(s).contains_key(s[j2].0@));
        }
        if bindings_map(s).contains_key(k) && k != k0 {
            let j = choose|j: int| 0 <= j < s.len() && s[j].0@ == k;
            let j2 = if j < i { j } else { j - 1 };
            assert(u[j2] == s[j]);
            assert(bindings_map(u).contains_key(u[j2].0@));
        }
    }
    assert forall|k: Seq<usize>| #[trigger] bindings_map(u).contains_key(k) implies bindings_map(u)[k]
        == bindings_map(s).remove(k0)[k] by {
        let j = choose|j: int| 0 <= j < u.len() && u[j].0@ == k;
        let j2 = if j < i { j } else { j + 1 };
        assert(u[j] == s[j2]);
        assert(bindings_map(u).contains_key(u[j].0@));
        assert(bindings_map(s).contains_key(s[j2].0@));
        assert(s[j2].0@ != s[i].0@);
    }
    assert(bindings_map(u) =~= bindings_map(s).remove(k0));
}

fn same_path(a: &Vec<usize>, b: &[usize]) -> (r: bool)
    ensures
        r == (a@ == b@),
{
    if a.len() != b.len() {
        return false;
    }
    let mut i: usize = 0;
    while i < a.len()
        invariant
            a@.len() == b@.len(),
            i <= a@.len(),
            forall|j: int| 0 <= j < i ==> a@[j] == b@[j],
        decreases a@.len() - i,
    {
        if a[i] != b[i] {
            return false;
        }
        i = i + 1;
    }
    assert(a@ =~= b@);
    true
}

/// A copy of an index path.
pub fn copy_path(p: &[usize]) -> (r: Vec<usize>)
    ensures
        r@ == p@,
{
    let mut r: Vec<usize> = Vec::new();
    let mut i: usize = 0;
    while i < p.len()
        invariant
            i <= p@.len(),
            r@ == p@.take(i as int),
        decreases p@.len() - i,
    {
        r.push(p[i]);
        proof {
            assert(p@.take(i + 1) =~= p@.take(i as int).push(p@[i as int]));
        }
        i = i + 1;
    }
    assert(p@.take(p@.len() as int) =~= p@);
    r
}

impl View for LeaseTable {
    type V = Map<Seq<usize>, u8>;

    closed spec fn view(&self) -> Map<Seq<usize>, u8> {
        bindings_map(self.entries@)
    }
}

impl LeaseTable {
    /// The table's internal consistency: no path is bound twice.
    pub closed spec fn wf(&self) -> bool {
        distinct_paths(self.entries@)
    }

    /// An empty table.
    pub fn new() -> (t: Self)
        ensures
            t.wf(),
            t@ == Map::<Seq<usize>, u8>::empty(),
    {
        LeaseTable { entries: Vec::new() }
    }

    fn position(&self, path: &[usize]) -> (r: Option<usize>)
        requires
            self.wf(),
        ensures
            match r {
                Some(i) => i < self.entries@.len() && self.entries@[i as int].0@ == path@,
                None => !self@.contains_key(path@),
            },
    {
        proof {
            lemma_bindings_lookup(self.entries@);
        }
        let mut i: usize = 0;
        while i < self.entries.len()
            invariant
                i <= self.entries@.len(),
                forall|j: int| 0 <= j < i ==> self.entries@[j].0@ != path@,
            decreases self.entries@.len() - i,
        {
            if same_path(&self.entries[i].0, path) {
                return Some(i);
            }
            i = i + 1;
        }
        None
    }

    /// The lease bound to a path, if any.
    pub fn get(&self, path: &[usize]) -> (r: Option<u8>)
        requires
            self.wf(),
        ensures
            r == (if self@.contains_key(path@) {
                Some(self@[path@])
            } else {
                None
            }),
    {
        proof {
            lemma_bindings_lookup(self.entries@);
        }
        match self.position(path) {
            Some(i) => Some(self.entries[i].1.0),
            None => None,
        }
    }

    /// Binds a lease to a path, replacing any earlier binding.
    pub fn insert(&mut self, path: Vec<usize>, lease: Lease)
        requires
            old(self).wf(),
        ensures
            final(self).wf(),
            final(self)@ == old(self)@.insert(path@, lease.0),
    {
        proof {
            lemma_bindings_lookup(self.entries@);
        }
        match self.position(path.as_slice()) {
            Some(i) => {
                let ghost s = self.entries@;
                let ghost pv = path@;
                self.entries.set(i, (path, lease));
                proof {
                    lemma_bindings_update(s, i as int, self.entries@[i as int]);
                    assert(self.entries@ == s.update(i as int, self.entries@[i as int]));
                }
            },
            None => {
                let ghost s = self.entries@;
                self.entries.push((path, lease));
                proof {
                    assert(self.entries@.drop_last() =~= s);
                    assert forall|a: int, b: int| 0 <= a < b < self.entries@.len() implies #[trigger] self.entries@[a].0@
                        != #[trigger] self.entries@[b].0@ by {
                        if b == self.entries@.len() - 1 {
                            assert(s[a] == self.entries@[a]);
                            assert(bindings_map(s).contains_key(s[a].0@));
                        } else {
                            assert(s[a] == self.entries@[a] && s[b] == self.entries@[b]);
                        }
                    }
                }
            },
        }
    }

    /// Removes the binding of a path, if there is one.
    pub fn remove(&mut self, path: &[usize])
        requires
            old(self).wf(),
        ensures
            final(self).wf(),
            final(self)@ == old(self)@.remove(path@),
    {
        proof {
            lemma_bindings_lookup(self.entries@);
        }
        match self.position(path) {
            Some(i) => {
                let ghost s = self.entries@;
                self.entries.remove(i);
                proof {
                    lemma_bindings_remove(s, i as int);
                }
            },
            None => {
                assert(self@.remove(path@) =~= self@);
            },
        }
    }
}

} // verus!
