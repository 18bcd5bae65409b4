//! Association lists keyed by variable, kept in insertion order.

use vstd::prelude::*;
use crate::query::Variable;

verus! {

/// Some entry of `s` is keyed by `name`.
pub open spec fn has_key<V>(s: Seq<(Variable, V)>, name: Seq<char>) -> bool {
    exists|i: int| 0 <= i < s.len() && (#[trigger] s[i]).0.name@ == name
}

/// Entry `i` of `s` is the first one keyed by `name`.
pub open spec fn first_at<V>(s: Seq<(Variable, V)>, name: Seq<char>, i: int) -> bool {
    &&& 0 <= i < s.len()
    &&& s[i].0.name@ == name
    &&& forall|j: int| 0 <= j < i ==> (#[trigger] s[j]).0.name@ != name
}

/// The index of the first entry keyed by `name`, where there is one.
pub open spec fn first_index<V>(s: Seq<(Variable, V)>, name: Seq<char>) -> int {
    choose|i: int| first_at(s, name, i)
}

/// What the first entry keyed by `name` holds.
pub open spec fn lookup<V>(s: Seq<(Variable, V)>, name: Seq<char>) -> Option<V> {
    if has_key(s, name) {
        Some(s[first_index(s, name)].1)
    } else {
        None
    }
}

/// `s` with the value under `var` replaced, or with a new entry at the end.
pub open spec fn put<V>(s: Seq<(Variable, V)>, var: Variable, v: V) -> Seq<(Variable, V)> {
    if has_key(s, var.name@) {
        s.update(first_index(s, var.name@), (s[first_index(s, var.name@)].0, v))
    } else {
        s.push((var, v))
    }
}

/// `s` without its first entry keyed by `name`.
pub open spec fn without<V>(s: Seq<(Variable, V)>, name: Seq<char>) -> Seq<(Variable, V)> {
    if has_key(s, name) {
        s.remove(first_index(s, name))
    } else {
        s
    }
}

/// No two entries share a key.
pub open spec fn unique_keys<V>(s: Seq<(Variable, V)>) -> bool {
    forall|i: int, j: int|
        0 <= i < j < s.len() ==> (#[trigger] s[i]).0.name@ != (#[trigger] s[j]).0.name@
}

/// The first entry under a key is the only first one.
pub proof fn lemma_first_at<V>(s: Seq<(Variable, V)>, name: Seq<char>, i: int)
    requires
        first_at(s, name, i),
    ensures
        has_key(s, name),
        first_index(s, name) == i,
        lookup(s, name) == Some(s[i].1),
{
    let k = first_index(s, name);
    assert(first_at(s, name, k));
    if k < i {
        assert(s[k].0.name@ != name);
    }
    if i < k {
        assert(s[i].0.name@ != name);
    }
}

/// A key that is there has a first entry.
pub proof fn lemma_has_first<V>(s: Seq<(Variable, V)>, name: Seq<char>)
    requires
        has_key(s, name),
    ensures
        first_at(s, name, first_index(s, name)),
    decreases s.len(),
{
    let i = choose|i: int| 0 <= i < s.len() && (#[trigger] s[i]).0.name@ == name;
    lemma_first_below(s, name, i);
}

proof fn lemma_first_below<V>(s: Seq<(Variable, V)>, name: Seq<char>, i: int)
    requires
        0 <= i < s.len(),
        s[i].0.name@ == name,
    ensures
        exists|k: int| first_at(s, name, k),
    decreases i,
{
    if forall|j: int| 0 <= j < i ==> (#[trigger] s[j]).0.name@ != name {
        assert(first_at(s, name, i));
    } else {
        let j = choose|j: int| 0 <= j < i && (#[trigger] s[j]).0.name@ == name;
        lemma_first_below(s, name, j);
    }
}

/// What `put` does to lookups, and that it keeps keys unique.
pub proof fn lemma_put<V>(s: Seq<(Variable, V)>, var: Variable, v: V)
    ensures
        lookup(put(s, var, v), var.name@) == Some(v),
        has_key(put(s, var, v), var.name@),
        forall|n: Seq<char>| n != var.name@ ==> lookup(put(s, var, v), n) == lookup(s, n),
        forall|n: Seq<char>| n != var.name@ ==> has_key(put(s, var, v), n) == has_key(s, n),
        unique_keys(s) ==> unique_keys(put(s, var, v)),
        put(put(s, var, v), var, v) == put(s, var, v),
{
    let t = put(s, var, v);
    let name = var.name@;
    if has_key(s, name) {
        lemma_has_first(s, name);
        let k = first_index(s, name);
        assert(first_at(t, name, k));
        lemma_first_at(t, name, k);
        assert(t.update(k, (t[k].0, v)) =~= t);
    } else {
        assert(first_at(t, name, s.len() as int));
        lemma_first_at(t, name, s.len() as int);
        assert(t.update(s.len() as int, (t[s.len() as int].0, v)) =~= t);
    }
    assert forall|n: Seq<char>| n != name implies lookup(t, n) == lookup(s, n) && has_key(t, n)
        == has_key(s, n) by {
        if has_key(s, n) {
            lemma_has_first(s, n);
            let j = first_index(s, n);
            assert(first_at(t, n, j));
            lemma_first_at(t, n, j);
        } else if has_key(t, n) {
            let j = choose|j: int| 0 <= j < t.len() && (#[trigger] t[j]).0.name@ == n;
            assert(s[j].0.name@ == n);
        }
    }
    if unique_keys(s) {
        assert forall|i: int, j: int| 0 <= i < j < t.len() implies (#[trigger] t[i]).0.name@ != (
        #[trigger] t[j]).0.name@ by {
            if j == s.len() {
                assert(s[i].0.name@ != name);
            }
        }
    }
}

/// A list of entries keyed by variable. Lookups go by the variable's name and
/// find the first entry under it.
#[derive(Debug, PartialEq, Eq)]
pub struct VarMap<V> {
    pub entries: Vec<(Variable, V)>,
}

impl<V> VarMap<V> {
    pub open spec fn view(self) -> Seq<(Variable, V)> {
        self.entries@
    }

    pub fn new() -> (r: VarMap<V>)
        ensures
            r@ == Seq::<(Variable, V)>::empty(),
    {
        VarMap { entries: Vec::new() }
    }

    pub fn len(&self) -> (r: usize)
        ensures
            r == self@.len(),
    {
        self.entries.len()
    }

    pub fn is_empty(&self) -> (r: bool)
        ensures
            r == (self@.len() == 0),
    {
        self.entries.len() == 0
    }

    /// The index of the first entry under `var`.
    pub fn find(&self, var: &Variable) -> (r: Option<usize>)
        ensures
            match r {
                Some(i) => first_at(self@, var.name@, i as int) && first_index(self@, var.name@)
                    == i,
                None => !has_key(self@, var.name@),
            },
    {
        let mut i: usize = 0;
        while i < self.entries.len()
            invariant
                i <= self.entries.len(),
                forall|j: int| 0 <= j < i ==> (#[trigger] self@[j]).0.name@ != var.name@,
            decreases self.entries.len() - i,
        {
            if self.entries[i].0.same(var) {
                proof {
                    lemma_first_at(self@, var.name@, i as int);
                }
                return Some(i);
            }
            i = i + 1;
        }
        None
    }

    pub fn contains_key(&self, var: &Variable) -> (r: bool)
        ensures
            r == has_key(self@, var.name@),
    {
        self.find(var).is_some()
    }

    /// What the first entry under `var` holds.
    pub fn get(&self, var: &Variable) -> (r: Option<&V>)
        ensures
            match r {
                Some(v) => lookup(self@, var.name@) == Some(*v),
                None => lookup(self@, var.name@).is_none(),
            },
    {
        match self.find(var) {
            Some(i) => Some(&self.entries[i].1),
            None => None,
        }
    }

    /// Sets the value under `var`, adding an entry at the end where there is none.
    pub fn insert(&mut self, var: &Variable, v: V)
        ensures
            final(self)@ == put(old(self)@, *var, v),
    {
        match self.find(var) {
            Some(i) => {
                let key = self.entries[i].0.duplicate();
                self.entries.set(i, (key, v));
            },
            None => {
                self.entries.push((var.duplicate(), v));
            },
        }
    }

    /// Adds an entry at the end, whatever is there under `var`.
    pub fn append(&mut self, var: &Variable, v: V)
        ensures
            final(self)@ == old(self)@.push((*var, v)),
    {
        self.entries.push((var.duplicate(), v));
    }

    /// Takes out the first entry under `var`, if there is one.
    pub fn remove(&mut self, var: &Variable)
        ensures
            final(self)@ == without(old(self)@, var.name@),
    {
        match self.find(var) {
            Some(i) => {
                self.entries.remove(i);
            },
            None => {},
        }
    }
}

/// What the entries under `name` among the first `n` hold, in order.
pub open spec fn values_under<V>(s: Seq<(Variable, V)>, name: Seq<char>, n: nat) -> Seq<V>
    decreases n,
{
    if n == 0 {
        Seq::empty()
    } else {
        let before = values_under(s, name, (n - 1) as nat);
        if n <= s.len() && s[n - 1].0.name@ == name {
            before.push(s[n - 1].1)
        } else {
            before
        }
    }
}

impl<V: Copy> VarMap<V> {
    /// What every entry under `var` holds, in order.
    pub fn get_all(&self, var: &Variable) -> (r: Vec<V>)
        ensures
            r@ == values_under(self@, var.name@, self@.len()),
    {
        let mut out: Vec<V> = Vec::new();
        let mut i: usize = 0;
        while i < self.entries.len()
            invariant
                i <= self.entries.len(),
                out@ == values_under(self@, var.name@, i as nat),
            decreases self.entries.len() - i,
        {
            if self.entries[i].0.same(var) {
                out.push(self.entries[i].1);
            }
            i = i + 1;
        }
        out
    }
}

} // verus!
