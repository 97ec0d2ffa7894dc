//! The request-scoped parameter store: an ordered mapping from parameter
//! name to the text it matched. Setting a name that is already present
//! replaces its value in place; a new name is appended.

use vstd::prelude::*;

verus! {

broadcast use vstd::string::group_string_axioms;

/// The position of the last entry named `k`, or -1.
pub open spec fn key_index(s: Seq<(Seq<char>, Seq<char>)>, k: Seq<char>) -> int
    decreases s.len(),
{
    if s.len() == 0 {
        -1
    } else if s.last().0 == k {
        s.len() - 1
    } else {
        key_index(s.drop_last(), k)
    }
}

/// The value stored under `k`.
pub open spec fn lookup(s: Seq<(Seq<char>, Seq<char>)>, k: Seq<char>) -> Option<Seq<char>> {
    let i = key_index(s, k);
    if i >= 0 {
        Some(s[i].1)
    } else {
        None
    }
}

/// `s` with `k` bound to `v`: in place where `k` is present, appended where not.
pub open spec fn entries_set(s: Seq<(Seq<char>, Seq<char>)>, k: Seq<char>, v: Seq<char>) -> Seq<
    (Seq<char>, Seq<char>),
> {
    let i = key_index(s, k);
    if i >= 0 {
        s.update(i, (k, v))
    } else {
        s.push((k, v))
    }
}

/// `s` with every entry of `t` set into it, in the order of `t`.
pub open spec fn entries_merge(s: Seq<(Seq<char>, Seq<char>)>, t: Seq<(Seq<char>, Seq<char>)>) -> Seq<
    (Seq<char>, Seq<char>),
>
    decreases t.len(),
{
    if t.len() == 0 {
        s
    } else {
        entries_set(entries_merge(s, t.drop_last()), t.last().0, t.last().1)
    }
}

pub proof fn lemma_key_index_bounds(s: Seq<(Seq<char>, Seq<char>)>, k: Seq<char>)
    ensures
        -1 <= key_index(s, k) < s.len(),
        key_index(s, k) >= 0 ==> s[key_index(s, k)].0 == k,
        key_index(s, k) < 0 ==> forall|j: int| 0 <= j < s.len() ==> s[j].0 != k,
    decreases s.len(),
{
    if s.len() > 0 {
        lemma_key_index_bounds(s.drop_last(), k);
        if key_index(s, k) < 0 {
            assert forall|j: int| 0 <= j < s.len() implies s[j].0 != k by {
                if j < s.len() - 1 {
                    assert(s[j] == s.drop_last()[j]);
                }
            }
        }
    }
}

/// Entries whose names agree position by position are searched alike.
proof fn lemma_key_index_same_keys(
    s1: Seq<(Seq<char>, Seq<char>)>,
    s2: Seq<(Seq<char>, Seq<char>)>,
    k: Seq<char>,
)
    requires
        s1.len() == s2.len(),
        forall|j: int| 0 <= j < s1.len() ==> s1[j].0 == s2[j].0,
    ensures
        key_index(s1, k) == key_index(s2, k),
    decreases s1.len(),
{
    if s1.len() > 0 {
        lemma_key_index_same_keys(s1.drop_last(), s2.drop_last(), k);
    }
}

/// Past the last entry named `k`, the rest of the entries can be dropped.
proof fn lemma_key_index_take(s: Seq<(Seq<char>, Seq<char>)>, k: Seq<char>, i: int)
    requires
        0 <= i <= s.len(),
        forall|j: int| i <= j < s.len() ==> s[j].0 != k,
    ensures
        key_index(s, k) == key_index(s.subrange(0, i), k),
    decreases s.len() - i,
{
    if i == s.len() {
        assert(s.subrange(0, i) =~= s);
    } else {
        lemma_key_index_take(s.drop_last(), k, i);
        assert(s.drop_last().subrange(0, i) =~= s.subrange(0, i));
    }
}

/// After setting `k`, looking `k` up gives the new value and every other
/// name keeps its value.
pub proof fn lemma_set_lookup(
    s: Seq<(Seq<char>, Seq<char>)>,
    k: Seq<char>,
    v: Seq<char>,
    j: Seq<char>,
)
    ensures
        lookup(entries_set(s, k, v), j) == if j == k {
            Some(v)
        } else {
            lookup(s, j)
        },
{
    lemma_key_index_bounds(s, k);
    lemma_key_index_bounds(s, j);
    let i = key_index(s, k);
    if i >= 0 {
        let u = s.update(i, (k, v));
        lemma_key_index_same_keys(u, s, j);
        lemma_key_index_same_keys(u, s, k);
    } else {
        let u = s.push((k, v));
        assert(u.drop_last() =~= s);
    }
}

/// Merging a later layer's parameters into an earlier store: a name the
/// later layer sets has its value, and every other name keeps the value the
/// earlier store gave it. Nothing of either layer is lost.
pub proof fn lemma_merge_lookup(
    s: Seq<(Seq<char>, Seq<char>)>,
    t: Seq<(Seq<char>, Seq<char>)>,
    k: Seq<char>,
)
    ensures
        lookup(entries_merge(s, t), k) == match lookup(t, k) {
            Some(v) => Some(v),
            None => lookup(s, k),
        },
    decreases t.len(),
{
    if t.len() > 0 {
        let last = t.last();
        lemma_merge_lookup(s, t.drop_last(), k);
        lemma_set_lookup(entries_merge(s, t.drop_last()), last.0, last.1, k);
        if last.0 != k {
            assert(key_index(t, k) == key_index(t.drop_last(), k));
            lemma_key_index_bounds(t.drop_last(), k);
        }
    }
}

pub struct PathParams {
    entries: Vec<(String, String)>,
}

impl View for PathParams {
    type V = Seq<(Seq<char>, Seq<char>)>;

    closed spec fn view(&self) -> Self::V {
        self.entries@.map_values(|e: (String, String)| (e.0@, e.1@))
    }
}

impl PathParams {
    pub fn new() -> (r: PathParams)
        ensures
            r@ == Seq::<(Seq<char>, Seq<char>)>::empty(),
    {
        let r = PathParams { entries: Vec::new() };
        assert(r@ =~= Seq::<(Seq<char>, Seq<char>)>::empty());
        r
    }

    pub fn with_capacity(capacity: usize) -> (r: PathParams)
        ensures
            r@ == Seq::<(Seq<char>, Seq<char>)>::empty(),
    {
        let r = PathParams { entries: Vec::with_capacity(capacity) };
        assert(r@ =~= Seq::<(Seq<char>, Seq<char>)>::empty());
        r
    }

    pub fn len(&self) -> (r: usize)
        ensures
            r == self@.len(),
    {
        self.entries.len()
    }

    /// The position of the entry named `name`.
    fn position(&self, name: &String) -> (r: Option<usize>)
        ensures
            match r {
                Some(i) => key_index(self@, name@) == i && i < self@.len(),
                None => key_index(self@, name@) == -1,
            },
    {
        let ghost s = self@;
        let mut i: usize = self.entries.len();
        while i > 0
            invariant
                s == self@,
                s.len() == self.entries@.len(),
                i <= s.len(),
                forall|j: int| i <= j < s.len() ==> s[j].0 != name@,
            decreases i,
        {
            assert(s[i - 1].0 == self.entries@[i - 1].0@);
            if self.entries[i - 1].0 == *name {
                proof {
                    lemma_key_index_take(s, name@, i as int);
                    assert(s.subrange(0, i as int).last() == s[i - 1]);
                }
                return Some(i - 1);
            }
            i -= 1;
        }
        proof {
            lemma_key_index_take(s, name@, 0);
        }
        None
    }

    /// Binds `name` to `value`: in place where `name` is present, appended where not.
    pub fn set(&mut self, name: String, value: String)
        ensures
            final(self)@ == entries_set(old(self)@, name@, value@),
    {
        match self.position(&name) {
            Some(i) => {
                self.entries.set(i, (name, value));
            },
            None => {
                self.entries.push((name, value));
            },
        }
        assert(self@ =~= entries_set(old(self)@, name@, value@));
    }

    /// The value bound to `name`.
    pub fn get(&self, name: &str) -> (r: Option<&String>)
        ensures
            match r {
                Some(v) => lookup(self@, name@) == Some(v@),
                None => lookup(self@, name@) is None,
            },
    {
        let key = String::from_str(name);
        match self.position(&key) {
            Some(i) => {
                assert(self@[i as int].1 == self.entries@[i as int].1@);
                Some(&self.entries[i].1)
            },
            None => None,
        }
    }

    /// Sets every entry of `other` into `self`, in order.
    pub fn extend(&mut self, other: PathParams)
        ensures
            final(self)@ == entries_merge(old(self)@, other@),
    {
        let n = other.entries.len();
        let mut i: usize = 0;
        assert(other@.subrange(0, 0) =~= Seq::<(Seq<char>, Seq<char>)>::empty());
        while i < n
            invariant
                n == other@.len(),
                i <= n,
                self@ == entries_merge(old(self)@, other@.subrange(0, i as int)),
            decreases n - i,
        {
            let name = other.entries[i].0.clone();
            let value = other.entries[i].1.clone();
            self.set(name, value);
            assert(other@.subrange(0, i + 1).drop_last() =~= other@.subrange(0, i as int));
            i += 1;
        }
        assert(other@.subrange(0, n as int) =~= other@);
    }
}

/// What a request carries through the routing layers it passes.
pub struct RequestData {
    path_params: PathParams,
}

impl View for RequestData {
    type V = Seq<(Seq<char>, Seq<char>)>;

    closed spec fn view(&self) -> Self::V {
        self.path_params@
    }
}

impl RequestData {
    pub fn new(path_params: PathParams) -> (r: RequestData)
        ensures
            r@ == path_params@,
    {
        RequestData { path_params }
    }

    pub fn path_params(&self) -> (r: &PathParams)
        ensures
            r@ == self@,
    {
        &self.path_params
    }

    /// Adds the parameters of a later layer; see [`PathParams::extend`].
    pub fn extend(&mut self, other: RequestData)
        ensures
            final(self)@ == entries_merge(old(self)@, other@),
    {
        self.path_params.extend(other.path_params);
    }
}

/// Merging entries whose names are all new, and distinct among themselves,
/// appends them in order: the earlier entries stay as they were, first.
pub proof fn lemma_merge_appends(s: Seq<(Seq<char>, Seq<char>)>, t: Seq<(Seq<char>, Seq<char>)>)
    requires
        forall|i: int, j: int| 0 <= i < j < t.len() ==> t[i].0 != t[j].0,
        forall|i: int, j: int| 0 <= i < t.len() && 0 <= j < s.len() ==> t[i].0 != s[j].0,
    ensures
        entries_merge(s, t) == s + t,
    decreases t.len(),
{
    if t.len() > 0 {
        let init = t.drop_last();
        let last = t.last();
        lemma_merge_appends(s, init);
        let m = s + init;
        assert forall|j: int| 0 <= j < m.len() implies m[j].0 != last.0 by {
            if j < s.len() {
                assert(t[t.len() - 1] == last);
            } else {
                assert(m[j] == t[j - s.len()]);
            }
        }
        if key_index(m, last.0) >= 0 {
            lemma_key_index_bounds(m, last.0);
        }
        assert(m.push(last) =~= s + t);
    }
}

} // verus!
