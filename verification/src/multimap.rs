//! An insertion-ordered multimap from names to lists of values, kept as
//! an association list. A missing name is distinct from a name holding
//! an empty list; adding a value for a present name appends to that
//! name's list.

use vstd::prelude::*;
use vstd::string::*;

use crate::text::str_eq;

verus! {

/// The values held under the first entry named `k`, if any.
pub open spec fn mm_lookup(m: Seq<(Seq<char>, Seq<Seq<char>>)>, k: Seq<char>) -> Option<
    Seq<Seq<char>>,
>
    decreases m.len(),
{
    if m.len() == 0 {
        None
    } else if m[0].0 == k {
        Some(m[0].1)
    } else {
        mm_lookup(m.drop_first(), k)
    }
}

/// Appends `vs` to the list of the first entry named `k`, or adds a new
/// entry `(k, vs)` at the end when `k` is absent.
pub open spec fn mm_add_values(
    m: Seq<(Seq<char>, Seq<Seq<char>>)>,
    k: Seq<char>,
    vs: Seq<Seq<char>>,
) -> Seq<(Seq<char>, Seq<Seq<char>>)>
    decreases m.len(),
{
    if m.len() == 0 {
        seq![(k, vs)]
    } else if m[0].0 == k {
        seq![(m[0].0, m[0].1 + vs)] + m.drop_first()
    } else {
        seq![m[0]] + mm_add_values(m.drop_first(), k, vs)
    }
}

/// Appends the single value `v` under `k`.
pub open spec fn mm_add_value(
    m: Seq<(Seq<char>, Seq<Seq<char>>)>,
    k: Seq<char>,
    v: Seq<char>,
) -> Seq<(Seq<char>, Seq<Seq<char>>)> {
    mm_add_values(m, k, seq![v])
}

/// When the first entry named `k` stands at index `i`, `mm_lookup`
/// returns exactly that entry's list.
pub proof fn lemma_mm_lookup_found(m: Seq<(Seq<char>, Seq<Seq<char>>)>, k: Seq<char>, i: int)
    requires
        0 <= i < m.len(),
        m[i].0 == k,
        forall|j: int| 0 <= j < i ==> m[j].0 != k,
    ensures
        mm_lookup(m, k) == Some(m[i].1),
    decreases m.len(),
{
    if i > 0 {
        lemma_mm_lookup_found(m.drop_first(), k, i - 1);
    }
}

/// When no entry is named `k`, `mm_lookup` returns `None`.
pub proof fn lemma_mm_lookup_absent(m: Seq<(Seq<char>, Seq<Seq<char>>)>, k: Seq<char>)
    requires
        forall|j: int| 0 <= j < m.len() ==> m[j].0 != k,
    ensures
        mm_lookup(m, k) is None,
    decreases m.len(),
{
    if m.len() > 0 {
        lemma_mm_lookup_absent(m.drop_first(), k);
    }
}

/// When the first entry named `k` stands at index `i`, `mm_add_values`
/// extends that entry in place and moves nothing else.
pub proof fn lemma_mm_add_values_found(
    m: Seq<(Seq<char>, Seq<Seq<char>>)>,
    k: Seq<char>,
    vs: Seq<Seq<char>>,
    i: int,
)
    requires
        0 <= i < m.len(),
        m[i].0 == k,
        forall|j: int| 0 <= j < i ==> m[j].0 != k,
    ensures
        mm_add_values(m, k, vs) =~= m.update(i, (m[i].0, m[i].1 + vs)),
    decreases m.len(),
{
    if i > 0 {
        lemma_mm_add_values_found(m.drop_first(), k, vs, i - 1);
    }
}

/// When no entry is named `k`, `mm_add_values` adds `(k, vs)` at the end.
pub proof fn lemma_mm_add_values_absent(
    m: Seq<(Seq<char>, Seq<Seq<char>>)>,
    k: Seq<char>,
    vs: Seq<Seq<char>>,
)
    requires
        forall|j: int| 0 <= j < m.len() ==> m[j].0 != k,
    ensures
        mm_add_values(m, k, vs) =~= m.push((k, vs)),
    decreases m.len(),
{
    if m.len() > 0 {
        lemma_mm_add_values_absent(m.drop_first(), k, vs);
    }
}

/// Adding under `k` leaves what `mm_lookup` finds under every other
/// name unchanged.
pub proof fn lemma_mm_add_values_preserves_others(
    m: Seq<(Seq<char>, Seq<Seq<char>>)>,
    k: Seq<char>,
    vs: Seq<Seq<char>>,
    k2: Seq<char>,
)
    requires
        k2 != k,
    ensures
        mm_lookup(mm_add_values(m, k, vs), k2) == mm_lookup(m, k2),
    decreases m.len(),
{
    let r = mm_add_values(m, k, vs);
    if m.len() == 0 {
        assert(r[0] == (k, vs));
        assert(r.drop_first() =~= Seq::<(Seq<char>, Seq<Seq<char>>)>::empty());
        assert(mm_lookup(r, k2) == mm_lookup(r.drop_first(), k2));
        assert(mm_lookup(r.drop_first(), k2) is None);
    } else if m[0].0 == k {
        assert(r[0] == (m[0].0, m[0].1 + vs));
        assert(r.drop_first() =~= m.drop_first());
        assert(mm_lookup(r, k2) == mm_lookup(r.drop_first(), k2));
        assert(mm_lookup(m, k2) == mm_lookup(m.drop_first(), k2));
    } else {
        assert(r[0] == m[0]);
        assert(r.drop_first() =~= mm_add_values(m.drop_first(), k, vs));
        if m[0].0 == k2 {
            assert(mm_lookup(r, k2) == Some(r[0].1));
            assert(mm_lookup(m, k2) == Some(m[0].1));
        } else {
            lemma_mm_add_values_preserves_others(m.drop_first(), k, vs, k2);
            assert(mm_lookup(r, k2) == mm_lookup(r.drop_first(), k2));
            assert(mm_lookup(m, k2) == mm_lookup(m.drop_first(), k2));
        }
    }
}

/// After adding `vs` under `k`, `mm_lookup(k)` holds the old list
/// extended by `vs`, or `vs` alone when `k` was absent.
pub proof fn lemma_mm_add_values_lookup(
    m: Seq<(Seq<char>, Seq<Seq<char>>)>,
    k: Seq<char>,
    vs: Seq<Seq<char>>,
)
    ensures
        mm_lookup(mm_add_values(m, k, vs), k) == match mm_lookup(m, k) {
            Some(old_vs) => Some(old_vs + vs),
            None => Some(vs),
        },
    decreases m.len(),
{
    if m.len() == 0 {
        assert(mm_add_values(m, k, vs)[0].0 == k);
    } else if m[0].0 == k {
        assert(mm_add_values(m, k, vs)[0].0 == k);
    } else {
        lemma_mm_add_values_lookup(m.drop_first(), k, vs);
        assert(mm_add_values(m, k, vs).drop_first() =~= mm_add_values(m.drop_first(), k, vs));
    }
}

/// Adding a value for a name twice accumulates both values in order,
/// and a name never added stays absent.
pub proof fn lemma_mm_accumulates(
    m: Seq<(Seq<char>, Seq<Seq<char>>)>,
    k: Seq<char>,
    v1: Seq<char>,
    v2: Seq<char>,
    other: Seq<char>,
)
    requires
        mm_lookup(m, k) is None,
        other != k,
        mm_lookup(m, other) is None,
    ensures
        mm_lookup(mm_add_value(mm_add_value(m, k, v1), k, v2), k) == Some(seq![v1, v2]),
        mm_lookup(mm_add_value(mm_add_value(m, k, v1), k, v2), other) is None,
{
    lemma_mm_add_values_lookup(m, k, seq![v1]);
    lemma_mm_add_values_lookup(mm_add_value(m, k, v1), k, seq![v2]);
    assert(seq![v1] + seq![v2] =~= seq![v1, v2]);
    lemma_mm_add_values_preserves_others(m, k, seq![v1], other);
    lemma_mm_add_values_preserves_others(mm_add_value(m, k, v1), k, seq![v2], other);
}

/// An insertion-ordered association list from names to lists of values.
#[derive(Debug)]
pub struct MultiMap {
    pub entries: Vec<(String, Vec<String>)>,
}

impl View for MultiMap {
    type V = Seq<(Seq<char>, Seq<Seq<char>>)>;

    open spec fn view(&self) -> Seq<(Seq<char>, Seq<Seq<char>>)> {
        self.entries.deep_view()
    }
}

impl MultiMap {
    /// An empty multimap.
    pub fn new() -> (r: MultiMap)
        ensures
            r@ =~= Seq::<(Seq<char>, Seq<Seq<char>>)>::empty(),
    {
        MultiMap { entries: Vec::new() }
    }

    /// Index of the first entry named `name`, if any.
    fn find_index(&self, name: &str) -> (r: Option<usize>)
        ensures
            match r {
                Some(i) => i < self@.len() && self@[i as int].0 == name@ && (forall|j: int|
                    0 <= j < i ==> self@[j].0 != name@),
                None => forall|j: int| 0 <= j < self@.len() ==> self@[j].0 != name@,
            },
    {
        let n = self.entries.len();
        let mut i: usize = 0;
        while i < n
            invariant
                n == self.entries.len(),
                i <= n,
                self@ == self.entries.deep_view(),
                self@.len() == n,
                forall|j: int| 0 <= j < i ==> self@[j].0 != name@,
            decreases n - i,
        {
            if str_eq(self.entries[i].0.as_str(), name) {
                return Some(i);
            }
            i = i + 1;
        }
        None
    }

    /// The values under `name`, or `None` when `name` was never added.
    pub fn get<'a>(&'a self, name: &str) -> (r: Option<&'a Vec<String>>)
        ensures
            match r {
                Some(v) => mm_lookup(self@, name@) == Some(v.deep_view()),
                None => mm_lookup(self@, name@) is None,
            },
    {
        match self.find_index(name) {
            Some(i) => {
                proof {
                    lemma_mm_lookup_found(self@, name@, i as int);
                }
                Some(&self.entries[i].1)
            },
            None => {
                proof {
                    lemma_mm_lookup_absent(self@, name@);
                }
                None
            },
        }
    }

    /// Appends `value` to the list under `name`, creating the entry when
    /// `name` is absent.
    pub fn add(&mut self, name: &str, value: String)
        ensures
            final (self)@ =~= mm_add_value(old(self)@, name@, value@),
    {
        let ghost v = value@;
        let mut values: Vec<String> = Vec::new();
        values.push(value);
        proof {
            assert(values.deep_view() =~= seq![v]);
        }
        self.add_all(name, values);
    }

    /// Appends every element of `values` to the list under `name`, in
    /// order, creating the entry when `name` is absent.
    pub fn add_all(&mut self, name: &str, values: Vec<String>)
        ensures
            final (self)@ =~= mm_add_values(old(self)@, name@, values.deep_view()),
    {
        let ghost m0 = self@;
        let ghost vs = values.deep_view();
        let mut values = values;
        match self.find_index(name) {
            Some(i) => {
                proof {
                    lemma_mm_add_values_found(m0, name@, vs, i as int);
                }
                let ghost entries0 = self.entries@;
                let mut entry = self.entries.remove(i);
                let ghost entry0 = entry;
                entry.1.append(&mut values);
                let ghost entry1 = entry;
                self.entries.insert(i, entry);
                proof {
                    assert(self.entries@ =~= entries0.update(i as int, entry1));
                    assert(entry1.1.deep_view() =~= entry0.1.deep_view() + vs);
                    assert(m0[i as int] == (entry0.0@, entry0.1.deep_view()));
                    assert forall|j: int| 0 <= j < self@.len() implies self@[j] == m0.update(
                        i as int,
                        (m0[i as int].0, m0[i as int].1 + vs),
                    )[j] by {
                        if j != i {
                            assert(self.entries@[j] == entries0[j]);
                        }
                    }
                    assert(self@ =~= m0.update(i as int, (m0[i as int].0, m0[i as int].1 + vs)));
                }
            },
            None => {
                proof {
                    lemma_mm_add_values_absent(m0, name@, vs);
                }
                self.entries.push((String::from_str(name), values));
                proof {
                    assert(self@ =~= m0.push((name@, vs)));
                }
            },
        }
    }

    /// How many names hold an entry.
    pub fn len(&self) -> (r: usize)
        ensures
            r == self@.len(),
    {
        self.entries.len()
    }
}

} // verus!
