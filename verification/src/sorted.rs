//! Values under names, in the order of the names.
use crate::text;
use vstd::prelude::*;

verus! {

/// Whether `a` comes before `b`: at the first place where they differ it has the
/// smaller character, or it ends there.
pub open spec fn before(a: Seq<char>, b: Seq<char>) -> bool
    decreases a.len(),
{
    if b.len() == 0 {
        false
    } else if a.len() == 0 {
        true
    } else if a[0] != b[0] {
        a[0] < b[0]
    } else {
        before(a.skip(1), b.skip(1))
    }
}

/// Of two different names one comes before the other, and not the other before it.
pub proof fn law_names_are_ordered(a: Seq<char>, b: Seq<char>)
    ensures
        a != b ==> before(a, b) || before(b, a),
        !(before(a, b) && before(b, a)),
        !before(a, a),
    decreases a.len(),
{
    if a.len() > 0 {
        law_names_are_ordered(a.skip(1), a.skip(1));
    }
    if a.len() > 0 && b.len() > 0 && a[0] == b[0] {
        law_names_are_ordered(a.skip(1), b.skip(1));
        if a.skip(1) == b.skip(1) {
            assert forall|i: int| 0 < i < a.len() implies a[i] == b[i] by {
                assert(a[i] == a.skip(1)[i - 1]);
                assert(b[i] == b.skip(1)[i - 1]);
            }
            assert(a.len() == a.skip(1).len() + 1 && b.len() == b.skip(1).len() + 1);
            assert(a =~= b);
        }
    } else if a.len() == 0 && b.len() == 0 {
        assert(a =~= b);
    }
}

/// What comes before a name that comes before another comes before that.
pub proof fn law_order_is_transitive(a: Seq<char>, b: Seq<char>, c: Seq<char>)
    requires
        before(a, b),
        before(b, c),
    ensures
        before(a, c),
    decreases a.len(),
{
    if a.len() > 0 && a[0] == b[0] && b[0] == c[0] {
        law_order_is_transitive(a.skip(1), b.skip(1), c.skip(1));
    }
}

/// Whether `a` comes before `b`.
pub fn is_before(a: &str, b: &str) -> (r: bool)
    ensures
        r == before(a@, b@),
{
    let x = text::chars_of(a);
    let y = text::chars_of(b);
    let mut i: usize = 0;
    assert(a@.skip(0) =~= a@);
    assert(b@.skip(0) =~= b@);
    while i < x.len() && i < y.len()
        invariant
            i <= x@.len(),
            i <= y@.len(),
            x@ == a@,
            y@ == b@,
            before(a@, b@) == before(a@.skip(i as int), b@.skip(i as int)),
        decreases x.len() - i,
    {
        assert(a@.skip(i as int)[0] == x@[i as int]);
        assert(b@.skip(i as int)[0] == y@[i as int]);
        if x[i] != y[i] {
            return x[i] < y[i];
        }
        assert(a@.skip(i as int).skip(1) =~= a@.skip(i + 1));
        assert(b@.skip(i as int).skip(1) =~= b@.skip(i + 1));
        i += 1;
    }
    y.len() > i
}

/// What a list holds that has one name more.
pub proof fn lemma_push_contains<A>(s: Seq<A>, x: A, y: A)
    ensures
        s.push(x).contains(y) == (s.contains(y) || x == y),
{
    if s.contains(y) {
        let i = choose|i: int| 0 <= i < s.len() && s[i] == y;
        assert(s.push(x)[i] == y);
    }
    if x == y {
        assert(s.push(x)[s.len() as int] == y);
    }
}

/// Whether names stand in order, none twice.
pub open spec fn in_order(names: Seq<Seq<char>>) -> bool {
    forall|i: int, j: int| 0 <= i < j < names.len() ==> before(names[i], names[j])
}

/// The names of entries.
pub open spec fn names_of<V: DeepView>(entries: Seq<(String, V)>) -> Seq<Seq<char>> {
    Seq::new(entries.len(), |i: int| entries[i].0@)
}

/// What entries stand for.
pub open spec fn entries_view<V: DeepView>(entries: Seq<(String, V)>) -> Map<Seq<char>, V::V>
    decreases entries.len(),
{
    if entries.len() == 0 {
        Map::empty()
    } else {
        entries_view(entries.drop_last()).insert(entries.last().0@, entries.last().1.deep_view())
    }
}

/// Values under names, in the order of the names.
pub struct SortedMap<V: DeepView> {
    entries: Vec<(String, V)>,
}

/// Whether `values` are those of the map `m` under `names`, which are all its names.
pub open spec fn listed<W>(m: Map<Seq<char>, W>, names: Seq<Seq<char>>, values: Seq<W>) -> bool {
    &&& values.len() == names.len()
    &&& forall|k: Seq<char>| #[trigger] names.contains(k) <==> m.contains_key(k)
    &&& forall|i: int| 0 <= i < names.len() ==> values[i] == m[#[trigger] names[i]]
}

impl<V: DeepView> View for SortedMap<V> {
    type V = Map<Seq<char>, V::V>;

    closed spec fn view(&self) -> Map<Seq<char>, V::V> {
        entries_view(self.entries@)
    }
}

proof fn lemma_entries<V: DeepView>(entries: Seq<(String, V)>)
    requires
        in_order(names_of(entries)),
    ensures
        forall|k: Seq<char>| #[trigger]
            entries_view(entries).contains_key(k) <==> names_of(entries).contains(k),
        forall|i: int|
            0 <= i < entries.len() ==> entries_view(entries)[(#[trigger] entries[i]).0@]
                == entries[i].1.deep_view(),
    decreases entries.len(),
{
    let names = names_of(entries);
    if entries.len() > 0 {
        let shorter = entries.drop_last();
        let last = entries.last();
        assert(names_of(shorter) =~= names.drop_last());
        lemma_entries(shorter);
        assert forall|k: Seq<char>| #[trigger]
            entries_view(entries).contains_key(k) <==> names.contains(k) by {
            assert(entries_view(shorter).contains_key(k) <==> names_of(shorter).contains(k));
            if names.contains(k) {
                let i = choose|i: int| 0 <= i < names.len() && names[i] == k;
                if i < shorter.len() {
                    assert(names_of(shorter)[i] == k);
                }
            }
            if names_of(shorter).contains(k) {
                let i = choose|i: int| 0 <= i < shorter.len() && names_of(shorter)[i] == k;
                assert(names[i] == k);
            }
            assert(names[entries.len() - 1] == last.0@);
        }
        assert forall|i: int| 0 <= i < entries.len() implies entries_view(
            entries,
        )[(#[trigger] entries[i]).0@] == entries[i].1.deep_view() by {
            if i < shorter.len() {
                assert(shorter[i] == entries[i]);
                assert(before(names[i], names[entries.len() - 1]));
                law_names_are_ordered(last.0@, last.0@);
            }
        }
    }
}

proof fn lemma_same_map<V: DeepView>(entries: Seq<(String, V)>, m: Map<Seq<char>, V::V>)
    requires
        in_order(names_of(entries)),
        forall|k: Seq<char>| #[trigger] m.contains_key(k) <==> names_of(entries).contains(k),
        forall|i: int|
            0 <= i < entries.len() ==> m[(#[trigger] entries[i]).0@] == entries[i].1.deep_view(),
    ensures
        entries_view(entries) == m,
{
    lemma_entries(entries);
    assert(entries_view(entries) =~= m) by {
        assert forall|k: Seq<char>| entries_view(entries).contains_key(k) implies entries_view(
            entries,
        )[k] == m[k] by {
            let i = choose|i: int| 0 <= i < entries.len() && names_of(entries)[i] == k;
            assert(entries[i].0@ == k);
        }
    }
}

impl<V: DeepView> SortedMap<V> {
    #[verifier::type_invariant]
    spec fn well_formed(self) -> bool {
        in_order(names_of(self.entries@))
    }

    /// No values.
    pub fn new() -> (r: Self)
        ensures
            r@ == Map::<Seq<char>, V::V>::empty(),
    {
        let entries: Vec<(String, V)> = Vec::new();
        assert(in_order(names_of(entries@)));
        SortedMap { entries }
    }

    /// Where a name stands, or would stand, and whether it is there.
    fn place(&self, name: &str) -> (r: (usize, bool))
        requires
            in_order(names_of(self.entries@)),
        ensures
            r.0 <= self.entries@.len(),
            forall|i: int| 0 <= i < r.0 ==> before((#[trigger] self.entries@[i]).0@, name@),
            r.1 ==> r.0 < self.entries@.len() && self.entries@[r.0 as int].0@ == name@,
            !r.1 ==> forall|i: int|
                r.0 <= i < self.entries@.len() ==> before(
                    name@,
                    (#[trigger] self.entries@[i]).0@,
                ),
    {
        let mut i: usize = 0;
        while i < self.entries.len()
            invariant
                i <= self.entries@.len(),
                in_order(names_of(self.entries@)),
                forall|k: int| 0 <= k < i ==> before((#[trigger] self.entries@[k]).0@, name@),
            decreases self.entries.len() - i,
        {
            let here = self.entries[i].0.as_str();
            if text::same(here, name) {
                return (i, true);
            }
            if !is_before(here, name) {
                proof {
                    law_names_are_ordered(here@, name@);
                    let names = names_of(self.entries@);
                    assert forall|k: int| i <= k < self.entries@.len() implies before(
                        name@,
                        (#[trigger] self.entries@[k]).0@,
                    ) by {
                        if k > i {
                            assert(before(names[i as int], names[k]));
                            law_order_is_transitive(name@, here@, self.entries@[k].0@);
                        }
                    }
                }
                return (i, false);
            }
            i += 1;
        }
        (i, false)
    }

    /// Puts a value under a name, in the place of the one that was there.
    pub fn insert(&mut self, name: &str, value: V)
        ensures
            final(self)@ == old(self)@.insert(name@, value.deep_view()),
    {
        proof {
            use_type_invariant(&*self);
        }
        let (i, there) = self.place(name);
        let ghost first = self.entries@;
        let ghost m = self@;
        let mut rest: Vec<(String, V)> = Vec::new();
        std::mem::swap(&mut rest, &mut self.entries);
        let entry = (name.to_owned(), value);
        let ghost new = entry;
        if there {
            rest.set(i, entry);
        } else {
            rest.insert(i, entry);
        }
        proof {
            lemma_entries(first);
            let names = names_of(rest@);
            let old_names = names_of(first);
            let shift: int = if there {
                0
            } else {
                1
            };
            assert(rest@.len() == first.len() + shift);
            assert forall|k: int| 0 <= k < rest@.len() implies #[trigger] rest@[k] == (if k < i {
                first[k]
            } else if k == i {
                new
            } else {
                first[k - shift]
            }) by {}
            assert forall|a: int, b: int| 0 <= a < b < names.len() implies before(
                names[a],
                names[b],
            ) by {
                if a != i && b != i {
                    let x = if a < i {
                        a
                    } else {
                        a - shift
                    };
                    let y = if b < i {
                        b
                    } else {
                        b - shift
                    };
                    assert(before(old_names[x], old_names[y]));
                } else if there {
                    assert(old_names[i as int] == name@);
                    assert(before(old_names[a], old_names[b]));
                } else if b == i {
                    assert(before(first[a].0@, name@));
                } else {
                    assert(before(name@, first[b - 1].0@));
                }
            }
            let target = m.insert(name@, value.deep_view());
            assert forall|k: Seq<char>| #[trigger] target.contains_key(k) <==> names.contains(
                k,
            ) by {
                if old_names.contains(k) {
                    let x = choose|x: int| 0 <= x < old_names.len() && old_names[x] == k;
                    let y = if x < i {
                        x
                    } else {
                        x + shift
                    };
                    if there && x == i {
                        assert(names[i as int] == k);
                    } else {
                        assert(names[y] == k);
                    }
                }
                if names.contains(k) && k != name@ {
                    let y = choose|y: int| 0 <= y < names.len() && names[y] == k;
                    let x = if y < i {
                        y
                    } else {
                        y - shift
                    };
                    assert(old_names[x] == k);
                }
                assert(names[i as int] == name@);
            }
            assert forall|k: int| 0 <= k < rest@.len() implies target[(#[trigger] rest@[k]).0@]
                == rest@[k].1.deep_view() by {
                if k != i {
                    let x = if k < i {
                        k
                    } else {
                        k - shift
                    };
                    assert(rest@[k] == first[x]);
                    if k < i {
                        assert(before(names[k], names[i as int]));
                    } else {
                        assert(before(names[i as int], names[k]));
                    }
                    law_names_are_ordered(name@, name@);
                }
            }
            lemma_same_map(rest@, target);
        }
        self.entries = rest;
    }

    /// The value under a name.
    pub fn get(&self, name: &str) -> (r: Option<&V>)
        ensures
            r.deep_view() == if self@.contains_key(name@) {
                Some(self@[name@])
            } else {
                None
            },
    {
        proof {
            use_type_invariant(self);
            lemma_entries(self.entries@);
        }
        let (i, there) = self.place(name);
        if there {
            assert(names_of(self.entries@)[i as int] == name@);
            Some(&self.entries[i].1)
        } else {
            proof {
                if names_of(self.entries@).contains(name@) {
                    let k = choose|k: int|
                        0 <= k < self.entries@.len() && names_of(self.entries@)[k] == name@;
                    assert(self.entries@[k].0@ == name@);
                    law_names_are_ordered(name@, name@);
                }
            }
            None
        }
    }

    /// The names, in order.
    pub fn names(&self) -> (out: Vec<String>)
        ensures
            in_order(out.deep_view()),
            forall|k: Seq<char>| #[trigger] out.deep_view().contains(k) <==> self@.contains_key(k),
    {
        proof {
            use_type_invariant(self);
            lemma_entries(self.entries@);
        }
        let mut out: Vec<String> = Vec::new();
        let mut i: usize = 0;
        while i < self.entries.len()
            invariant
                i <= self.entries@.len(),
                out@.len() == i,
                forall|k: int| 0 <= k < i ==> (#[trigger] out@[k])@ == self.entries@[k].0@,
            decreases self.entries.len() - i,
        {
            out.push(self.entries[i].0.clone());
            i += 1;
        }
        assert(out.deep_view() =~= names_of(self.entries@));
        out
    }

    /// The values, in the order of their names.
    pub fn iter(&self) -> (out: Vec<&V>)
        ensures
            exists|names: Seq<Seq<char>>| #[trigger]
                in_order(names) && listed(self@, names, out.deep_view()),
    {
        proof {
            use_type_invariant(self);
            lemma_entries(self.entries@);
        }
        let mut out: Vec<&V> = Vec::new();
        let mut i: usize = 0;
        while i < self.entries.len()
            invariant
                i <= self.entries@.len(),
                out@.len() == i,
                forall|k: int|
                    0 <= k < i ==> (#[trigger] out@[k]).deep_view()
                        == self.entries@[k].1.deep_view(),
            decreases self.entries.len() - i,
        {
            out.push(&self.entries[i].1);
            i += 1;
        }
        proof {
            let names = names_of(self.entries@);
            assert(in_order(names));
            assert forall|k: int| 0 <= k < names.len() implies self@.contains_key(
                #[trigger] names[k],
            ) && out.deep_view()[k] == self@[names[k]] by {
                assert(names.contains(names[k]));
                assert(self.entries@[k].0@ == names[k]);
            }
        }
        out
    }
}

} // verus!
