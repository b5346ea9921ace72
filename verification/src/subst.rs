//! Substitutions: a finite map from type-parameter names to types.

use vstd::prelude::*;

use crate::ty::{SpecTy, Ty};

verus! {

/// The map that a list of `(name, type)` entries denotes; a later entry
/// for a name overrides an earlier one.
pub open spec fn entries_map(s: Seq<(String, Ty)>) -> Map<Seq<char>, SpecTy>
    decreases s.len(),
{
    if s.len() == 0 {
        Map::empty()
    } else {
        entries_map(s.drop_last()).insert(s.last().0@, s.last().1@)
    }
}

/// No name occurs twice among the entries.
pub open spec fn distinct_names(s: Seq<(String, Ty)>) -> bool {
    forall|i: int, j: int| 0 <= i < j < s.len() ==> #[trigger] s[i].0@ != #[trigger] s[j].0@
}

pub proof fn lemma_entries_map(s: Seq<(String, Ty)>)
    requires
        distinct_names(s),
    ensures
        forall|i: int|
            0 <= i < s.len() ==> #[trigger] entries_map(s).contains_key(s[i].0@) && entries_map(
                s,
            )[s[i].0@] == s[i].1@,
        forall|k: Seq<char>|
            #[trigger] entries_map(s).contains_key(k) ==> exists|i: int|
                0 <= i < s.len() && s[i].0@ == k,
    decreases s.len(),
{
    if s.len() > 0 {
        let p = s.drop_last();
        let last = s.last();
        assert(distinct_names(p)) by {
            assert forall|a: int, b: int| 0 <= a < b < p.len() implies #[trigger] p[a].0@
                != #[trigger] p[b].0@ by {
                assert(s[a] == p[a] && s[b] == p[b]);
            }
        }
        lemma_entries_map(p);
        assert forall|i: int| 0 <= i < s.len() implies #[trigger] entries_map(s).contains_key(
            s[i].0@,
        ) && entries_map(s)[s[i].0@] == s[i].1@ by {
            if i < s.len() - 1 {
                assert(p[i] == s[i]);
                assert(s[i].0@ != s[s.len() - 1].0@);
                assert(entries_map(p).contains_key(p[i].0@));
            }
        }
        assert forall|k: Seq<char>| #[trigger] entries_map(s).contains_key(k) implies exists|i: int|
            0 <= i < s.len() && s[i].0@ == k by {
            if k != last.0@ {
                assert(entries_map(p).contains_key(k));
                let i = choose|i: int| 0 <= i < p.len() && p[i].0@ == k;
                assert(s[i] == p[i]);
            } else {
                assert(s[s.len() - 1].0@ == k);
            }
        }
    }
}

/// Substitutions: type-parameter name ↦ concrete type.
pub struct Substitutions {
    entries: Vec<(String, Ty)>,
}

impl View for Substitutions {
    type V = Map<Seq<char>, SpecTy>;

    closed spec fn view(&self) -> Map<Seq<char>, SpecTy> {
        entries_map(self.entries@)
    }
}

impl Substitutions {
    #[verifier::type_invariant]
    spec fn inv(self) -> bool {
        distinct_names(self.entries@)
    }

    pub closed spec fn spec_len(&self) -> nat {
        self.entries@.len()
    }

    /// The empty substitution.
    pub fn new() -> (r: Substitutions)
        ensures
            r@ == Map::<Seq<char>, SpecTy>::empty(),
    {
        Substitutions { entries: Vec::new() }
    }

    /// Looks up the binding of `name`.
    pub fn get(&self, name: &String) -> (r: Option<&Ty>)
        ensures
            r matches Some(t) ==> self@.contains_key(name@) && t@ == self@[name@],
            r is None ==> !self@.contains_key(name@),
    {
        proof {
            use_type_invariant(self);
            lemma_entries_map(self.entries@);
        }
        let mut i: usize = 0;
        while i < self.entries.len()
            invariant
                i <= self.entries@.len(),
                forall|j: int| 0 <= j < i ==> (#[trigger] self.entries@[j]).0@ != name@,
            decreases self.entries@.len() - i,
        {
            if self.entries[i].0 == *name {
                proof {
                    use_type_invariant(self);
                    lemma_entries_map(self.entries@);
                }
                return Some(&self.entries[i].1);
            }
            i += 1;
        }
        None
    }

    /// Binds `name` to `ty`, replacing any earlier binding of `name`.
    pub fn insert(&mut self, name: String, ty: Ty)
        ensures
            final(self)@ == old(self)@.insert(name@, ty@),
    {
        proof {
            use_type_invariant(&*self);
            lemma_entries_map(self.entries@);
        }
        let ghost old_entries = self.entries@;
        let mut entries: Vec<(String, Ty)> = Vec::new();
        std::mem::swap(&mut entries, &mut self.entries);
        let mut i: usize = 0;
        while i < entries.len()
            invariant
                i <= entries@.len(),
                entries@ == old_entries,
                distinct_names(old_entries),
                old(self)@ == entries_map(old_entries),
                forall|j: int| 0 <= j < i ==> (#[trigger] entries@[j]).0@ != name@,
            decreases entries@.len() - i,
        {
            if entries[i].0 == name {
                let ghost key = name@;
                let ghost tv = ty@;
                entries.set(i, (name, ty));
                proof {
                    lemma_entries_map(old_entries);
                    let s = entries@;
                    assert(distinct_names(s)) by {
                        assert forall|a: int, b: int| 0 <= a < b < s.len() implies #[trigger] s[a].0@
                            != #[trigger] s[b].0@ by {
                            if a != i && b != i {
                                assert(s[a] == old_entries[a] && s[b] == old_entries[b]);
                            } else if a == i {
                                assert(s[b] == old_entries[b]);
                            } else {
                                assert(s[a] == old_entries[a]);
                            }
                        }
                    }
                    lemma_entries_map(s);
                    let m_old = entries_map(old_entries);
                    let m_new = entries_map(s);
                    assert(m_new =~= m_old.insert(key, tv)) by {
                        assert forall|k: Seq<char>| m_new.contains_key(k) <==> #[trigger] m_old.insert(
                            key,
                            tv,
                        ).contains_key(k) by {
                            if m_new.contains_key(k) {
                                let x = choose|x: int| 0 <= x < s.len() && s[x].0@ == k;
                                if x != i {
                                    assert(s[x] == old_entries[x]);
                                    assert(m_old.contains_key(old_entries[x].0@));
                                }
                            }
                            if k == key {
                                assert(s[i as int].0@ == key);
                                assert(m_new.contains_key(s[i as int].0@));
                            } else if m_old.contains_key(k) {
                                let x = choose|x: int|
                                    0 <= x < old_entries.len() && old_entries[x].0@ == k;
                                assert(s[x] == old_entries[x]);
                                assert(m_new.contains_key(s[x].0@));
                            }
                        }
                        assert forall|k: Seq<char>| #[trigger] m_new.contains_key(k) implies m_new[k]
                            == m_old.insert(key, tv)[k] by {
                            let x = choose|x: int| 0 <= x < s.len() && s[x].0@ == k;
                            assert(m_new.contains_key(s[x].0@));
                            if x != i {
                                assert(s[x] == old_entries[x]);
                                assert(s[x].0@ != s[i as int].0@);
                                assert(m_old.contains_key(old_entries[x].0@));
                            } else {
                                assert(s[x].1@ == tv);
                            }
                        }
                    }
                }
                self.entries = entries;
                return;
            }
            i += 1;
        }
        let ghost key = name@;
        entries.push((name, ty));
        proof {
            let s = entries@;
            assert(s.drop_last() =~= old_entries);
            assert(distinct_names(s)) by {
                assert forall|a: int, b: int| 0 <= a < b < s.len() implies #[trigger] s[a].0@
                    != #[trigger] s[b].0@ by {
                    if b < s.len() - 1 {
                        assert(s[a] == old_entries[a] && s[b] == old_entries[b]);
                    } else {
                        assert(s[a] == old_entries[a]);
                    }
                }
            }
        }
        self.entries = entries;
    }

    /// Number of bindings.
    pub fn len(&self) -> (r: usize)
        ensures
            r == self.spec_len(),
            self@.dom().finite(),
            self@.dom().len() == r,
    {
        proof {
            use_type_invariant(self);
            lemma_entries_map_dom(self.entries@);
        }
        self.entries.len()
    }

    /// The `i`-th binding, in insertion order.
    pub fn entry(&self, i: usize) -> (r: (&String, &Ty))
        requires
            i < self.spec_len(),
        ensures
            self@.contains_key(r.0@),
            self@[r.0@] == r.1@,
    {
        proof {
            use_type_invariant(self);
            lemma_entries_map(self.entries@);
        }
        let e = &self.entries[i];
        proof {
            assert(entries_map(self.entries@).contains_key(self.entries@[i as int].0@));
        }
        (&e.0, &e.1)
    }
}

/// Inclusion of maps is transitive.
pub proof fn lemma_submap_trans(
    a: Map<Seq<char>, SpecTy>,
    b: Map<Seq<char>, SpecTy>,
    c: Map<Seq<char>, SpecTy>,
)
    requires
        a.submap_of(b),
        b.submap_of(c),
    ensures
        a.submap_of(c),
{
    vstd::map_lib::lemma_submap_of_trans(a, b, c);
}

pub proof fn lemma_entries_map_dom(s: Seq<(String, Ty)>)
    requires
        distinct_names(s),
    ensures
        entries_map(s).dom().finite(),
        entries_map(s).dom().len() == s.len(),
    decreases s.len(),
{
    if s.len() > 0 {
        let p = s.drop_last();
        assert(distinct_names(p));
        lemma_entries_map_dom(p);
        lemma_entries_map(p);
        if entries_map(p).contains_key(s.last().0@) {
            let x = choose|x: int| 0 <= x < p.len() && p[x].0@ == s.last().0@;
            assert(s[x] == p[x]);
            assert(false);
        }
    }
}

} // verus!
