//! The two registries that unification consults: which types implement
//! which interfaces, and which refined types delegate an interface to a
//! base type.

use vstd::prelude::*;

use crate::ty::{SpecTy, Ty, ty_clone};

verus! {

/// Registered implementations, as `(type name, interface name)` pairs.
pub struct InterfaceRegistry {
    impls: Vec<(String, String)>,
}

/// `tname` implements `iface` according to the registered pairs.
pub open spec fn spec_implements(
    impls: Seq<(Seq<char>, Seq<char>)>,
    tname: Seq<char>,
    iface: Seq<char>,
) -> bool {
    exists|i: int| 0 <= i < impls.len() && #[trigger] impls[i] == (tname, iface)
}

impl View for InterfaceRegistry {
    type V = Seq<(Seq<char>, Seq<char>)>;

    closed spec fn view(&self) -> Seq<(Seq<char>, Seq<char>)> {
        Seq::new(self.impls@.len(), |i: int| (self.impls@[i].0@, self.impls@[i].1@))
    }
}

impl InterfaceRegistry {
    /// An empty registry.
    pub fn new() -> (r: InterfaceRegistry)
        ensures
            r@ == Seq::<(Seq<char>, Seq<char>)>::empty(),
    {
        InterfaceRegistry { impls: Vec::new() }
    }

    /// Records that `tname` implements `iface`.
    pub fn register(&mut self, tname: String, iface: String)
        ensures
            final(self)@ == old(self)@.push((tname@, iface@)),
    {
        self.impls.push((tname, iface));
        assert(self@ =~= old(self)@.push((tname@, iface@)));
    }

    /// Whether `tname` implements `iface`.
    pub fn type_implements(&self, tname: &String, iface: &String) -> (r: bool)
        ensures
            r == spec_implements(self@, tname@, iface@),
    {
        let mut i: usize = 0;
        while i < self.impls.len()
            invariant
                i <= self.impls@.len(),
                forall|j: int|
                    0 <= j < i ==> #[trigger] self@[j] != (tname@, iface@),
            decreases self.impls@.len() - i,
        {
            if self.impls[i].0 == *tname && self.impls[i].1 == *iface {
                assert(self@[i as int] == (tname@, iface@));
                return true;
            }
            assert(self@[i as int] == (self.impls@[i as int].0@, self.impls@[i as int].1@));
            i += 1;
        }
        false
    }
}

/// A `refines` delegation: the refined type `tname` delegates the
/// interface `interface_name` to its base type `base_ty`.
pub struct RefinesEntry {
    pub tname: String,
    pub interface_name: String,
    pub base_ty: Ty,
}

/// Mathematical counterpart of [`RefinesEntry`].
pub struct SpecRefinesEntry {
    pub tname: Seq<char>,
    pub interface_name: Seq<char>,
    pub base_ty: SpecTy,
}

impl View for RefinesEntry {
    type V = SpecRefinesEntry;

    open spec fn view(&self) -> SpecRefinesEntry {
        SpecRefinesEntry {
            tname: self.tname@,
            interface_name: self.interface_name@,
            base_ty: self.base_ty@,
        }
    }
}

/// The registered delegations, in registration order.
pub struct RefinesRegistry {
    entries: Vec<RefinesEntry>,
}

impl View for RefinesRegistry {
    type V = Seq<SpecRefinesEntry>;

    closed spec fn view(&self) -> Seq<SpecRefinesEntry> {
        Seq::new(self.entries@.len(), |i: int| self.entries@[i]@)
    }
}

/// The base type of the first delegation of `iface` registered for
/// `tname`, if any.
pub open spec fn spec_first_delegation(
    entries: Seq<SpecRefinesEntry>,
    tname: Seq<char>,
    iface: Seq<char>,
) -> Option<SpecTy>
    decreases entries.len(),
{
    if entries.len() == 0 {
        None
    } else if entries[0].tname == tname && entries[0].interface_name == iface {
        Some(entries[0].base_ty)
    } else {
        spec_first_delegation(entries.drop_first(), tname, iface)
    }
}

impl RefinesRegistry {
    /// An empty registry.
    pub fn new() -> (r: RefinesRegistry)
        ensures
            r@ == Seq::<SpecRefinesEntry>::empty(),
    {
        RefinesRegistry { entries: Vec::new() }
    }

    /// Records a delegation.
    pub fn register(&mut self, entry: RefinesEntry)
        ensures
            final(self)@ == old(self)@.push(entry@),
    {
        let ghost e = entry@;
        self.entries.push(entry);
        assert(self@ =~= old(self)@.push(e));
    }

    /// Number of delegations.
    pub fn len(&self) -> (r: usize)
        ensures
            r == self@.len(),
    {
        self.entries.len()
    }

    /// The `i`-th delegation.
    pub fn entry(&self, i: usize) -> (r: &RefinesEntry)
        requires
            i < self@.len(),
        ensures
            r@ == self@[i as int],
    {
        &self.entries[i]
    }

    /// The base type of the first delegation of `iface` registered for
    /// `tname`, if any.
    pub fn first_delegation(&self, tname: &String, iface: &String) -> (r: Option<Ty>)
        ensures
            r matches Some(t) ==> spec_first_delegation(self@, tname@, iface@) == Some(t@),
            r is None ==> spec_first_delegation(self@, tname@, iface@) is None,
    {
        let ghost all = self@;
        assert(all.subrange(0, all.len() as int) =~= all);
        let mut i: usize = 0;
        while i < self.entries.len()
            invariant
                i <= self.entries@.len(),
                all == self@,
                all.len() == self.entries@.len(),
                spec_first_delegation(all, tname@, iface@) == spec_first_delegation(
                    all.subrange(i as int, all.len() as int),
                    tname@,
                    iface@,
                ),
            decreases self.entries@.len() - i,
        {
            let ghost rest = all.subrange(i as int, all.len() as int);
            assert(rest[0] == self.entries@[i as int]@);
            if self.entries[i].tname == *tname && self.entries[i].interface_name == *iface {
                return Some(ty_clone(&self.entries[i].base_ty));
            }
            assert(rest.drop_first() =~= all.subrange(i + 1, all.len() as int));
            i += 1;
        }
        None
    }
}

} // verus!
