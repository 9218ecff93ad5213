//! The tool registry: a name-keyed map of capability handles with a
//! unique-name invariant.
//!
//! The registry is generic over the handle type, so the asynchronous
//! capability objects of the surrounding program can be stored without the
//! library reading into them. Registration fails on a name conflict and a
//! failed registration never mutates the registry at all; lookups during
//! dispatch work on an isolated value, so cloning the registry (its handles
//! are typically shared references) gives readers copy-on-write isolation
//! from later registrations.

use vstd::prelude::*;

use crate::parser::str_eq;

verus! {

/// Why a registry operation was refused.
#[derive(Clone, Copy, PartialEq, Eq, Structural, Debug)]
pub enum RegistryError {
    /// A capability with this name is already registered.
    Conflict,
    /// No capability with this name is registered.
    NotFound,
}

/// One registered capability: its unique name and its handle.
pub struct RegistryEntry<H> {
    pub name: String,
    pub handle: H,
}

/// The map held by a sequence of registry entries; later entries shadow
/// earlier ones, though under the unique-name invariant nothing is shadowed.
pub open spec fn entries_map<H>(s: Seq<RegistryEntry<H>>) -> Map<Seq<char>, H>
    decreases s.len(),
{
    if s.len() == 0 {
        Map::empty()
    } else {
        entries_map(s.drop_last()).insert(s.last().name@, s.last().handle)
    }
}

/// No two entries share a name.
pub open spec fn unique_names<H>(s: Seq<RegistryEntry<H>>) -> bool {
    forall|i: int, j: int| 0 <= i < j < s.len() ==> s[i].name@ != s[j].name@
}

proof fn lemma_entries_map_props<H>(s: Seq<RegistryEntry<H>>)
    ensures
        forall|k: Seq<char>|
            #[trigger] entries_map(s).contains_key(k) <==> exists|i: int|
                0 <= i < s.len() && s[i].name@ == k,
        unique_names(s) ==> forall|i: int|
            0 <= i < s.len() ==> entries_map(s).contains_key(#[trigger] s[i].name@)
                && entries_map(s)[s[i].name@] == s[i].handle,
    decreases s.len(),
{
    if s.len() > 0 {
        lemma_entries_map_props(s.drop_last());
        assert forall|k: Seq<char>| #[trigger]
            entries_map(s).contains_key(k) implies exists|i: int|
            0 <= i < s.len() && s[i].name@ == k by {
            if k == s.last().name@ {
                assert(s[s.len() - 1].name@ == k);
            } else {
                assert(entries_map(s.drop_last()).contains_key(k));
                let i = choose|i: int| 0 <= i < s.drop_last().len() && s.drop_last()[i].name@ == k;
                assert(s.drop_last()[i] == s[i]);
                assert(s[i].name@ == k);
            }
        }
        assert forall|k: Seq<char>|
            (exists|i: int| 0 <= i < s.len() && s[i].name@ == k) implies #[trigger] entries_map(
            s,
        ).contains_key(k) by {
            let i = choose|i: int| 0 <= i < s.len() && s[i].name@ == k;
            if i < s.len() - 1 {
                assert(s.drop_last()[i].name@ == k);
                assert(entries_map(s.drop_last()).contains_key(k));
            }
        }
        if unique_names(s) {
            assert(unique_names(s.drop_last()));
            assert forall|i: int| 0 <= i < s.len() implies entries_map(s).contains_key(
                #[trigger] s[i].name@,
            ) && entries_map(s)[s[i].name@] == s[i].handle by {
                if i < s.len() - 1 {
                    assert(s.drop_last()[i] == s[i]);
                    assert(s[i].name@ != s.last().name@);
                }
            }
        }
    }
}

proof fn lemma_entries_map_remove<H>(s: Seq<RegistryEntry<H>>, i: int)
    requires
        unique_names(s),
        0 <= i < s.len(),
    ensures
        entries_map(s.remove(i)) == entries_map(s).remove(s[i].name@),
        unique_names(s.remove(i)),
    decreases s.len(),
{
    lemma_entries_map_props(s);
    lemma_entries_map_props(s.drop_last());
    assert forall|a: int, b: int| 0 <= a < b < s.remove(i).len() implies s.remove(i)[a].name@
        != s.remove(i)[b].name@ by {
        let a0 = if a < i { a } else { a + 1 };
        let b0 = if b < i { b } else { b + 1 };
        assert(s.remove(i)[a] == s[a0] && s.remove(i)[b] == s[b0]);
    }
    if i == s.len() - 1 {
        assert(s.remove(i) =~= s.drop_last());
        assert(!entries_map(s.drop_last()).contains_key(s[i].name@));
        assert(entries_map(s.remove(i)) =~= entries_map(s).remove(s[i].name@));
    } else {
        lemma_entries_map_remove(s.drop_last(), i);
        assert(s.remove(i).drop_last() =~= s.drop_last().remove(i));
        assert(s.remove(i).last() == s.last());
        assert(s[i].name@ != s.last().name@);
        assert(entries_map(s.remove(i)) == entries_map(s.drop_last().remove(i)).insert(
            s.last().name@,
            s.last().handle,
        ));
        assert(entries_map(s.remove(i)) =~= entries_map(s).remove(s[i].name@));
    }
}

/// A name-keyed registry of capability handles with unique names.
pub struct ToolRegistry<H> {
    entries: Vec<RegistryEntry<H>>,
}

impl<H> View for ToolRegistry<H> {
    type V = Map<Seq<char>, H>;

    closed spec fn view(&self) -> Map<Seq<char>, H> {
        entries_map(self.entries@)
    }
}

impl<H> ToolRegistry<H> {
    /// Every registered name is unique.
    pub closed spec fn wf(&self) -> bool {
        unique_names(self.entries@)
    }

    pub fn new() -> (r: ToolRegistry<H>)
        ensures
            r.wf(),
            r@ == Map::<Seq<char>, H>::empty(),
    {
        let r = ToolRegistry { entries: Vec::new() };
        proof {
            assert(r.entries@ =~= Seq::<RegistryEntry<H>>::empty());
        }
        r
    }

    /// The index of the entry holding `name`, if one does.
    fn find(&self, name: &str) -> (r: Option<usize>)
        requires
            self.wf(),
        ensures
            match r {
                Some(i) => i < self.entries@.len() && self.entries@[i as int].name@ == name@
                    && self@.contains_key(name@),
                None => !self@.contains_key(name@),
            },
    {
        proof {
            lemma_entries_map_props(self.entries@);
        }
        let mut i: usize = 0;
        while i < self.entries.len()
            invariant
                i <= self.entries.len(),
                forall|j: int| 0 <= j < i ==> self.entries@[j].name@ != name@,
                self.wf(),
            decreases self.entries.len() - i,
        {
            if str_eq(self.entries[i].name.as_str(), name) {
                proof {
                    lemma_entries_map_props(self.entries@);
                }
                return Some(i);
            }
            i = i + 1;
        }
        proof {
            lemma_entries_map_props(self.entries@);
        }
        None
    }

    /// Register a capability under `name`. Fails with `Conflict`, leaving the
    /// registry exactly as it was, if and only if the name is already taken.
    pub fn register_tool(&mut self, name: String, handle: H) -> (r: Result<(), RegistryError>)
        requires
            old(self).wf(),
        ensures
            final(self).wf(),
            match r {
                Ok(u) => !old(self)@.contains_key(name@) && final(self)@ == old(self)@.insert(
                    name@,
                    handle,
                ),
                Err(e) => e == RegistryError::Conflict && old(self)@.contains_key(name@)
                    && final(self)@ == old(self)@ && *final(self) == *old(self),
            },
    {
        match self.find(name.as_str()) {
            Some(_) => Err(RegistryError::Conflict),
            None => {
                let ghost before = self.entries@;
                proof {
                    lemma_entries_map_props(before);
                }
                self.entries.push(RegistryEntry { name, handle });
                proof {
                    assert(self.entries@.drop_last() =~= before);
                    assert(forall|j: int|
                        0 <= j < before.len() ==> #[trigger] before[j].name@ != name@);
                    assert forall|a: int, b: int|
                        0 <= a < b < self.entries@.len() implies self.entries@[a].name@
                        != self.entries@[b].name@ by {
                        if b < before.len() {
                            assert(self.entries@[a] == before[a] && self.entries@[b] == before[b]);
                        } else {
                            assert(self.entries@[a] == before[a]);
                        }
                    }
                }
                Ok(())
            },
        }
    }

    /// Unregister the capability under `name`. Fails with `NotFound`, leaving
    /// the registry exactly as it was, if and only if the name is absent.
    pub fn unregister_tool(&mut self, name: &str) -> (r: Result<(), RegistryError>)
        requires
            old(self).wf(),
        ensures
            final(self).wf(),
            match r {
                Ok(u) => old(self)@.contains_key(name@) && final(self)@ == old(self)@.remove(
                    name@,
                ),
                Err(e) => e == RegistryError::NotFound && !old(self)@.contains_key(name@)
                    && final(self)@ == old(self)@ && *final(self) == *old(self),
            },
    {
        match self.find(name) {
            Some(i) => {
                proof {
                    lemma_entries_map_remove(self.entries@, i as int);
                }
                self.entries.remove(i);
                Ok(())
            },
            None => Err(RegistryError::NotFound),
        }
    }

    /// Look up the capability registered under `name`.
    pub fn get_tool(&self, name: &str) -> (r: Option<&H>)
        requires
            self.wf(),
        ensures
            match r {
                Some(h) => self@.contains_key(name@) && *h == self@[name@],
                None => !self@.contains_key(name@),
            },
    {
        match self.find(name) {
            Some(i) => {
                proof {
                    lemma_entries_map_props(self.entries@);
                }
                Some(&self.entries[i].handle)
            },
            None => None,
        }
    }

    /// How many capabilities are registered.
    pub fn len(&self) -> (n: usize)
        requires
            self.wf(),
        ensures
            n == self@.dom().len(),
    {
        proof {
            lemma_entries_map_len(self.entries@);
        }
        self.entries.len()
    }
}

proof fn lemma_entries_map_len<H>(s: Seq<RegistryEntry<H>>)
    requires
        unique_names(s),
    ensures
        entries_map(s).dom().len() == s.len(),
        entries_map(s).dom().finite(),
    decreases s.len(),
{
    if s.len() > 0 {
        lemma_entries_map_len(s.drop_last());
        lemma_entries_map_props(s.drop_last());
        assert(!entries_map(s.drop_last()).contains_key(s.last().name@));
        vstd::set::axiom_set_insert_len(entries_map(s.drop_last()).dom(), s.last().name@);
        assert(entries_map(s).dom() =~= entries_map(s.drop_last()).dom().insert(s.last().name@));
    }
}

} // verus!
