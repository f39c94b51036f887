//! Named device profiles: a saved address and a set of settings.

pub mod laws;

use crate::settings::Settings;
use crate::text;
use vstd::prelude::*;
use vstd::string::*;

verus! {

#[derive(Debug)]
pub struct Profile {
    pub name: String,
    pub address: String,
    pub settings: Settings,
}

/// The contents of a profile.
#[verifier::ext_equal]
pub struct ProfileView {
    pub name: Seq<char>,
    pub address: Seq<char>,
    pub settings: Settings,
}

impl View for Profile {
    type V = ProfileView;

    open spec fn view(&self) -> ProfileView {
        ProfileView { name: self.name@, address: self.address@, settings: self.settings }
    }
}

impl Clone for Profile {
    fn clone(&self) -> (copy: Profile)
        ensures
            copy@ == self@,
    {
        Profile {
            name: self.name.clone(),
            address: self.address.clone(),
            settings: self.settings,
        }
    }
}

impl PartialEq for Profile {
    fn eq(&self, other: &Profile) -> (b: bool) {
        self.name == other.name && self.address == other.address && self.settings == other.settings
    }
}

impl vstd::std_specs::cmp::PartialEqSpecImpl for Profile {
    open spec fn obeys_eq_spec() -> bool {
        true
    }

    open spec fn eq_spec(&self, other: &Profile) -> bool {
        self.name@ == other.name@ && self.address@ == other.address@ && self.settings.same(
            other.settings,
        )
    }
}

/// The saved profiles.
#[derive(Debug)]
pub struct Store {
    pub profiles: Vec<Profile>,
    /// Name of the profile that was selected last.
    pub last: Option<String>,
}

/// The contents of a store.
#[verifier::ext_equal]
pub struct StoreView {
    pub profiles: Seq<ProfileView>,
    pub last: Option<Seq<char>>,
}

/// The contents of a text, where there is one.
pub open spec fn text_view(s: Option<String>) -> Option<Seq<char>> {
    match s {
        Some(s) => Some(s@),
        None => None,
    }
}

impl View for Store {
    type V = StoreView;

    open spec fn view(&self) -> StoreView {
        StoreView {
            profiles: Seq::new(self.profiles@.len(), |i: int| self.profiles@[i]@),
            last: text_view(self.last),
        }
    }
}

/// The profiles that are not of this name, in their order.
pub open spec fn others(ps: Seq<ProfileView>, name: Seq<char>) -> Seq<ProfileView> {
    ps.filter(|p: ProfileView| p.name != name)
}

impl StoreView {
    /// Whether no two profiles share a name.
    pub open spec fn distinct(self) -> bool {
        forall|i: int, j: int|
            0 <= i < j < self.profiles.len() ==> #[trigger] self.profiles[i].name
                != #[trigger] self.profiles[j].name
    }

    /// Whether `i` is where the first profile of this name stands.
    pub open spec fn first_at(self, name: Seq<char>, i: int) -> bool {
        &&& 0 <= i < self.profiles.len()
        &&& self.profiles[i].name == name
        &&& forall|j: int| 0 <= j < i ==> (#[trigger] self.profiles[j]).name != name
    }

    /// Whether there is a profile of this name.
    pub open spec fn has(self, name: Seq<char>) -> bool {
        exists|i: int| 0 <= i < self.profiles.len() && (#[trigger] self.profiles[i]).name == name
    }

    /// Where the first profile of this name stands.
    pub open spec fn index_of(self, name: Seq<char>) -> int {
        choose|i: int| self.first_at(name, i)
    }

    /// The first profile of this name.
    pub open spec fn lookup(self, name: Seq<char>) -> Option<ProfileView> {
        if self.has(name) {
            Some(self.profiles[self.index_of(name)])
        } else {
            None
        }
    }

    /// The store once a profile was saved: it takes the place of the first of its
    /// name, or comes last where there is none, and is selected.
    pub open spec fn upserted(self, p: ProfileView) -> StoreView {
        StoreView {
            profiles: if self.has(p.name) {
                self.profiles.update(self.index_of(p.name), p)
            } else {
                self.profiles.push(p)
            },
            last: Some(p.name),
        }
    }

    /// The store once all profiles of this name were deleted. It is no longer
    /// selected.
    pub open spec fn deleted(self, name: Seq<char>) -> StoreView {
        StoreView {
            profiles: others(self.profiles, name),
            last: if self.last == Some(name) {
                None
            } else {
                self.last
            },
        }
    }
}

/// A store without profiles.
pub open spec fn empty_store() -> StoreView {
    StoreView { profiles: Seq::empty(), last: None }
}

impl Default for Store {
    fn default() -> (s: Store)
        ensures
            s@ == empty_store(),
    {
        let s = Store { profiles: Vec::new(), last: None };
        proof {
            assert(s@ =~= empty_store());
        }
        s
    }
}

/// The first of a name is unique, and there is one as soon as there is any.
pub(crate) proof fn lemma_first(s: StoreView, name: Seq<char>)
    ensures
        s.has(name) ==> s.first_at(name, s.index_of(name)),
        forall|i: int| #[trigger] s.first_at(name, i) ==> s.has(name) && i == s.index_of(name),
{
    if s.has(name) {
        let i = choose|i: int|
            0 <= i < s.profiles.len() && (#[trigger] s.profiles[i]).name == name;
        lemma_first_up_to(s, name, i);
    }
    assert forall|i: int| #[trigger] s.first_at(name, i) implies s.has(name) && i == s.index_of(
        name,
    ) by {
        assert(s.profiles[i].name == name);
        let k = s.index_of(name);
        assert(s.first_at(name, k));
        if i < k {
            assert(s.profiles[i].name != name);
        } else if k < i {
            assert(s.profiles[k].name != name);
        }
    }
}

proof fn lemma_first_up_to(s: StoreView, name: Seq<char>, i: int)
    requires
        0 <= i < s.profiles.len(),
        s.profiles[i].name == name,
    ensures
        exists|k: int| s.first_at(name, k),
    decreases i,
{
    if exists|j: int| 0 <= j < i && (#[trigger] s.profiles[j]).name == name {
        let j = choose|j: int| 0 <= j < i && (#[trigger] s.profiles[j]).name == name;
        lemma_first_up_to(s, name, j);
    } else {
        assert(s.first_at(name, i));
    }
}

impl Store {
    /// Where the first profile of this name stands.
    fn find(&self, name: &str) -> (at: Option<usize>)
        ensures
            match at {
                Some(i) => self@.first_at(name@, i as int),
                None => !self@.has(name@),
            },
    {
        let mut i: usize = 0;
        while i < self.profiles.len()
            invariant
                i <= self.profiles@.len(),
                forall|j: int| 0 <= j < i ==> (#[trigger] self@.profiles[j]).name != name@,
            decreases self.profiles@.len() - i,
        {
            assert(self@.profiles[i as int] == self.profiles@[i as int]@);
            if text::same_text(self.profiles[i].name.as_str(), name) {
                return Some(i);
            }
            i = i + 1;
        }
        None
    }

    /// The first profile of this name.
    pub fn get(&self, name: &str) -> (p: Option<&Profile>)
        ensures
            match p {
                Some(p) => self@.lookup(name@) == Some(p@),
                None => self@.lookup(name@) is None,
            },
    {
        proof {
            lemma_first(self@, name@);
        }
        match self.find(name) {
            Some(i) => Some(&self.profiles[i]),
            None => None,
        }
    }

    /// Inserts a profile, or overwrites the one of its name.
    pub fn upsert(&mut self, profile: Profile)
        ensures
            final(self)@ == old(self)@.upserted(profile@),
    {
        proof {
            lemma_first(self@, profile.name@);
        }
        let ghost new = profile@;
        let ghost before = self@;
        let at = self.find(profile.name.as_str());
        self.last = Some(profile.name.clone());
        match at {
            Some(i) => {
                self.profiles.set(i, profile);
            },
            None => {
                self.profiles.push(profile);
            },
        }
        proof {
            assert(self@.profiles =~= before.upserted(new).profiles);
            assert(self@ =~= before.upserted(new));
        }
    }

    /// Deletes all profiles of this name.
    pub fn delete(&mut self, name: &str)
        ensures
            final(self)@ == old(self)@.deleted(name@),
    {
        let ghost before = self@;
        let ghost keep = |p: ProfileView| p.name != name@;
        let mut i: usize = 0;
        proof {
            assert(before.profiles.take(0) =~= Seq::empty());
            assert(before.profiles.skip(0) =~= before.profiles);
            assert(before.profiles.take(0).filter(keep) =~= Seq::empty()) by {
                reveal(Seq::filter);
            }
            assert(self@.profiles =~= before.profiles.take(0).filter(keep) + before.profiles.skip(
                0,
            ));
        }
        let ghost mut done: int = 0;
        while i < self.profiles.len()
            invariant
                keep == (|p: ProfileView| p.name != name@),
                0 <= done <= before.profiles.len(),
                i <= self.profiles@.len(),
                i == before.profiles.take(done).filter(keep).len(),
                self@.profiles == before.profiles.take(done).filter(keep) + before.profiles.skip(
                    done,
                ),
                self.last == old(self).last,
            decreases self.profiles@.len() - i,
        {
            let ghost part = before.profiles.take(done);
            proof {
                assert(self@.profiles[i as int] == before.profiles[done]);
                assert(self@.profiles[i as int] == self.profiles@[i as int]@);
                assert(before.profiles.take(done + 1).drop_last() =~= part);
                reveal(Seq::filter);
            }
            let ghost earlier = self@.profiles;
            if text::same_text(self.profiles[i].name.as_str(), name) {
                self.profiles.remove(i);
                proof {
                    assert(self@.profiles =~= earlier.remove(i as int));
                    assert(self@.profiles =~= part.filter(keep) + before.profiles.skip(done + 1));
                }
            } else {
                i = i + 1;
                proof {
                    assert(self@.profiles =~= part.filter(keep).push(before.profiles[done])
                        + before.profiles.skip(done + 1));
                }
            }
            proof {
                done = done + 1;
            }
        }
        proof {
            assert(done == before.profiles.len());
            assert(before.profiles.take(done) =~= before.profiles);
            assert(self@.profiles =~= before.profiles.filter(keep));
        }
        let selected = match &self.last {
            Some(last) => text::same_text(last.as_str(), name),
            None => false,
        };
        if selected {
            self.last = None;
        }
        proof {
            assert(self@ =~= before.deleted(name@));
        }
    }
}

} // verus!
