//! What holds of saved profiles.

use crate::profile::{ProfileView, StoreView};
use vstd::prelude::*;

verus! {

/// A saved profile is what its name then gives, and it is selected. No other name
/// gives anything else than before.
pub proof fn saved_profile_is_found(s: StoreView, p: ProfileView, other: Seq<char>)
    ensures
        s.upserted(p).lookup(p.name) == Some(p),
        s.upserted(p).last == Some(p.name),
        other != p.name ==> s.upserted(p).lookup(other) == s.lookup(other),
{
    let t = s.upserted(p);
    crate::profile::lemma_first(s, p.name);
    crate::profile::lemma_first(t, p.name);
    if s.has(p.name) {
        assert(t.first_at(p.name, s.index_of(p.name)));
    } else {
        assert(t.first_at(p.name, s.profiles.len() as int));
    }
    if other != p.name {
        crate::profile::lemma_first(s, other);
        crate::profile::lemma_first(t, other);
        if s.has(other) {
            assert(t.first_at(other, s.index_of(other)));
        } else if t.has(other) {
            let k = t.index_of(other);
            assert(s.profiles[k].name == other);
        }
    }
}

/// Saving under a name that is there keeps the number of profiles and their
/// places; saving under a new one adds one at the end.
pub proof fn saving_keeps_places(s: StoreView, p: ProfileView, i: int)
    requires
        0 <= i < s.profiles.len(),
    ensures
        s.upserted(p).profiles.len() == s.profiles.len() + (if s.has(p.name) {
            0int
        } else {
            1
        }),
        s.upserted(p).profiles[i].name == s.profiles[i].name,
        s.profiles[i].name != p.name ==> s.upserted(p).profiles[i] == s.profiles[i],
{
    crate::profile::lemma_first(s, p.name);
}

/// What a name gives, once a profile was added at the end.
proof fn lemma_lookup_push(s: StoreView, x: ProfileView, name: Seq<char>)
    ensures
        ({
            let t = StoreView { profiles: s.profiles.push(x), ..s };
            t.lookup(name) == (if s.has(name) {
                s.lookup(name)
            } else if x.name == name {
                Some(x)
            } else {
                None
            })
        }),
{
    let t = StoreView { profiles: s.profiles.push(x), ..s };
    crate::profile::lemma_first(s, name);
    crate::profile::lemma_first(t, name);
    if s.has(name) {
        assert(t.first_at(name, s.index_of(name)));
    } else if x.name == name {
        assert(t.first_at(name, s.profiles.len() as int));
    } else if t.has(name) {
        let k = t.index_of(name);
        assert(s.profiles[k].name == name);
    }
}

/// What a name gives depends on the profiles alone.
proof fn lemma_lookup_profiles(s: StoreView, t: StoreView, name: Seq<char>)
    requires
        s.profiles == t.profiles,
    ensures
        s.lookup(name) == t.lookup(name),
        s.has(name) == t.has(name),
{
    crate::profile::lemma_first(s, name);
    crate::profile::lemma_first(t, name);
    if s.has(name) {
        let i = s.index_of(name);
        assert(t.profiles[i].name == name);
        assert(t.first_at(name, i));
    }
}

/// A deleted name gives nothing, and is no longer selected. Every other name gives
/// what it gave before.
pub proof fn deleted_profile_is_gone(s: StoreView, name: Seq<char>, other: Seq<char>)
    ensures
        s.deleted(name).lookup(name) is None,
        s.deleted(name).last != Some(name),
        other != name ==> s.deleted(name).lookup(other) == s.lookup(other),
        other != name ==> (s.last == Some(other) <==> s.deleted(name).last == Some(other)),
    decreases s.profiles.len(),
{
    let keep = |p: ProfileView| p.name != name;
    let t = s.deleted(name);
    reveal(Seq::filter);
    if s.profiles.len() == 0 {
        assert(t.profiles =~= Seq::empty());
        assert(!t.has(name));
        assert(!t.has(other) && !s.has(other));
    } else {
        let x = s.profiles.last();
        let s1 = StoreView { profiles: s.profiles.drop_last(), ..s };
        let t1 = s1.deleted(name);
        deleted_profile_is_gone(s1, name, other);
        assert(s.profiles =~= s1.profiles.push(x));
        lemma_lookup_push(s1, x, other);
        lemma_lookup_profiles(s, StoreView { profiles: s1.profiles.push(x), ..s1 }, other);
        if keep(x) {
            lemma_lookup_push(t1, x, other);
            lemma_lookup_push(t1, x, name);
            lemma_lookup_profiles(t, StoreView { profiles: t1.profiles.push(x), ..t1 }, other);
            lemma_lookup_profiles(t, StoreView { profiles: t1.profiles.push(x), ..t1 }, name);
        } else {
            lemma_lookup_profiles(t, t1, other);
            lemma_lookup_profiles(t, t1, name);
        }
    }
}

/// What is left of some profiles has only names that were there, each no more than
/// once where it was there once.
proof fn lemma_filter_distinct(ps: Seq<ProfileView>, name: Seq<char>)
    requires
        (StoreView { profiles: ps, last: None }).distinct(),
    ensures
        (StoreView { profiles: crate::profile::others(ps, name), last: None }).distinct(),
        forall|i: int|
            0 <= i < crate::profile::others(ps, name).len() ==> exists|j: int|
                0 <= j < ps.len() && #[trigger] ps[j] == #[trigger] crate::profile::others(
                    ps,
                    name,
                )[i],
    decreases ps.len(),
{
    reveal(Seq::filter);
    if ps.len() > 0 {
        let init = ps.drop_last();
        let s = StoreView { profiles: ps, last: None };
        let s1 = StoreView { profiles: init, last: None };
        assert(s1.distinct()) by {
            assert forall|i: int, j: int| 0 <= i < j < init.len() implies #[trigger] init[i].name
                != #[trigger] init[j].name by {
                assert(s.profiles[i].name != s.profiles[j].name);
            }
        }
        lemma_filter_distinct(init, name);
        let f1 = crate::profile::others(init, name);
        let f = crate::profile::others(ps, name);
        assert forall|i: int| 0 <= i < f.len() implies exists|j: int|
            0 <= j < ps.len() && #[trigger] ps[j] == #[trigger] f[i] by {
            if i < f1.len() {
                assert(f[i] == f1[i]);
                let j = choose|j: int| 0 <= j < init.len() && #[trigger] init[j] == f1[i];
                assert(ps[j] == f[i]);
            } else {
                assert(ps[ps.len() - 1] == f[i]);
            }
        }
        let t = StoreView { profiles: f, last: None };
        let t1 = StoreView { profiles: f1, last: None };
        assert forall|i: int, j: int| 0 <= i < j < f.len() implies #[trigger] t.profiles[i].name
            != #[trigger] t.profiles[j].name by {
            if j < f1.len() {
                assert(t1.profiles[i].name != t1.profiles[j].name);
            } else {
                let k = choose|k: int| 0 <= k < init.len() && #[trigger] init[k] == f1[i];
                assert(s.profiles[k].name != s.profiles[ps.len() - 1].name);
            }
        }
    }
}

/// Names stay unique: no operation gives two profiles one name.
pub proof fn names_stay_unique(s: StoreView, p: ProfileView, name: Seq<char>)
    requires
        s.distinct(),
    ensures
        s.upserted(p).distinct(),
        s.deleted(name).distinct(),
{
    crate::profile::lemma_first(s, p.name);
    let t = s.upserted(p);
    assert forall|i: int, j: int|
        0 <= i < j < t.profiles.len() implies #[trigger] t.profiles[i].name
        != #[trigger] t.profiles[j].name by {
        if j < s.profiles.len() {
            assert(s.profiles[i].name != s.profiles[j].name);
        } else {
            assert(s.profiles[i].name != p.name);
        }
    }
    let base = StoreView { profiles: s.profiles, last: None };
    assert(base.distinct());
    lemma_filter_distinct(s.profiles, name);
    let f = crate::profile::others(s.profiles, name);
    let d = StoreView { profiles: f, last: None };
    assert forall|i: int, j: int| 0 <= i < j < f.len() implies #[trigger] s.deleted(
        name,
    ).profiles[i].name != #[trigger] s.deleted(name).profiles[j].name by {
        assert(d.profiles[i].name != d.profiles[j].name);
    }
}

/// Saving and then deleting a profile whose name was not there brings the profiles
/// back.
pub proof fn delete_undoes_first_save(s: StoreView, p: ProfileView)
    requires
        !s.has(p.name),
    ensures
        s.upserted(p).deleted(p.name).profiles == s.profiles,
        s.upserted(p).deleted(p.name).last is None,
{
    reveal(Seq::filter);
    assert(s.profiles.push(p).drop_last() =~= s.profiles);
    lemma_filter_all(s.profiles, p.name);
}

/// Nothing is lost where nothing has the name.
proof fn lemma_filter_all(ps: Seq<ProfileView>, name: Seq<char>)
    requires
        forall|i: int| 0 <= i < ps.len() ==> (#[trigger] ps[i]).name != name,
    ensures
        crate::profile::others(ps, name) == ps,
    decreases ps.len(),
{
    reveal(Seq::filter);
    if ps.len() > 0 {
        let init = ps.drop_last();
        assert forall|i: int| 0 <= i < init.len() implies (#[trigger] init[i]).name != name by {
            assert(ps[i].name != name);
        }
        lemma_filter_all(init, name);
        assert(ps[ps.len() - 1].name != name);
        assert(init.push(ps.last()) =~= ps);
    } else {
        assert(crate::profile::others(ps, name) =~= ps);
    }
}

/// A name gives the first profile that has it, and nothing where none has it.
pub proof fn names_give_the_first(s: StoreView, name: Seq<char>, i: int)
    ensures
        0 <= i < s.profiles.len() && s.profiles[i].name == name && (forall|j: int|
            0 <= j < i ==> (#[trigger] s.profiles[j]).name != name) ==> s.lookup(name) == Some(
            s.profiles[i],
        ),
        (forall|j: int| 0 <= j < s.profiles.len() ==> (#[trigger] s.profiles[j]).name != name)
            ==> s.lookup(name) is None,
{
    crate::profile::lemma_first(s, name);
    if 0 <= i < s.profiles.len() && s.profiles[i].name == name && (forall|j: int|
        0 <= j < i ==> (#[trigger] s.profiles[j]).name != name) {
        assert(s.first_at(name, i));
    }
}

/// Saving changes one place: that of the first profile of the name, or one more at the end.
pub proof fn saving_changes_one_place(s: StoreView, p: ProfileView, i: int, j: int)
    requires
        0 <= j < s.profiles.len(),
    ensures
        0 <= i < s.profiles.len() && s.profiles[i].name == p.name && (forall|k: int|
            0 <= k < i ==> (#[trigger] s.profiles[k]).name != p.name) ==> {
            let t = s.upserted(p).profiles;
            &&& t.len() == s.profiles.len()
            &&& t[i] == p
            &&& j != i ==> t[j] == s.profiles[j]
        },
        (forall|k: int| 0 <= k < s.profiles.len() ==> (#[trigger] s.profiles[k]).name != p.name)
            ==> {
            let t = s.upserted(p).profiles;
            &&& t.len() == s.profiles.len() + 1
            &&& t.last() == p
            &&& t[j] == s.profiles[j]
        },
{
    crate::profile::lemma_first(s, p.name);
    if 0 <= i < s.profiles.len() && s.profiles[i].name == p.name && (forall|k: int|
        0 <= k < i ==> (#[trigger] s.profiles[k]).name != p.name) {
        assert(s.first_at(p.name, i));
    }
}

/// Deleting takes every profile of the name away and leaves the others, unchanged and in
/// their order: one more profile behind the others goes or stays by its own name.
pub proof fn deleting_leaves_the_others_in_order(s: StoreView, p: ProfileView, name: Seq<char>)
    ensures
        (StoreView { profiles: Seq::empty(), ..s }).deleted(name).profiles.len() == 0,
        (StoreView { profiles: s.profiles.push(p), ..s }).deleted(name).profiles == (if p.name
            == name {
            s.deleted(name).profiles
        } else {
            s.deleted(name).profiles.push(p)
        }),
        s.deleted(name).last == (if s.last == Some(name) {
            None
        } else {
            s.last
        }),
{
    reveal(Seq::filter);
    assert(s.profiles.push(p).drop_last() =~= s.profiles);
}

} // verus!
