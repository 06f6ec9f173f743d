//! The profile/config tree: profiles are named sets of config entries,
//! and the current profile is the staging area that applying a profile
//! merges into. All operations keep the tree's invariant: within any one
//! profile, config names are distinct.
use vstd::prelude::*;

use crate::text::{
    assoc_lookup, distinct_keys, lemma_lookup_absent, lemma_lookup_first_match,
    lemma_lookup_none_absent, lemma_lookup_push, lemma_lookup_remove, lemma_lookup_some_index,
    lemma_lookup_update,
};
use crate::{ProfileError, RegistryError};

verus! {

/// The mathematical content of one config entry: its template text and
/// the path its rendered output should reach.
pub struct EntryModel {
    pub template: Seq<char>,
    pub target: Seq<char>,
}

/// The mathematical content of one profile: its config entries by name,
/// in order.
pub type ProfileModel = Seq<(Seq<char>, EntryModel)>;

/// One tracked config: the template text (the source of truth) and the
/// target path the rendered output is written to.
pub struct ConfigEntry {
    pub template: String,
    pub target: String,
}

impl View for ConfigEntry {
    type V = EntryModel;

    open spec fn view(&self) -> EntryModel {
        EntryModel { template: self.template@, target: self.target@ }
    }
}

impl ConfigEntry {
    /// A field-for-field copy of the entry.
    pub fn duplicate(&self) -> (r: ConfigEntry)
        ensures
            r@ == self@,
    {
        ConfigEntry { template: self.template.clone(), target: self.target.clone() }
    }
}

/// A named set of config entries. Its invariant: no two entries share a
/// name.
pub struct Profile {
    entries: Vec<(String, ConfigEntry)>,
}

impl View for Profile {
    type V = ProfileModel;

    closed spec fn view(&self) -> ProfileModel {
        self.entries@.map_values(|p: (String, ConfigEntry)| (p.0@, p.1@))
    }
}

impl Profile {
    /// No two entries of the profile share a name.
    pub open spec fn wf(&self) -> bool {
        distinct_keys(self@)
    }

    /// The entry under `name`, if the profile holds one.
    pub open spec fn entry_of(&self, name: Seq<char>) -> Option<EntryModel> {
        assoc_lookup(self@, name)
    }

    /// An empty profile.
    pub fn new() -> (r: Profile)
        ensures
            r@ =~= Seq::<(Seq<char>, EntryModel)>::empty(),
            r.wf(),
    {
        let p = Profile { entries: Vec::new() };
        proof {
            assert(p@ =~= Seq::<(Seq<char>, EntryModel)>::empty());
        }
        p
    }

    /// How many entries the profile holds.
    pub fn len(&self) -> (n: usize)
        ensures
            n == self@.len(),
    {
        self.entries.len()
    }

    /// The name of the entry at an index.
    pub fn name_at(&self, j: usize) -> (r: &String)
        requires
            j < self@.len(),
        ensures
            r@ == self@[j as int].0,
    {
        &self.entries[j].0
    }

    /// The entry at an index.
    pub fn entry_at(&self, j: usize) -> (r: &ConfigEntry)
        requires
            j < self@.len(),
        ensures
            r@ == self@[j as int].1,
    {
        &self.entries[j].1
    }

    /// The index of the first entry named `name`, if any.
    fn find_index(&self, name: &String) -> (r: Option<usize>)
        ensures
            match r {
                Some(j) => {
                    &&& j < self@.len()
                    &&& self@[j as int].0 == name@
                    &&& forall|m: int| 0 <= m < j ==> self@[m].0 != name@
                    &&& self.entry_of(name@) == Some(self@[j as int].1)
                },
                None => self.entry_of(name@) is None,
            },
    {
        let n = self.entries.len();
        let mut j: usize = 0;
        while j < n
            invariant
                j <= n,
                n == self@.len(),
                self@ == self.entries@.map_values(|p: (String, ConfigEntry)| (p.0@, p.1@)),
                forall|m: int| 0 <= m < j ==> self@[m].0 != name@,
            decreases n - j,
        {
            if self.entries[j].0 == *name {
                proof {
                    lemma_lookup_first_match(self@, name@, j as int);
                }
                return Some(j);
            }
            j = j + 1;
        }
        proof {
            lemma_lookup_absent(self@, name@);
        }
        None
    }

    /// A reference to the entry under `name`, if the profile holds one.
    pub fn get<'a>(&'a self, name: &String) -> (r: Option<&'a ConfigEntry>)
        ensures
            match r {
                Some(e) => self.entry_of(name@) == Some(e@),
                None => self.entry_of(name@) is None,
            },
    {
        match self.find_index(name) {
            Some(j) => Some(&self.entries[j].1),
            None => None,
        }
    }

    /// Inserts or replaces the entry under `name`: the profile afterwards
    /// holds `entry` under `name` and is otherwise unchanged.
    pub fn upsert(&mut self, name: String, entry: ConfigEntry)
        requires
            old(self).wf(),
        ensures
            final(self).wf(),
            final(self).entry_of(name@) == Some(entry@),
            forall|k: Seq<char>|
                k != name@ ==> assoc_lookup(final(self)@, k) == assoc_lookup(old(self)@, k),
    {
        let ghost pre = self@;
        match self.find_index(&name) {
            Some(j) => {
                self.entries[j] = (name, entry);
                proof {
                    assert(self@ =~= pre.update(j as int, (pre[j as int].0, entry@)));
                    lemma_lookup_update(pre, j as int, entry@, name@);
                    assert(forall|k: Seq<char>|
                        k != name@ ==> assoc_lookup(self@, k) == assoc_lookup(pre, k)) by {
                        assert forall|k: Seq<char>| k != name@ implies assoc_lookup(self@, k)
                            == assoc_lookup(pre, k) by {
                            lemma_lookup_update(pre, j as int, entry@, k);
                        }
                    }
                }
            },
            None => {
                proof {
                    lemma_lookup_none_absent(pre, name@);
                }
                self.entries.push((name, entry));
                proof {
                    assert(self@ =~= pre.push((name@, entry@)));
                    assert forall|k: Seq<char>| true implies assoc_lookup(self@, k) == (
                    if assoc_lookup(pre, k) is Some {
                        assoc_lookup(pre, k)
                    } else if k == name@ {
                        Some(entry@)
                    } else {
                        None::<EntryModel>
                    }) by {
                        lemma_lookup_push(pre, name@, entry@, k);
                    }
                    assert(distinct_keys(self@));
                }
            },
        }
    }

    /// Removes the entry under `name` if one is present; says whether one
    /// was. Entries under other names are untouched.
    pub fn remove_conf(&mut self, name: &String) -> (found: bool)
        requires
            old(self).wf(),
        ensures
            final(self).wf(),
            found == (old(self).entry_of(name@) is Some),
            final(self).entry_of(name@) is None,
            forall|k: Seq<char>|
                k != name@ ==> assoc_lookup(final(self)@, k) == assoc_lookup(old(self)@, k),
            !found ==> *final(self) == *old(self),
    {
        let ghost pre = self@;
        match self.find_index(name) {
            Some(j) => {
                self.entries.remove(j);
                proof {
                    assert(self@ =~= pre.remove(j as int));
                    assert forall|k: Seq<char>| true implies assoc_lookup(self@, k) == (
                    if k == name@ {
                        None::<EntryModel>
                    } else {
                        assoc_lookup(pre, k)
                    }) by {
                        lemma_lookup_remove(pre, j as int, k);
                    }
                    assert(distinct_keys(self@)) by {
                        lemma_lookup_remove(pre, j as int, name@);
                    }
                }
                true
            },
            None => false,
        }
    }
}

/// Adds a config named `conf_name` to the destination profile, tracking
/// the file at `conf_path`; `source` is that file's content, or nothing
/// when no such file exists. Fails with `SourceMissing` when the source
/// file does not exist, and with `EntryAlreadyExists` when the
/// destination already holds an entry of that name; either failure leaves
/// the destination unchanged. On success the new entry's template is the
/// source content and its target is the source path.
pub fn add_conf(
    conf_name: &String,
    conf_path: &String,
    source: Option<&String>,
    dest: &mut Profile,
) -> (r: Result<(), RegistryError>)
    requires
        old(dest).wf(),
    ensures
        final(dest).wf(),
        match r {
            Ok(()) => {
                &&& source is Some
                &&& old(dest).entry_of(conf_name@) is None
                &&& final(dest).entry_of(conf_name@) == Some(
                    EntryModel { template: source->Some_0@, target: conf_path@ },
                )
                &&& forall|k: Seq<char>|
                    k != conf_name@ ==> assoc_lookup(final(dest)@, k) == assoc_lookup(
                        old(dest)@,
                        k,
                    )
            },
            Err(RegistryError::SourceMissing) => source is None && *final(dest) == *old(dest),
            Err(RegistryError::EntryAlreadyExists) => {
                &&& source is Some
                &&& old(dest).entry_of(conf_name@) is Some
                &&& *final(dest) == *old(dest)
            },
            Err(RegistryError::ConfigNotFound) => false,
        },
{
    let content = match source {
        Some(c) => c,
        None => {
            return Err(RegistryError::SourceMissing);
        },
    };
    match dest.get(conf_name) {
        Some(_) => Err(RegistryError::EntryAlreadyExists),
        None => {
            let entry = ConfigEntry { template: content.clone(), target: conf_path.clone() };
            dest.upsert(conf_name.clone(), entry);
            Ok(())
        },
    }
}

/// The mathematical content of the configuration root: the named
/// profiles, in order, and the current profile.
pub struct HomeModel {
    pub profiles: Seq<(Seq<char>, ProfileModel)>,
    pub current: ProfileModel,
}

/// A config of the given name is tracked somewhere: in some profile or
/// in the current profile.
pub open spec fn config_found_anywhere(h: HomeModel, name: Seq<char>) -> bool {
    ||| exists|i: int|
        0 <= i < h.profiles.len() && assoc_lookup(h.profiles[i].1, name) is Some
    ||| assoc_lookup(h.current, name) is Some
}

/// The configuration root: all named profiles and the current profile.
/// Its invariant: profile names are distinct, and every profile (the
/// current one included) has distinct config names.
pub struct ConfigHome {
    profiles: Vec<(String, Profile)>,
    current: Profile,
}

impl View for ConfigHome {
    type V = HomeModel;

    closed spec fn view(&self) -> HomeModel {
        HomeModel {
            profiles: self.profiles@.map_values(|p: (String, Profile)| (p.0@, p.1@)),
            current: self.current@,
        }
    }
}

impl ConfigHome {
    /// Profile names are distinct and every profile has distinct config
    /// names.
    pub open spec fn wf(&self) -> bool {
        &&& distinct_keys(self@.profiles)
        &&& forall|i: int|
            0 <= i < self@.profiles.len() ==> distinct_keys(#[trigger] self@.profiles[i].1)
        &&& distinct_keys(self@.current)
    }

    /// The profile stored under `name`, if any.
    pub open spec fn profile_of(&self, name: Seq<char>) -> Option<ProfileModel> {
        assoc_lookup(self@.profiles, name)
    }

    /// An empty configuration root: no profiles, an empty current
    /// profile.
    pub fn new() -> (r: ConfigHome)
        ensures
            r.wf(),
            r@.profiles =~= Seq::<(Seq<char>, ProfileModel)>::empty(),
            r@.current =~= Seq::<(Seq<char>, EntryModel)>::empty(),
    {
        let h = ConfigHome { profiles: Vec::new(), current: Profile::new() };
        proof {
            assert(h@.profiles =~= Seq::<(Seq<char>, ProfileModel)>::empty());
        }
        h
    }

    /// The current profile, read-only.
    pub fn current_profile(&self) -> (r: &Profile)
        ensures
            r@ == self@.current,
    {
        &self.current
    }

    /// The index of the profile named `name`, if any.
    fn find_profile_index(&self, name: &String) -> (r: Option<usize>)
        ensures
            match r {
                Some(j) => {
                    &&& j < self@.profiles.len()
                    &&& self@.profiles[j as int].0 == name@
                    &&& self.profile_of(name@) == Some(self@.profiles[j as int].1)
                },
                None => self.profile_of(name@) is None,
            },
    {
        let n = self.profiles.len();
        let mut j: usize = 0;
        while j < n
            invariant
                j <= n,
                n == self@.profiles.len(),
                self@.profiles == self.profiles@.map_values(|p: (String, Profile)| (p.0@, p.1@)),
                forall|m: int| 0 <= m < j ==> self@.profiles[m].0 != name@,
            decreases n - j,
        {
            if self.profiles[j].0 == *name {
                proof {
                    lemma_lookup_first_match(self@.profiles, name@, j as int);
                }
                return Some(j);
            }
            j = j + 1;
        }
        proof {
            lemma_lookup_absent(self@.profiles, name@);
        }
        None
    }

    /// The stored profile of the given name, if any.
    pub fn get_profile<'a>(&'a self, name: &String) -> (r: Option<&'a Profile>)
        ensures
            match r {
                Some(p) => self.profile_of(name@) == Some(p@),
                None => self.profile_of(name@) is None,
            },
    {
        match self.find_profile_index(name) {
            Some(j) => Some(&self.profiles[j].1),
            None => None,
        }
    }

    /// Whether a profile of the given name exists.
    pub fn profile_exists(&self, name: &String) -> (r: bool)
        ensures
            r == (self.profile_of(name@) is Some),
    {
        match self.find_profile_index(name) {
            Some(_) => true,
            None => false,
        }
    }

    /// Creates a new, empty profile of the given name. Fails with
    /// `AlreadyExists`, changing nothing, when a profile of that name is
    /// already present.
    pub fn add_profile(&mut self, name: &String) -> (r: Result<(), ProfileError>)
        requires
            old(self).wf(),
        ensures
            final(self).wf(),
            match r {
                Ok(()) => {
                    &&& old(self).profile_of(name@) is None
                    &&& final(self).profile_of(name@) == Some(
                        Seq::<(Seq<char>, EntryModel)>::empty(),
                    )
                    &&& forall|pn: Seq<char>|
                        pn != name@ ==> final(self).profile_of(pn) == old(self).profile_of(pn)
                    &&& final(self)@.current == old(self)@.current
                },
                Err(ProfileError::AlreadyExists) => {
                    &&& old(self).profile_of(name@) is Some
                    &&& *final(self) == *old(self)
                },
                Err(ProfileError::ProfileNotFound) => false,
            },
    {
        let ghost pre = self@.profiles;
        match self.find_profile_index(name) {
            Some(_) => Err(ProfileError::AlreadyExists),
            None => {
                proof {
                    lemma_lookup_none_absent(pre, name@);
                }
                let empty = Profile::new();
                self.profiles.push((name.clone(), empty));
                proof {
                    assert(self@.profiles =~= pre.push(
                        (name@, Seq::<(Seq<char>, EntryModel)>::empty()),
                    ));
                    assert forall|pn: Seq<char>| true implies assoc_lookup(self@.profiles, pn)
                        == (if assoc_lookup(pre, pn) is Some {
                        assoc_lookup(pre, pn)
                    } else if pn == name@ {
                        Some(Seq::<(Seq<char>, EntryModel)>::empty())
                    } else {
                        None::<ProfileModel>
                    }) by {
                        lemma_lookup_push(
                            pre,
                            name@,
                            Seq::<(Seq<char>, EntryModel)>::empty(),
                            pn,
                        );
                    }
                    assert(distinct_keys(self@.profiles));
                }
                Ok(())
            },
        }
    }

    /// Deletes the profile of the given name, irreversibly. Fails with
    /// `ProfileNotFound`, changing nothing, when no such profile exists.
    pub fn del_profile(&mut self, name: &String) -> (r: Result<(), ProfileError>)
        requires
            old(self).wf(),
        ensures
            final(self).wf(),
            match r {
                Ok(()) => {
                    &&& old(self).profile_of(name@) is Some
                    &&& final(self).profile_of(name@) is None
                    &&& forall|pn: Seq<char>|
                        pn != name@ ==> final(self).profile_of(pn) == old(self).profile_of(pn)
                    &&& final(self)@.current == old(self)@.current
                },
                Err(ProfileError::ProfileNotFound) => {
                    &&& old(self).profile_of(name@) is None
                    &&& *final(self) == *old(self)
                },
                Err(ProfileError::AlreadyExists) => false,
            },
    {
        let ghost pre = self@.profiles;
        match self.find_profile_index(name) {
            Some(j) => {
                self.profiles.remove(j);
                proof {
                    assert(self@.profiles =~= pre.remove(j as int));
                    assert forall|pn: Seq<char>| true implies assoc_lookup(self@.profiles, pn)
                        == (if pn == name@ {
                        None::<ProfileModel>
                    } else {
                        assoc_lookup(pre, pn)
                    }) by {
                        lemma_lookup_remove(pre, j as int, pn);
                    }
                    assert(distinct_keys(self@.profiles)) by {
                        lemma_lookup_remove(pre, j as int, name@);
                    }
                }
                Ok(())
            },
            None => Err(ProfileError::ProfileNotFound),
        }
    }

    /// Applies the profile of the given name: merges its entries into the
    /// current profile. Per entry name, the source profile wins; entries
    /// only in the current profile are retained. The stored profiles are
    /// untouched. Fails with `ProfileNotFound`, changing nothing, when no
    /// such profile exists.
    pub fn apply_profile(&mut self, name: &String) -> (r: Result<(), ProfileError>)
        requires
            old(self).wf(),
        ensures
            final(self).wf(),
            match r {
                Ok(()) => {
                    &&& old(self).profile_of(name@) matches Some(src)
                    &&& final(self)@.profiles == old(self)@.profiles
                    &&& forall|k: Seq<char>|
                        assoc_lookup(final(self)@.current, k) == (
                        if assoc_lookup(src, k) is Some {
                            assoc_lookup(src, k)
                        } else {
                            assoc_lookup(old(self)@.current, k)
                        })
                },
                Err(ProfileError::ProfileNotFound) => {
                    &&& old(self).profile_of(name@) is None
                    &&& *final(self) == *old(self)
                },
                Err(ProfileError::AlreadyExists) => false,
            },
    {
        let ji = match self.find_profile_index(name) {
            Some(j) => j,
            None => {
                return Err(ProfileError::ProfileNotFound);
            },
        };
        let ghost src = self@.profiles[ji as int].1;
        let ghost cur0 = self@.current;
        let n = self.profiles[ji].1.len();
        let mut j: usize = 0;
        while j < n
            invariant
                j <= n,
                ji < self@.profiles.len(),
                self@.profiles == old(self)@.profiles,
                src == self@.profiles[ji as int].1,
                cur0 == old(self)@.current,
                n == src.len(),
                old(self).wf(),
                distinct_keys(self@.current),
                forall|m: int|
                    0 <= m < j ==> assoc_lookup(self@.current, #[trigger] src[m].0) == Some(
                        src[m].1,
                    ),
                forall|k: Seq<char>|
                    (forall|m: int| 0 <= m < j ==> src[m].0 != k) ==> assoc_lookup(
                        self@.current,
                        k,
                    ) == assoc_lookup(cur0, k),
            decreases n - j,
        {
            let nm = self.profiles[ji].1.name_at(j).clone();
            let e = self.profiles[ji].1.entry_at(j).duplicate();
            self.current.upsert(nm, e);
            proof {
                assert(forall|m: int| 0 <= m < j ==> src[m].0 != src[j as int].0);
            }
            j = j + 1;
        }
        proof {
            assert forall|k: Seq<char>| true implies assoc_lookup(self@.current, k) == (
            if assoc_lookup(src, k) is Some {
                assoc_lookup(src, k)
            } else {
                assoc_lookup(cur0, k)
            }) by {
                if assoc_lookup(src, k) is Some {
                    lemma_lookup_some_index(src, k);
                } else {
                    lemma_lookup_none_absent(src, k);
                }
            }
        }
        Ok(())
    }

    /// Removes the config of the given name from every stored profile and
    /// from the current profile. Succeeds when the name was found in at
    /// least one place; fails with `ConfigNotFound` when it was tracked
    /// nowhere. Either way, afterwards no profile holds the name, and
    /// entries under other names are untouched.
    pub fn del_conf_global(&mut self, conf_name: &String) -> (r: Result<(), RegistryError>)
        requires
            old(self).wf(),
        ensures
            final(self).wf(),
            final(self)@.profiles.len() == old(self)@.profiles.len(),
            forall|m: int|
                0 <= m < final(self)@.profiles.len() ==> final(self)@.profiles[m].0 == old(
                    self,
                )@.profiles[m].0,
            forall|m: int|
                0 <= m < final(self)@.profiles.len() ==> assoc_lookup(
                    #[trigger] final(self)@.profiles[m].1,
                    conf_name@,
                ) is None,
            forall|m: int, k: Seq<char>|
                0 <= m < final(self)@.profiles.len() && k != conf_name@ ==> #[trigger] assoc_lookup(
                    final(self)@.profiles[m].1,
                    k,
                ) == assoc_lookup(old(self)@.profiles[m].1, k),
            assoc_lookup(final(self)@.current, conf_name@) is None,
            forall|k: Seq<char>|
                k != conf_name@ ==> assoc_lookup(final(self)@.current, k) == assoc_lookup(
                    old(self)@.current,
                    k,
                ),
            r == (if config_found_anywhere(old(self)@, conf_name@) {
                Ok::<(), RegistryError>(())
            } else {
                Err::<(), RegistryError>(RegistryError::ConfigNotFound)
            }),
    {
        let n = self.profiles.len();
        let mut found = false;
        let mut i: usize = 0;
        while i < n
            invariant
                i <= n,
                n == self@.profiles.len(),
                self@.profiles.len() == old(self)@.profiles.len(),
                old(self).wf(),
                forall|m: int|
                    0 <= m < n ==> #[trigger] self@.profiles[m].0 == old(self)@.profiles[m].0,
                forall|m: int|
                    i <= m < n ==> #[trigger] self@.profiles[m].1 == old(self)@.profiles[m].1,
                forall|m: int|
                    0 <= m < i ==> assoc_lookup(
                        #[trigger] self@.profiles[m].1,
                        conf_name@,
                    ) is None,
                forall|m: int|
                    0 <= m < i ==> distinct_keys(#[trigger] self@.profiles[m].1),
                forall|m: int, k: Seq<char>|
                    0 <= m < i && k != conf_name@ ==> #[trigger] assoc_lookup(
                        self@.profiles[m].1,
                        k,
                    ) == assoc_lookup(old(self)@.profiles[m].1, k),
                found == exists|m: int|
                    0 <= m < i && assoc_lookup(
                        #[trigger] old(self)@.profiles[m].1,
                        conf_name@,
                    ) is Some,
                self@.current == old(self)@.current,
            decreases n - i,
        {
            let ghost pre = self@.profiles;
            proof {
                assert(pre[i as int].1 == old(self)@.profiles[i as int].1);
                assert(distinct_keys(pre[i as int].1));
            }
            let f = self.profiles[i].1.remove_conf(conf_name);
            proof {
                assert(self@.profiles =~= pre.update(
                    i as int,
                    (pre[i as int].0, self@.profiles[i as int].1),
                ));
                if f {
                    assert(assoc_lookup(old(self)@.profiles[i as int].1, conf_name@) is Some);
                } else {
                    assert(assoc_lookup(old(self)@.profiles[i as int].1, conf_name@) is None);
                }
            }
            proof {
                assert forall|m: int, k: Seq<char>|
                    0 <= m < i + 1 && k != conf_name@ implies #[trigger] assoc_lookup(
                    self@.profiles[m].1,
                    k,
                ) == assoc_lookup(old(self)@.profiles[m].1, k) by {
                    if m < i {
                        assert(self@.profiles[m].1 == pre[m].1);
                    }
                }
            }
            found = found || f;
            i = i + 1;
        }
        proof {
            assert(distinct_keys(self@.current));
        }
        let f2 = self.current.remove_conf(conf_name);
        proof {
            if found || f2 {
                assert(config_found_anywhere(old(self)@, conf_name@));
            } else {
                assert forall|m: int|
                    0 <= m < old(self)@.profiles.len() implies !(assoc_lookup(
                    #[trigger] old(self)@.profiles[m].1,
                    conf_name@,
                ) is Some) by {
                    assert(!(exists|q: int|
                        0 <= q < n && assoc_lookup(
                            #[trigger] old(self)@.profiles[q].1,
                            conf_name@,
                        ) is Some));
                }
                assert(!config_found_anywhere(old(self)@, conf_name@));
            }
        }
        if found || f2 {
            Ok(())
        } else {
            Err(RegistryError::ConfigNotFound)
        }
    }

    /// Removes the config of the given name from one named profile.
    /// Fails with `ConfigNotFound`, changing nothing, when the profile
    /// does not exist or holds no entry of that name.
    pub fn del_conf_profile(&mut self, conf_name: &String, profile_name: &String) -> (r: Result<
        (),
        RegistryError,
    >)
        requires
            old(self).wf(),
        ensures
            final(self).wf(),
            match r {
                Ok(()) => {
                    &&& old(self).profile_of(profile_name@) matches Some(srcp)
                    &&& assoc_lookup(srcp, conf_name@) is Some
                    &&& final(self).profile_of(profile_name@) matches Some(newp)
                    &&& assoc_lookup(newp, conf_name@) is None
                    &&& forall|k: Seq<char>|
                        k != conf_name@ ==> assoc_lookup(newp, k) == assoc_lookup(srcp, k)
                    &&& forall|pn: Seq<char>|
                        pn != profile_name@ ==> final(self).profile_of(pn) == old(
                            self,
                        ).profile_of(pn)
                    &&& final(self)@.current == old(self)@.current
                },
                Err(RegistryError::ConfigNotFound) => {
                    &&& {
                        ||| old(self).profile_of(profile_name@) is None
                        ||| assoc_lookup(
                            old(self).profile_of(profile_name@)->Some_0,
                            conf_name@,
                        ) is None
                    }
                    &&& final(self)@.profiles == old(self)@.profiles
                    &&& final(self)@.current == old(self)@.current
                },
                Err(RegistryError::SourceMissing) => false,
                Err(RegistryError::EntryAlreadyExists) => false,
            },
    {
        let ji = match self.find_profile_index(profile_name) {
            Some(j) => j,
            None => {
                return Err(RegistryError::ConfigNotFound);
            },
        };
        let ghost pre = self@.profiles;
        let f = self.profiles[ji].1.remove_conf(conf_name);
        proof {
            assert(self@.profiles =~= pre.update(
                ji as int,
                (pre[ji as int].0, self@.profiles[ji as int].1),
            ));
        }
        if f {
            proof {
                assert forall|pn: Seq<char>| pn != profile_name@ implies assoc_lookup(
                    self@.profiles,
                    pn,
                ) == assoc_lookup(pre, pn) by {
                    lemma_lookup_update(pre, ji as int, self@.profiles[ji as int].1, pn);
                }
                lemma_lookup_update(pre, ji as int, self@.profiles[ji as int].1, profile_name@);
                assert forall|m: int|
                    0 <= m < self@.profiles.len() implies distinct_keys(
                    #[trigger] self@.profiles[m].1,
                ) by {
                    if m != ji as int {
                        assert(self@.profiles[m].1 == pre[m].1);
                        assert(distinct_keys(old(self)@.profiles[m].1));
                    }
                }
            }
            Ok(())
        } else {
            proof {
                assert(self@.profiles =~= pre);
            }
            Err(RegistryError::ConfigNotFound)
        }
    }
}

impl ConfigHome {
    /// Adds a config to the current profile, as `add_conf` does.
    pub fn add_conf_current(
        &mut self,
        conf_name: &String,
        conf_path: &String,
        source: Option<&String>,
    ) -> (r: Result<(), RegistryError>)
        requires
            old(self).wf(),
        ensures
            final(self).wf(),
            final(self)@.profiles == old(self)@.profiles,
            match r {
                Ok(()) => {
                    &&& source is Some
                    &&& assoc_lookup(old(self)@.current, conf_name@) is None
                    &&& assoc_lookup(final(self)@.current, conf_name@) == Some(
                        EntryModel { template: source->Some_0@, target: conf_path@ },
                    )
                    &&& forall|k: Seq<char>|
                        k != conf_name@ ==> assoc_lookup(final(self)@.current, k) == assoc_lookup(
                            old(self)@.current,
                            k,
                        )
                },
                Err(RegistryError::SourceMissing) => {
                    &&& source is None
                    &&& final(self)@.current == old(self)@.current
                },
                Err(RegistryError::EntryAlreadyExists) => {
                    &&& source is Some
                    &&& assoc_lookup(old(self)@.current, conf_name@) is Some
                    &&& final(self)@.current == old(self)@.current
                },
                Err(RegistryError::ConfigNotFound) => false,
            },
    {
        add_conf(conf_name, conf_path, source, &mut self.current)
    }

    /// Adds a config to the stored profile of the given name, as
    /// `add_conf` does. Fails with `ConfigNotFound`, changing nothing,
    /// when no profile of that name exists.
    pub fn add_conf_in_profile(
        &mut self,
        profile_name: &String,
        conf_name: &String,
        conf_path: &String,
        source: Option<&String>,
    ) -> (r: Result<(), RegistryError>)
        requires
            old(self).wf(),
        ensures
            final(self).wf(),
            final(self)@.current == old(self)@.current,
            match r {
                Ok(()) => {
                    &&& old(self).profile_of(profile_name@) matches Some(srcp)
                    &&& source is Some
                    &&& assoc_lookup(srcp, conf_name@) is None
                    &&& final(self).profile_of(profile_name@) matches Some(newp)
                    &&& assoc_lookup(newp, conf_name@) == Some(
                        EntryModel { template: source->Some_0@, target: conf_path@ },
                    )
                    &&& forall|k: Seq<char>|
                        k != conf_name@ ==> assoc_lookup(newp, k) == assoc_lookup(srcp, k)
                    &&& forall|pn: Seq<char>|
                        pn != profile_name@ ==> final(self).profile_of(pn) == old(
                            self,
                        ).profile_of(pn)
                },
                Err(RegistryError::ConfigNotFound) => {
                    &&& old(self).profile_of(profile_name@) is None
                    &&& final(self)@.profiles == old(self)@.profiles
                },
                Err(RegistryError::SourceMissing) => {
                    &&& source is None
                    &&& final(self)@.profiles == old(self)@.profiles
                },
                Err(RegistryError::EntryAlreadyExists) => {
                    &&& old(self).profile_of(profile_name@) matches Some(srcp)
                    &&& assoc_lookup(srcp, conf_name@) is Some
                    &&& final(self)@.profiles == old(self)@.profiles
                },
            },
    {
        let ji = match self.find_profile_index(profile_name) {
            Some(j) => j,
            None => {
                return Err(RegistryError::ConfigNotFound);
            },
        };
        let ghost pre = self@.profiles;
        proof {
            assert(distinct_keys(pre[ji as int].1));
        }
        let r = add_conf(conf_name, conf_path, source, &mut self.profiles[ji].1);
        proof {
            assert(self@.profiles =~= pre.update(
                ji as int,
                (pre[ji as int].0, self@.profiles[ji as int].1),
            ));
        }
        match r {
            Ok(()) => {
                proof {
                    assert forall|pn: Seq<char>| pn != profile_name@ implies assoc_lookup(
                        self@.profiles,
                        pn,
                    ) == assoc_lookup(pre, pn) by {
                        lemma_lookup_update(pre, ji as int, self@.profiles[ji as int].1, pn);
                    }
                    lemma_lookup_update(
                        pre,
                        ji as int,
                        self@.profiles[ji as int].1,
                        profile_name@,
                    );
                    assert forall|m: int|
                        0 <= m < self@.profiles.len() implies distinct_keys(
                        #[trigger] self@.profiles[m].1,
                    ) by {
                        if m != ji as int {
                            assert(self@.profiles[m].1 == pre[m].1);
                            assert(distinct_keys(old(self)@.profiles[m].1));
                        }
                    }
                }
                Ok(())
            },
            Err(e) => {
                proof {
                    assert(self@.profiles =~= pre);
                }
                Err(e)
            },
        }
    }
}

/// After a global removal of a config name, the name is tracked nowhere,
/// so a fresh global removal of the same name must report
/// `ConfigNotFound`.
pub proof fn lemma_del_conf_global_exhausts(h: HomeModel, name: Seq<char>)
    requires
        forall|m: int|
            0 <= m < h.profiles.len() ==> assoc_lookup(#[trigger] h.profiles[m].1, name) is None,
        assoc_lookup(h.current, name) is None,
    ensures
        !config_found_anywhere(h, name),
{
}

} // verus!
