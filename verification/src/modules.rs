//! The module table: named, normalized text fragments that templates can
//! splice in. A module's name is its file's base name; its value is the
//! file's content lowercased with one trailing newline stripped.
use vstd::prelude::*;

use crate::colors::pairs_view;
use crate::text::{assoc_lookup, lemma_lookup_absent, lemma_lookup_first_match, lower, lowercase};

verus! {

/// A module's value: the raw content lowercased, with exactly one
/// trailing newline stripped if one is present.
pub open spec fn normalize(s: Seq<char>) -> Seq<char> {
    let l = lower(s);
    if l.len() > 0 && l.last() == '\n' {
        l.drop_last()
    } else {
        l
    }
}

/// Normalizes one module's raw content.
pub fn normalize_module(s: &str) -> (r: String)
    ensures
        r@ == normalize(s@),
{
    let lowered = lowercase(s);
    let n = lowered.as_str().unicode_len();
    if n > 0 && lowered.as_str().get_char(n - 1) == '\n' {
        let trimmed = lowered.as_str().substring_char(0, n - 1);
        proof {
            assert(trimmed@ =~= lower(s@).drop_last());
        }
        String::from_str(trimmed)
    } else {
        lowered
    }
}

/// What the module table built from the raw files holds: each file's
/// base name with its content normalized, in the given order.
pub open spec fn modules_of(files: Seq<(String, String)>) -> Seq<(Seq<char>, Seq<char>)> {
    files.map_values(|p: (String, String)| (p.0@, normalize(p.1@)))
}

/// The name-to-text mapping of all loaded modules, in load order.
pub struct ModuleTable {
    entries: Vec<(String, String)>,
}

impl View for ModuleTable {
    type V = Seq<(Seq<char>, Seq<char>)>;

    closed spec fn view(&self) -> Seq<(Seq<char>, Seq<char>)> {
        pairs_view(self.entries@)
    }
}

impl ModuleTable {
    /// The module text under `key`, if the table holds that name.
    pub fn get<'a>(&'a self, key: &String) -> (r: Option<&'a String>)
        ensures
            match r {
                Some(v) => assoc_lookup(self@, key@) == Some(v@),
                None => assoc_lookup(self@, key@) is None,
            },
    {
        let n = self.entries.len();
        let mut j: usize = 0;
        while j < n
            invariant
                j <= n,
                n == self.entries@.len(),
                self@ == pairs_view(self.entries@),
                forall|m: int| 0 <= m < j ==> self@[m].0 != key@,
            decreases n - j,
        {
            if self.entries[j].0 == *key {
                proof {
                    lemma_lookup_first_match(self@, key@, j as int);
                }
                return Some(&self.entries[j].1);
            }
            j = j + 1;
        }
        proof {
            lemma_lookup_absent(self@, key@);
        }
        None
    }
}

/// Builds the module table from the raw files of the modules directory:
/// each pair is a file's base name and its content. Every file is kept,
/// in the given order, under its name, with its content normalized.
pub fn build_module_table(files: &Vec<(String, String)>) -> (r: ModuleTable)
    ensures
        r@ == modules_of(files@),
{
    let n = files.len();
    let mut entries: Vec<(String, String)> = Vec::new();
    let mut j: usize = 0;
    while j < n
        invariant
            j <= n,
            n == files@.len(),
            entries@.len() == j,
            forall|m: int|
                0 <= m < j ==> entries@[m].0@ == files@[m].0@ && entries@[m].1@ == normalize(
                    files@[m].1@,
                ),
        decreases n - j,
    {
        let name = files[j].0.clone();
        let value = normalize_module(files[j].1.as_str());
        entries.push((name, value));
        j = j + 1;
    }
    let t = ModuleTable { entries };
    proof {
        assert(t@ =~= modules_of(files@));
    }
    t
}

} // verus!
