//! The source files that were read, package by package.

use crate::elm_package::{ElmFile, ElmFileView};
use crate::helpers::same_text;
use vstd::prelude::*;
use vstd::string::*;

verus! {

/// Some files, as text.
pub open spec fn files_view(files: Seq<ElmFile>) -> Seq<ElmFileView> {
    Seq::new(files.len(), |i: int| files[i]@)
}

/// The first place from `i` on at which `key` stands in a list of keyed
/// entries.
pub open spec fn place_of(entries: Seq<(String, Vec<ElmFile>)>, key: Seq<char>, i: int) -> Option<
    int,
>
    decreases entries.len() - i,
{
    if i < 0 || i >= entries.len() {
        None
    } else if entries[i].0@ == key {
        Some(i)
    } else {
        place_of(entries, key, i + 1)
    }
}

/// What a list of keyed entries holds: under each key the files of the first
/// entry with that key.
pub open spec fn held(entries: Seq<(String, Vec<ElmFile>)>) -> Map<Seq<char>, Seq<ElmFileView>> {
    Map::new(
        |key: Seq<char>| place_of(entries, key, 0) is Some,
        |key: Seq<char>| files_view(entries[place_of(entries, key, 0)->0].1@),
    )
}

/// No key stands twice in a list of keyed entries.
pub open spec fn keys_distinct(entries: Seq<(String, Vec<ElmFile>)>) -> bool {
    forall|i: int, j: int|
        0 <= i < j < entries.len() ==> (#[trigger] entries[i]).0@ != (#[trigger] entries[j]).0@
}

/// The files of a package once `file` of it has been read: `file` behind the
/// files that are held for the package, or `file` alone where none are held.
pub open spec fn kept(
    groups: Map<Seq<char>, Seq<ElmFileView>>,
    name: Seq<char>,
    file: ElmFileView,
) -> Seq<ElmFileView> {
    if groups.contains_key(name) {
        groups[name].push(file)
    } else {
        seq![file]
    }
}

/// What `place_of` gives is a place of the key, and the first from `i` on.
pub proof fn lemma_place_of(entries: Seq<(String, Vec<ElmFile>)>, key: Seq<char>, i: int)
    requires
        0 <= i,
    ensures
        place_of(entries, key, i) matches Some(p) ==> i <= p < entries.len() && entries[p].0@ == key
            && forall|j: int| i <= j < p ==> (#[trigger] entries[j]).0@ != key,
        place_of(entries, key, i) is None ==> forall|j: int|
            i <= j < entries.len() ==> (#[trigger] entries[j]).0@ != key,
    decreases entries.len() - i,
{
    if i < entries.len() && entries[i].0@ != key {
        lemma_place_of(entries, key, i + 1);
    }
}

/// The first place of `key` is `p` where `key` stands at `p` and nowhere before.
pub proof fn lemma_place_of_is(entries: Seq<(String, Vec<ElmFile>)>, key: Seq<char>, p: int)
    requires
        0 <= p < entries.len(),
        entries[p].0@ == key,
        forall|j: int| 0 <= j < p ==> (#[trigger] entries[j]).0@ != key,
    ensures
        place_of(entries, key, 0) == Some(p),
{
    lemma_place_of(entries, key, 0);
}

/// `key` has no place where it stands nowhere.
pub proof fn lemma_place_of_none(entries: Seq<(String, Vec<ElmFile>)>, key: Seq<char>)
    requires
        forall|j: int| 0 <= j < entries.len() ==> (#[trigger] entries[j]).0@ != key,
    ensures
        place_of(entries, key, 0) is None,
{
    lemma_place_of(entries, key, 0);
}

/// A copy of some files.
fn copy_files(files: &Vec<ElmFile>) -> (copy: Vec<ElmFile>)
    ensures
        files_view(copy@) == files_view(files@),
{
    let mut copy: Vec<ElmFile> = Vec::new();
    let mut i: usize = 0;
    while i < files.len()
        invariant
            i <= files.len(),
            files_view(copy@) == files_view(files@).take(i as int),
        decreases files.len() - i,
    {
        let ghost before = files_view(copy@);
        let file = files[i].duplicate();
        copy.push(file);
        assert(files_view(copy@) =~= before.push(file@));
        assert(before.push(file@) =~= files_view(files@).take(i + 1));
        i += 1;
    }
    assert(files_view(files@).take(files.len() as int) =~= files_view(files@));
    copy
}

/// The files that were read, each list under the name of a package.
pub struct RepoExports {
    entries: Vec<(String, Vec<ElmFile>)>,
}

impl View for RepoExports {
    type V = Map<Seq<char>, Seq<ElmFileView>>;

    closed spec fn view(&self) -> Map<Seq<char>, Seq<ElmFileView>> {
        held(self.entries@)
    }
}

impl RepoExports {
    #[verifier::type_invariant]
    spec fn distinct(&self) -> bool {
        keys_distinct(self.entries@)
    }

    /// Nothing read yet.
    pub fn new() -> (groups: Self)
        ensures
            groups@ == Map::<Seq<char>, Seq<ElmFileView>>::empty(),
    {
        let groups = RepoExports { entries: Vec::new() };
        assert(groups@ =~= Map::<Seq<char>, Seq<ElmFileView>>::empty());
        groups
    }

    /// The place of `key` among the entries.
    fn find(&self, key: &str) -> (r: Option<usize>)
        ensures
            match place_of(self.entries@, key@, 0) {
                Some(p) => r matches Some(q) && q == p && p < self.entries@.len(),
                None => r is None,
            },
    {
        let mut i: usize = 0;
        while i < self.entries.len()
            invariant
                i <= self.entries.len(),
                place_of(self.entries@, key@, i as int) == place_of(self.entries@, key@, 0),
            decreases self.entries.len() - i,
        {
            if same_text(self.entries[i].0.as_str(), key) {
                return Some(i);
            }
            i += 1;
        }
        None
    }

    /// The files held under `key`.
    pub fn get(&self, key: &str) -> (r: Option<&Vec<ElmFile>>)
        ensures
            match r {
                Some(files) => self@.contains_key(key@) && files_view(files@) == self@[key@],
                None => !self@.contains_key(key@),
            },
    {
        match self.find(key) {
            Some(p) => Some(&self.entries[p].1),
            None => None,
        }
    }

    /// Puts `files` under `key`, in the place of what was held there.
    pub fn insert(&mut self, key: String, files: Vec<ElmFile>)
        ensures
            final(self)@ == old(self)@.insert(key@, files_view(files@)),
    {
        proof {
            use_type_invariant(&*self);
        }
        let ghost before = self.entries@;
        let ghost name = key@;
        let ghost added = files_view(files@);
        let found = self.find(key.as_str());
        proof {
            lemma_place_of(before, name, 0);
        }
        let mut taken = RepoExports::new();
        core::mem::swap(self, &mut taken);
        let mut entries = taken.entries;
        match found {
            Some(p) => {
                entries.set(p, (key, files));
            },
            None => {
                entries.push((key, files));
            },
        }
        proof {
            let after = entries@;
            let p: int = match found {
                Some(p) => p as int,
                None => before.len() as int,
            };
            assert(after[p].0@ == name);
            assert forall|j: int| 0 <= j < after.len() && j != p implies (#[trigger] after[j])
                == before[j] by {}
            assert forall|k: Seq<char>| #[trigger] place_of(after, k, 0) == (if k == name {
                Some(p)
            } else {
                place_of(before, k, 0)
            }) by {
                lemma_place_of(before, k, 0);
                if k == name {
                    lemma_place_of_is(after, k, p);
                } else {
                    match place_of(before, k, 0) {
                        Some(q) => {
                            assert(after[q] == before[q]);
                            assert forall|j: int| 0 <= j < q implies (#[trigger] after[j]).0@
                                != k by {
                                if j != p {
                                    assert(after[j] == before[j]);
                                }
                            }
                            lemma_place_of_is(after, k, q);
                        },
                        None => {
                            assert forall|j: int| 0 <= j < after.len() implies (
                            #[trigger] after[j]).0@ != k by {
                                if j != p {
                                    assert(after[j] == before[j]);
                                }
                            }
                            lemma_place_of_none(after, k);
                        },
                    }
                }
            }
            assert(files_view(after[p].1@) == added);
            let wanted = held(before).insert(name, added);
            assert forall|k: Seq<char>| held(after).contains_key(k) <==> wanted.contains_key(
                k,
            ) by {
                assert(place_of(after, k, 0) == (if k == name {
                    Some(p)
                } else {
                    place_of(before, k, 0)
                }));
            }
            assert forall|k: Seq<char>| held(after).contains_key(k) implies held(after)[k]
                == wanted[k] by {
                assert(place_of(after, k, 0) == (if k == name {
                    Some(p)
                } else {
                    place_of(before, k, 0)
                }));
                if k != name {
                    lemma_place_of(before, k, 0);
                    let q = place_of(before, k, 0)->0;
                    assert(after[q] == before[q]);
                }
            }
            assert(held(after) =~= wanted);
            assert forall|i: int, j: int| 0 <= i < j < after.len() implies (#[trigger] after[i]).0@
                != (#[trigger] after[j]).0@ by {
                if i != p {
                    assert(after[i] == before[i]);
                }
                if j != p {
                    assert(after[j] == before[j]);
                }
            }
        }
        *self = RepoExports { entries };
    }

    /// Takes in a file that was read for the package `name`: the package then
    /// holds the file behind the files it held before. No other package is
    /// touched, and no file is lost.
    pub fn keep(&mut self, name: &str, file: ElmFile)
        ensures
            final(self)@ == old(self)@.insert(name@, kept(old(self)@, name@, file@)),
    {
        let mut new_elm_files = match self.get(name) {
            Some(elm_files) => copy_files(elm_files),
            None => Vec::new(),
        };
        let ghost before = files_view(new_elm_files@);
        let ghost added = file@;
        new_elm_files.push(file);
        assert(files_view(new_elm_files@) =~= before.push(added));
        assert(before.push(added) =~= kept(old(self)@, name@, added));
        self.insert(String::from_str(name), new_elm_files);
    }

    /// The packages with their files: each name once, with what is held under
    /// it.
    pub fn into_groups(self) -> (groups: Vec<(String, Vec<ElmFile>)>)
        ensures
            keys_distinct(groups@),
            held(groups@) == self@,
    {
        proof {
            use_type_invariant(&self);
        }
        self.entries
    }
}

} // verus!
