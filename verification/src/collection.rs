//! The records of one run, each under the URL of its repository.

use vstd::prelude::*;
use crate::record::{RecordView, RepositoryRecord};
use crate::text::{compare, lemma_precedes_irreflexive, lemma_precedes_transitive, sorts_before, Order};
use vstd::utf8::encode_utf8;

verus! {

/// A record with the URL it is kept under.
#[derive(Debug, PartialEq, Eq)]
pub struct Entry {
    pub url: String,
    pub record: RepositoryRecord,
}

/// Each entry's URL sorts before those of all entries that follow it.
pub open spec fn keys_sorted(entries: Seq<Entry>) -> bool {
    forall|i: int, j: int|
        0 <= i < j < entries.len() ==> sorts_before(
            #[trigger] entries[i].url@,
            #[trigger] entries[j].url@,
        )
}

/// Some entry is kept under `url`.
pub open spec fn has_key(entries: Seq<Entry>, url: Seq<char>) -> bool {
    exists|i: int| 0 <= i < entries.len() && #[trigger] entries[i].url@ == url
}

/// The place of an entry that is kept under `url`.
pub open spec fn index_of(entries: Seq<Entry>, url: Seq<char>) -> int {
    choose|i: int| 0 <= i < entries.len() && #[trigger] entries[i].url@ == url
}

/// The entries as a map from URLs to records.
pub open spec fn map_of(entries: Seq<Entry>) -> Map<Seq<char>, RecordView> {
    Map::new(
        |url: Seq<char>| has_key(entries, url),
        |url: Seq<char>| entries[index_of(entries, url)].record@,
    )
}

/// In sorted entries a URL has one place only.
pub proof fn lemma_one_place(entries: Seq<Entry>, i: int)
    requires
        keys_sorted(entries),
        0 <= i < entries.len(),
    ensures
        has_key(entries, entries[i].url@),
        index_of(entries, entries[i].url@) == i,
        map_of(entries)[entries[i].url@] == entries[i].record@,
{
    lemma_precedes_irreflexive(encode_utf8(entries[i].url@));
}

/// The records of a run: a map from the URL of a repository to its record,
/// kept in the order of the URLs.
#[derive(Debug, PartialEq, Eq)]
pub struct CollectionResult {
    entries: Vec<Entry>,
}

impl View for CollectionResult {
    type V = Map<Seq<char>, RecordView>;

    closed spec fn view(&self) -> Map<Seq<char>, RecordView> {
        map_of(self.entries@)
    }
}

impl CollectionResult {
    #[verifier::type_invariant]
    spec fn well_formed(self) -> bool {
        keys_sorted(self.entries@)
    }

    /// A result without records.
    pub fn new() -> (result: CollectionResult)
        ensures
            result@ == Map::<Seq<char>, RecordView>::empty(),
    {
        let result = CollectionResult { entries: Vec::new() };
        result
    }

    /// The entries in the order of their URLs, as they are written to the cache.
    pub fn entries(&self) -> (entries: &Vec<Entry>)
        ensures
            keys_sorted(entries@),
            map_of(entries@) == self@,
    {
        proof {
            use_type_invariant(self);
        }
        &self.entries
    }

    /// The number of records.
    pub fn len(&self) -> (n: usize)
        ensures
            n == self@.dom().len(),
            self@.dom().finite(),
    {
        proof {
            use_type_invariant(self);
            lemma_domain_size(self.entries@);
        }
        self.entries.len()
    }

    /// The first place whose URL does not sort before `url`, and whether the
    /// entry at that place is kept under `url`.
    fn place(&self, url: &str) -> (found: (usize, bool))
        ensures
            found.0 <= self.entries.len(),
            forall|i: int| 0 <= i < found.0 ==> sorts_before(#[trigger] self.entries[i].url@, url@),
            found.1 ==> found.0 < self.entries.len() && self.entries[found.0 as int].url@ == url@,
            !found.1 ==> !has_key(self.entries@, url@),
            !found.1 && found.0 < self.entries.len() ==> sorts_before(
                url@,
                self.entries[found.0 as int].url@,
            ),
    {
        proof {
            use_type_invariant(self);
        }
        let mut at: usize = 0;
        while at < self.entries.len()
            invariant
                at <= self.entries.len(),
                keys_sorted(self.entries@),
                forall|i: int| 0 <= i < at ==> sorts_before(#[trigger] self.entries[i].url@, url@),
            decreases self.entries.len() - at,
        {
            match compare(self.entries[at].url.as_str(), url) {
                Order::Before => {
                    at += 1;
                },
                Order::Same => {
                    return (at, true);
                },
                Order::After => {
                    proof {
                        lemma_absent(self.entries@, url@, at as int);
                    }
                    return (at, false);
                },
            }
        }
        proof {
            lemma_absent(self.entries@, url@, at as int);
        }
        (at, false)
    }

    /// The record that is kept under `url`, if there is one.
    pub fn get(&self, url: &str) -> (record: Option<&RepositoryRecord>)
        ensures
            match record {
                Some(r) => self@.contains_key(url@) && self@[url@] == r@,
                None => !self@.contains_key(url@),
            },
    {
        proof {
            use_type_invariant(self);
        }
        let (at, found) = self.place(url);
        if found {
            proof {
                lemma_one_place(self.entries@, at as int);
            }
            Some(&self.entries[at].record)
        } else {
            None
        }
    }

    /// Keeps `record` under `url`, in place of the record that was kept
    /// under that URL before, if there was one.
    pub fn insert(&mut self, url: String, record: RepositoryRecord)
        ensures
            final(self)@ == old(self)@.insert(url@, record@),
    {
        proof {
            use_type_invariant(&*self);
        }
        let (at, found) = self.place(url.as_str());
        let ghost before = self.entries@;
        let ghost key = url@;
        let mut entries: Vec<Entry> = Vec::new();
        core::mem::swap(&mut self.entries, &mut entries);
        if found {
            let _ = entries.remove(at);
        }
        let ghost without = entries@;
        entries.insert(at, Entry { url, record });
        proof {
            let after = entries@;
            if found {
                lemma_removed(before, at as int);
            }
            assert forall|i: int| at <= i < without.len() implies sorts_before(
                key,
                #[trigger] without[i].url@,
            ) by {
                if !found && i > at {
                    lemma_precedes_transitive(
                        encode_utf8(key),
                        encode_utf8(before[at as int].url@),
                        encode_utf8(before[i].url@),
                    );
                }
            }
            lemma_inserted(without, after, at as int);
        }
        core::mem::swap(&mut self.entries, &mut entries);
    }

    /// Drops the record that is kept under `url`, if there is one.
    pub fn remove(&mut self, url: &str)
        ensures
            final(self)@ == old(self)@.remove(url@),
    {
        proof {
            use_type_invariant(&*self);
        }
        let (at, found) = self.place(url);
        let ghost before = self.entries@;
        if found {
            let mut entries: Vec<Entry> = Vec::new();
            core::mem::swap(&mut self.entries, &mut entries);
            let _ = entries.remove(at);
            proof {
                lemma_removed(before, at as int);
            }
            core::mem::swap(&mut self.entries, &mut entries);
        }
    }
}

/// Where all entries before a place sort before `url`, and `url` sorts
/// before the entry at that place, no entry is kept under `url`.
proof fn lemma_absent(entries: Seq<Entry>, url: Seq<char>, at: int)
    requires
        keys_sorted(entries),
        0 <= at <= entries.len(),
        forall|i: int| 0 <= i < at ==> sorts_before(#[trigger] entries[i].url@, url),
        at < entries.len() ==> sorts_before(url, entries[at].url@),
    ensures
        !has_key(entries, url),
{
    if has_key(entries, url) {
        let j = index_of(entries, url);
        lemma_precedes_irreflexive(encode_utf8(url));
        if j > at {
            lemma_precedes_transitive(
                encode_utf8(url),
                encode_utf8(entries[at].url@),
                encode_utf8(entries[j].url@),
            );
        }
    }
}

/// Taking an entry out of sorted entries takes its URL out of the map.
proof fn lemma_removed(before: Seq<Entry>, at: int)
    requires
        keys_sorted(before),
        0 <= at < before.len(),
    ensures
        keys_sorted(before.remove(at)),
        map_of(before.remove(at)) == map_of(before).remove(before[at].url@),
{
    let after = before.remove(at);
    let key = before[at].url@;
    assert forall|i: int, j: int| 0 <= i < j < after.len() implies sorts_before(
        #[trigger] after[i].url@,
        #[trigger] after[j].url@,
    ) by {}
    assert forall|u: Seq<char>| has_key(after, u) <==> has_key(before, u) && u != key by {
        if has_key(after, u) {
            let j = index_of(after, u);
            lemma_one_place(before, if j < at { j } else { j + 1 });
            lemma_one_place(before, at);
        }
        if has_key(before, u) && u != key {
            let j = index_of(before, u);
            assert(after[if j < at { j } else { j - 1 }].url@ == u);
        }
    }
    assert forall|u: Seq<char>| has_key(after, u) implies map_of(after)[u] == map_of(before)[u] by {
        let j = index_of(after, u);
        lemma_one_place(before, if j < at { j } else { j + 1 });
    }
}

/// Putting an entry at its place in sorted entries puts its URL into the map.
proof fn lemma_inserted(before: Seq<Entry>, after: Seq<Entry>, at: int)
    requires
        keys_sorted(before),
        0 <= at <= before.len(),
        after.len() == before.len() + 1,
        forall|i: int| 0 <= i < at ==> after[i] == before[i],
        forall|i: int| at < i < after.len() ==> after[i] == before[i - 1],
        forall|i: int| 0 <= i < at ==> sorts_before(#[trigger] before[i].url@, after[at].url@),
        forall|i: int|
            at <= i < before.len() ==> sorts_before(after[at].url@, #[trigger] before[i].url@),
    ensures
        keys_sorted(after),
        map_of(after) == map_of(before).insert(after[at].url@, after[at].record@),
{
    let key = after[at].url@;
    assert forall|i: int, j: int| 0 <= i < j < after.len() implies sorts_before(
        #[trigger] after[i].url@,
        #[trigger] after[j].url@,
    ) by {}
    assert forall|u: Seq<char>| has_key(after, u) <==> has_key(before, u) || u == key by {
        if has_key(before, u) {
            let j = index_of(before, u);
            assert(after[if j < at { j } else { j + 1 }].url@ == u);
        }
    }
    lemma_one_place(after, at);
    assert forall|u: Seq<char>| has_key(before, u) && u != key implies map_of(after)[u] == map_of(
        before,
    )[u] by {
        let j = index_of(before, u);
        lemma_one_place(after, if j < at { j } else { j + 1 });
    }
}

/// Sorted entries make a map with as many URLs as there are entries.
proof fn lemma_domain_size(entries: Seq<Entry>)
    requires
        keys_sorted(entries),
    ensures
        map_of(entries).dom().finite(),
        map_of(entries).dom().len() == entries.len(),
    decreases entries.len(),
{
    if entries.len() == 0 {
        assert(map_of(entries).dom() =~= Set::<Seq<char>>::empty());
    } else {
        let last = entries.len() - 1;
        let rest = entries.remove(last);
        lemma_removed(entries, last);
        lemma_domain_size(rest);
        lemma_one_place(entries, last);
    }
}

} // verus!
