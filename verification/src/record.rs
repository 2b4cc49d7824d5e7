//! What is recorded of a repository.

use vstd::prelude::*;
use crate::text::texts;
use crate::time::Timestamp;

verus! {

/// A copy of a list of strings.
pub fn clone_strings(strings: &Vec<String>) -> (copy: Vec<String>)
    ensures
        texts(copy@) == texts(strings@),
{
    let mut copy: Vec<String> = Vec::new();
    let mut i: usize = 0;
    while i < strings.len()
        invariant
            i <= strings.len(),
            copy.len() == i,
            forall|j: int| 0 <= j < i ==> copy@[j]@ == strings@[j]@,
        decreases strings.len() - i,
    {
        copy.push(strings[i].clone());
        i += 1;
    }
    copy
}

/// A commit or a release as a page of the platform and the time it was made.
pub struct EventView {
    pub url: Seq<char>,
    pub ts: Option<Timestamp>,
}

/// A commit: its page on the platform and the time its author made it.
#[derive(Debug, PartialEq, Eq)]
pub struct Commit {
    pub url: String,
    pub ts: Option<Timestamp>,
}

impl View for Commit {
    type V = EventView;

    open spec fn view(&self) -> EventView {
        EventView { url: self.url@, ts: self.ts }
    }
}

impl Commit {
    /// A copy of the commit.
    pub fn duplicate(&self) -> (copy: Commit)
        ensures
            copy@ == self@,
    {
        Commit { url: self.url.clone(), ts: self.ts }
    }
}

/// A release: its page on the platform and the time it was made.
#[derive(Debug, PartialEq, Eq)]
pub struct Release {
    pub url: String,
    pub ts: Option<Timestamp>,
}

impl View for Release {
    type V = EventView;

    open spec fn view(&self) -> EventView {
        EventView { url: self.url@, ts: self.ts }
    }
}

impl Release {
    /// A copy of the release.
    pub fn duplicate(&self) -> (copy: Release)
        ensures
            copy@ == self@,
    {
        Release { url: self.url.clone(), ts: self.ts }
    }
}

/// How many people have contributed, and the page that shows them.
#[derive(Debug, PartialEq, Eq)]
pub struct Contributors {
    pub count: usize,
    pub url: String,
}

/// The bytes of code in one language.
#[derive(Debug, PartialEq, Eq)]
pub struct Language {
    pub name: String,
    pub bytes: i64,
}

/// The view of a list of languages: names with their byte counts.
pub open spec fn language_views(languages: Seq<Language>) -> Seq<(Seq<char>, i64)> {
    languages.map_values(|l: Language| (l.name@, l.bytes))
}

/// The view of an optional commit.
pub open spec fn commit_view(commit: Option<Commit>) -> Option<EventView> {
    match commit {
        Some(c) => Some(c@),
        None => None,
    }
}

/// The view of an optional release.
pub open spec fn release_view(release: Option<Release>) -> Option<EventView> {
    match release {
        Some(r) => Some(r@),
        None => None,
    }
}

/// The view of an optional string.
pub open spec fn text_view(text: Option<String>) -> Option<Seq<char>> {
    match text {
        Some(t) => Some(t@),
        None => None,
    }
}

/// The view of an optional list of languages.
pub open spec fn languages_view(languages: Option<Vec<Language>>) -> Option<Seq<(Seq<char>, i64)>> {
    match languages {
        Some(l) => Some(language_views(l@)),
        None => None,
    }
}

/// A record as plain values.
pub struct RecordView {
    pub contributors_count: usize,
    pub contributors_url: Seq<char>,
    pub description: Seq<char>,
    pub first_commit: Option<EventView>,
    pub generated_at: Timestamp,
    pub languages: Option<Seq<(Seq<char>, i64)>>,
    pub latest_commit: EventView,
    pub latest_release: Option<EventView>,
    pub license: Option<Seq<char>>,
    pub participation_stats: Seq<i64>,
    pub stars: i64,
    pub topics: Seq<Seq<char>>,
    pub url: Seq<char>,
}

/// What one collection has found out about one repository.
#[derive(Debug, PartialEq, Eq)]
pub struct RepositoryRecord {
    pub contributors: Contributors,
    pub description: String,
    pub first_commit: Option<Commit>,
    /// When the record was made.
    pub generated_at: Timestamp,
    pub languages: Option<Vec<Language>>,
    pub latest_commit: Commit,
    pub latest_release: Option<Release>,
    pub license: Option<String>,
    /// The commits of each of the 52 weeks before the collection, oldest first.
    pub participation_stats: Vec<i64>,
    pub stars: i64,
    pub topics: Vec<String>,
    pub url: String,
}

impl View for RepositoryRecord {
    type V = RecordView;

    open spec fn view(&self) -> RecordView {
        RecordView {
            contributors_count: self.contributors.count,
            contributors_url: self.contributors.url@,
            description: self.description@,
            first_commit: commit_view(self.first_commit),
            generated_at: self.generated_at,
            languages: languages_view(self.languages),
            latest_commit: self.latest_commit@,
            latest_release: release_view(self.latest_release),
            license: text_view(self.license),
            participation_stats: self.participation_stats@,
            stars: self.stars,
            topics: texts(self.topics@),
            url: self.url@,
        }
    }
}

/// A copy of a list of languages.
fn clone_languages(languages: &Vec<Language>) -> (copy: Vec<Language>)
    ensures
        language_views(copy@) == language_views(languages@),
{
    let mut copy: Vec<Language> = Vec::new();
    let mut i: usize = 0;
    while i < languages.len()
        invariant
            i <= languages.len(),
            copy.len() == i,
            forall|j: int|
                0 <= j < i ==> copy@[j].name@ == languages@[j].name@ && copy@[j].bytes
                    == languages@[j].bytes,
        decreases languages.len() - i,
    {
        copy.push(Language { name: languages[i].name.clone(), bytes: languages[i].bytes });
        i += 1;
    }
    copy
}

/// A copy of a list of numbers.
fn clone_counts(counts: &Vec<i64>) -> (copy: Vec<i64>)
    ensures
        copy@ == counts@,
{
    let mut copy: Vec<i64> = Vec::new();
    let mut i: usize = 0;
    while i < counts.len()
        invariant
            i <= counts.len(),
            copy@ == counts@.take(i as int),
        decreases counts.len() - i,
    {
        copy.push(counts[i]);
        i += 1;
    }
    copy
}

impl RepositoryRecord {
    /// A copy of the record, which holds the same values field by field.
    pub fn duplicate(&self) -> (copy: RepositoryRecord)
        ensures
            copy@ == self@,
    {
        RepositoryRecord {
            contributors: Contributors {
                count: self.contributors.count,
                url: self.contributors.url.clone(),
            },
            description: self.description.clone(),
            first_commit: match &self.first_commit {
                Some(c) => Some(c.duplicate()),
                None => None,
            },
            generated_at: self.generated_at,
            languages: match &self.languages {
                Some(l) => Some(clone_languages(l)),
                None => None,
            },
            latest_commit: self.latest_commit.duplicate(),
            latest_release: match &self.latest_release {
                Some(r) => Some(r.duplicate()),
                None => None,
            },
            license: match &self.license {
                Some(l) => Some(l.clone()),
                None => None,
            },
            participation_stats: clone_counts(&self.participation_stats),
            stars: self.stars,
            topics: clone_strings(&self.topics),
            url: self.url.clone(),
        }
    }
}

} // verus!
