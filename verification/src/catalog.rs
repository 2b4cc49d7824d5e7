//! The repositories to look up: the URLs that the catalog lists and that
//! name a repository of the platform, each once, in sorted order.

use vstd::prelude::*;
use crate::repo_url::{is_repo_url, matches_repo_url};
use crate::text::{compare, lemma_precedes_transitive, sorts_before, Order};
use vstd::utf8::encode_utf8;

verus! {

/// One entry of the catalog, with the URLs of its repositories, if it has any.
#[derive(Debug, PartialEq, Eq)]
pub struct CatalogItem {
    pub repositories: Option<Vec<String>>,
}

impl CatalogItem {
    /// The URLs that the item lists; none where it has no repositories.
    pub open spec fn urls(self) -> Seq<String> {
        match self.repositories {
            Some(urls) => urls@,
            None => Seq::empty(),
        }
    }
}

/// `url` is one of the first `n` of `urls`.
pub open spec fn among(urls: Seq<String>, n: int, url: Seq<char>) -> bool {
    exists|j: int| 0 <= j < n && j < urls.len() && #[trigger] urls[j]@ == url
}

/// `url` is one of `urls`.
pub open spec fn holds(urls: Seq<String>, url: Seq<char>) -> bool {
    among(urls, urls.len() as int, url)
}

/// The item lists `url`.
pub open spec fn item_lists(item: CatalogItem, url: Seq<char>) -> bool {
    holds(item.urls(), url)
}

/// One of the first `n` items lists `url`.
pub open spec fn listed_in(items: Seq<CatalogItem>, n: int, url: Seq<char>) -> bool {
    exists|i: int| 0 <= i < n && i < items.len() && #[trigger] item_lists(items[i], url)
}

/// Some item of the catalog lists `url`.
pub open spec fn listed(items: Seq<CatalogItem>, url: Seq<char>) -> bool {
    listed_in(items, items.len() as int, url)
}

/// Each string sorts before all that follow it, so none occurs twice.
pub open spec fn strictly_sorted(urls: Seq<String>) -> bool {
    forall|i: int, j: int|
        0 <= i < j < urls.len() ==> sorts_before(#[trigger] urls[i]@, #[trigger] urls[j]@)
}

/// In a sorted list no string occurs at two places.
pub proof fn lemma_sorted_distinct(urls: Seq<String>, i: int, j: int)
    requires
        strictly_sorted(urls),
        0 <= i < urls.len(),
        0 <= j < urls.len(),
        urls[i]@ == urls[j]@,
    ensures
        i == j,
{
    crate::text::lemma_precedes_irreflexive(encode_utf8(urls[i]@));
}

/// The texts of a sorted list are all different.
pub proof fn lemma_sorted_no_duplicates(urls: Seq<String>)
    requires
        strictly_sorted(urls),
    ensures
        crate::text::texts(urls).no_duplicates(),
{
    let texts = crate::text::texts(urls);
    assert forall|i: int, j: int| 0 <= i < texts.len() && 0 <= j < texts.len() && i != j implies texts[i]
        != texts[j] by {
        if texts[i] == texts[j] {
            lemma_sorted_distinct(urls, i, j);
        }
    }
}

/// Puts `url` at its place in the sorted list, unless the list has it already.
fn insert_sorted(urls: &mut Vec<String>, url: String)
    requires
        strictly_sorted(old(urls)@),
    ensures
        strictly_sorted(final(urls)@),
        forall|u: Seq<char>| #[trigger] holds(final(urls)@, u) <==> holds(old(urls)@, u) || u == url@,
{
    let mut at: usize = 0;
    let mut placed = false;
    while at < urls.len() && !placed
        invariant
            at <= urls.len(),
            *urls == *old(urls),
            strictly_sorted(urls@),
            forall|i: int| 0 <= i < at ==> sorts_before(#[trigger] urls@[i]@, url@),
            placed ==> at < urls.len() && sorts_before(url@, urls@[at as int]@),
        decreases urls.len() - at + if placed { 0int } else { 1int },
    {
        match compare(urls[at].as_str(), url.as_str()) {
            Order::Before => {
                at += 1;
            },
            Order::Same => {
                return ;
            },
            Order::After => {
                placed = true;
            },
        }
    }
    let ghost before = urls@;
    urls.insert(at, url);
    proof {
        let after = urls@;
        assert forall|i: int, j: int| 0 <= i < j < after.len() implies sorts_before(
            #[trigger] after[i]@,
            #[trigger] after[j]@,
        ) by {
            if i == at && j - 1 > at {
                lemma_precedes_transitive(
                    encode_utf8(url@),
                    encode_utf8(before[at as int]@),
                    encode_utf8(before[j - 1]@),
                );
            }
        }
        assert forall|u: Seq<char>| #[trigger] holds(after, u) <==> holds(before, u) || u == url@ by {
            if holds(before, u) {
                let j = choose|j: int| 0 <= j < before.len() && #[trigger] before[j]@ == u;
                let nj = if j < at { j } else { j + 1 };
                assert(after[nj]@ == u);
            }
            if u == url@ {
                assert(after[at as int]@ == u);
            }
        }
    }
}

/// The URLs of the catalog that name a repository of the platform, sorted,
/// each once. URLs of other shapes belong to other platforms and are left out.
pub fn repository_urls(items: &Vec<CatalogItem>) -> (urls: Vec<String>)
    ensures
        strictly_sorted(urls@),
        crate::text::texts(urls@).no_duplicates(),
        forall|u: Seq<char>| #[trigger] holds(urls@, u) <==> listed(items@, u) && is_repo_url(u),
{
    let mut urls: Vec<String> = Vec::new();
    let mut i: usize = 0;
    while i < items.len()
        invariant
            i <= items.len(),
            strictly_sorted(urls@),
            forall|u: Seq<char>| #[trigger]
                holds(urls@, u) <==> listed_in(items@, i as int, u) && is_repo_url(u),
        decreases items.len() - i,
    {
        let ghost item = items@[i as int];
        if let Some(listed_urls) = &items[i].repositories {
            let mut j: usize = 0;
            while j < listed_urls.len()
                invariant
                    i < items.len(),
                    j <= listed_urls.len(),
                    item == items@[i as int],
                    item.urls() == listed_urls@,
                    strictly_sorted(urls@),
                    forall|u: Seq<char>| #[trigger]
                        holds(urls@, u) <==> (listed_in(items@, i as int, u) || among(
                            listed_urls@,
                            j as int,
                            u,
                        )) && is_repo_url(u),
                decreases listed_urls.len() - j,
            {
                if matches_repo_url(listed_urls[j].as_str()) {
                    insert_sorted(&mut urls, listed_urls[j].clone());
                }
                proof {
                    let this = listed_urls@[j as int]@;
                    assert forall|u: Seq<char>|
                        among(listed_urls@, j + 1, u) <==> among(listed_urls@, j as int, u) || u
                            == this by {}
                }
                j += 1;
            }
        }
        proof {
            assert forall|u: Seq<char>|
                listed_in(items@, i + 1, u) <==> listed_in(items@, i as int, u) || item_lists(
                    item,
                    u,
                ) by {}
            assert forall|u: Seq<char>| #[trigger]
                holds(urls@, u) <==> listed_in(items@, i + 1, u) && is_repo_url(u) by {
                assert(holds(item.urls(), u) == item_lists(item, u));
            }
        }
        i += 1;
    }
    proof {
        lemma_sorted_no_duplicates(urls@);
    }
    urls
}

} // verus!
