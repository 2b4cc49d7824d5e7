//! The calls of the platform's API: where each request goes, and what is
//! read from the body of each response.

use vstd::prelude::*;
use vstd::string::StringExecFns;
use crate::error::FetchError;
use crate::json::Json;
use crate::record::{Commit, EventView, Release};
use crate::text::{decimal, decimal_text, head, head_before, parse_unsigned, unsigned_value};
use crate::time::{read_rfc3339, rfc3339_instant, Timestamp};

verus! {

/// The address of a repository in the API.
pub open spec fn repository_path(owner: Seq<char>, repo: Seq<char>) -> Seq<char> {
    "https://gitee.com/api/v5/"@ + "/repos/"@ + owner + "/"@ + repo
}

/// The address of the list of contributors.
pub open spec fn contributors_path(owner: Seq<char>, repo: Seq<char>) -> Seq<char> {
    repository_path(owner, repo) + "/contributors?type=authors"@
}

/// The address of the license.
pub open spec fn license_path(owner: Seq<char>, repo: Seq<char>) -> Seq<char> {
    repository_path(owner, repo) + "/license"@
}

/// The address of one page of the commits of a branch, newest first, with
/// one commit on each page.
pub open spec fn commit_path(owner: Seq<char>, repo: Seq<char>, branch: Seq<char>, page: nat) -> Seq<
    char,
> {
    repository_path(owner, repo) + "/commits?sha="@ + branch + "&per_page=1&page="@ + decimal(page)
}

/// The address of the latest release.
pub open spec fn release_path(owner: Seq<char>, repo: Seq<char>) -> Seq<char> {
    repository_path(owner, repo) + "/releases?per_page=1&page=1&direction=desc"@
}

/// The address of one page of the commits since a date, with a hundred
/// commits on each page.
pub open spec fn participation_path(
    owner: Seq<char>,
    repo: Seq<char>,
    page: nat,
    since: Seq<char>,
) -> Seq<char> {
    repository_path(owner, repo) + "/commits?per_page=100&page="@ + decimal(page) + "&since="@
        + since
}

/// The page that shows the contributors of a repository.
pub open spec fn contributors_page(owner: Seq<char>, repo: Seq<char>) -> Seq<char> {
    "https://gitee.com/"@ + owner + "/"@ + repo + "/graphs/contributors"@
}

/// The address of a repository in the API.
pub fn repository_url(owner: &str, repo: &str) -> (url: String)
    ensures
        url@ == repository_path(owner@, repo@),
{
    let mut url = "https://gitee.com/api/v5/".to_owned();
    url.append("/repos/");
    url.append(owner);
    url.append("/");
    url.append(repo);
    url
}

/// The address of the list of contributors.
pub fn contributors_url(owner: &str, repo: &str) -> (url: String)
    ensures
        url@ == contributors_path(owner@, repo@),
{
    let mut url = repository_url(owner, repo);
    url.append("/contributors?type=authors");
    url
}

/// The address of the license.
pub fn license_url(owner: &str, repo: &str) -> (url: String)
    ensures
        url@ == license_path(owner@, repo@),
{
    let mut url = repository_url(owner, repo);
    url.append("/license");
    url
}

/// The address of one page of the commits of a branch.
pub fn commit_url(owner: &str, repo: &str, branch: &str, page: usize) -> (url: String)
    ensures
        url@ == commit_path(owner@, repo@, branch@, page as nat),
{
    let mut url = repository_url(owner, repo);
    url.append("/commits?sha=");
    url.append(branch);
    url.append("&per_page=1&page=");
    let number = decimal_text(page as u64);
    url.append(number.as_str());
    url
}

/// The address of the latest release.
pub fn release_url(owner: &str, repo: &str) -> (url: String)
    ensures
        url@ == release_path(owner@, repo@),
{
    let mut url = repository_url(owner, repo);
    url.append("/releases?per_page=1&page=1&direction=desc");
    url
}

/// The address of one page of the commits since a date.
pub fn participation_url(owner: &str, repo: &str, page: u64, since: &str) -> (url: String)
    ensures
        url@ == participation_path(owner@, repo@, page as nat, since@),
{
    let mut url = repository_url(owner, repo);
    url.append("/commits?per_page=100&page=");
    let number = decimal_text(page);
    url.append(number.as_str());
    url.append("&since=");
    url.append(since);
    url
}

/// The page that shows the contributors of a repository.
pub fn contributors_page_url(owner: &str, repo: &str) -> (url: String)
    ensures
        url@ == contributors_page(owner@, repo@),
{
    let mut url = "https://gitee.com/".to_owned();
    url.append(owner);
    url.append("/");
    url.append(repo);
    url.append("/graphs/contributors");
    url
}

/// The characters of a value that is a string, and no characters for
/// anything else or for no value.
pub open spec fn text_or_empty(value: Option<Json>) -> Seq<char> {
    match value {
        Some(v) => match v.text() {
            Some(text) => text,
            None => Seq::empty(),
        },
        None => Seq::empty(),
    }
}

/// The member `name` of a value, if there is a value and it has that member.
pub open spec fn nested(value: Option<Json>, name: Seq<char>) -> Option<Json> {
    match value {
        Some(v) => v.member(name),
        None => None,
    }
}

/// The text of a value, if it is a string.
pub open spec fn text_of(value: Option<Json>) -> Option<Seq<char>> {
    match value {
        Some(v) => v.text(),
        None => None,
    }
}

/// The instant that a text writes, if it writes one.
pub open spec fn instant_of(text: Option<Seq<char>>) -> Option<Timestamp> {
    match text {
        Some(t) => rfc3339_instant(t),
        None => None,
    }
}

/// The characters of a value that is a string.
fn string_or_empty(value: Option<&Json>) -> (text: String)
    ensures
        text@ == text_or_empty(
            match value {
                Some(v) => Some(*v),
                None => None,
            },
        ),
{
    match value {
        Some(v) => match v.as_str() {
            Some(text) => text.to_owned(),
            None => String::new(),
        },
        None => String::new(),
    }
}

/// What is read of a repository from the platform's description of it.
#[derive(Debug, PartialEq, Eq)]
pub struct PartRepository {
    pub default_branch: String,
    pub description: String,
    pub license: Option<Vec<String>>,
    pub stargazers_count: i64,
    pub topics: Vec<String>,
    pub html_url: String,
}

/// The items of a list that are strings, in their order.
pub open spec fn strings_in(items: Seq<Json>) -> Seq<Seq<char>>
    decreases items.len(),
{
    if items.len() == 0 {
        Seq::empty()
    } else {
        match items.last().text() {
            Some(text) => strings_in(items.drop_last()).push(text),
            None => strings_in(items.drop_last()),
        }
    }
}

/// The strings of a value that is a list, in their order, and no strings
/// for anything else or for no value.
pub open spec fn strings_of(value: Option<Json>) -> Seq<Seq<char>> {
    match value {
        Some(v) => match v.items() {
            Some(items) => strings_in(items),
            None => Seq::empty(),
        },
        None => Seq::empty(),
    }
}

/// A value that is a string as a list of that one string; no list for
/// anything else or for no value.
pub open spec fn one_string(value: Option<Json>) -> Option<Seq<Seq<char>>> {
    match text_of(value) {
        Some(text) => Some(seq![text]),
        None => None,
    }
}

/// The strings of a value that is a list.
fn strings_from(value: Option<&Json>) -> (strings: Vec<String>)
    ensures
        crate::text::texts(strings@) == strings_of(
            match value {
                Some(v) => Some(*v),
                None => None,
            },
        ),
{
    let mut strings: Vec<String> = Vec::new();
    if let Some(v) = value {
        if let Some(items) = v.as_array() {
            let mut i: usize = 0;
            while i < items.len()
                invariant
                    i <= items.len(),
                    crate::text::texts(strings@) == strings_in(items@.take(i as int)),
                decreases items.len() - i,
            {
                proof {
                    assert(items@.take(i + 1).drop_last() =~= items@.take(i as int));
                }
                if let Some(text) = items[i].as_str() {
                    let ghost before = crate::text::texts(strings@);
                    strings.push(text.to_owned());
                    assert(crate::text::texts(strings@) =~= before.push(text@));
                }
                i += 1;
            }
            assert(items@.take(items.len() as int) =~= items@);
            return strings;
        }
    }
    assert(crate::text::texts(strings@) =~= Seq::<Seq<char>>::empty());
    strings
}

/// The value of a member that is an integer, and 0 for anything else.
pub open spec fn integer_or_zero(value: Option<Json>) -> i64 {
    match value {
        Some(v) => match v.integer() {
            Some(n) => n,
            None => 0,
        },
        None => 0,
    }
}

impl PartRepository {
    /// `self` holds what `body` says of the repository: the default branch,
    /// the description and the URL as the text of their members, and empty
    /// where a member is missing or no string; the license as the one string
    /// of its member; the topics as the strings of their list, in order; the
    /// stars as a number.
    pub open spec fn read_from(self, body: Json) -> bool {
        &&& self.default_branch@ == text_or_empty(body.member("default_branch"@))
        &&& self.description@ == text_or_empty(body.member("description"@))
        &&& match self.license {
            Some(list) => Some(crate::text::texts(list@)),
            None => None,
        } == one_string(body.member("license"@))
        &&& self.stargazers_count == integer_or_zero(body.member("stargazers_count"@))
        &&& crate::text::texts(self.topics@) == strings_of(body.member("topics"@))
        &&& self.html_url@ == text_or_empty(body.member("html_url"@))
    }
}

/// Reads the description of a repository.
pub fn repository_from(body: &Json) -> (repository: PartRepository)
    ensures
        repository.read_from(*body),
{
    let license = match body.get("license") {
        Some(v) => match v.as_str() {
            Some(text) => {
                let mut list: Vec<String> = Vec::new();
                list.push(text.to_owned());
                assert(crate::text::texts(list@) =~= seq![text@]);
                Some(list)
            },
            None => None,
        },
        None => None,
    };
    let stargazers_count = match body.get("stargazers_count") {
        Some(v) => match v.as_i64() {
            Some(n) => n,
            None => 0,
        },
        None => 0,
    };
    PartRepository {
        default_branch: string_or_empty(body.get("default_branch")),
        description: string_or_empty(body.get("description")),
        license,
        stargazers_count,
        topics: strings_from(body.get("topics")),
        html_url: string_or_empty(body.get("html_url")),
    }
}

/// The number of items that `body` lists: the length of the list, and 0
/// where `body` is no list.
pub open spec fn listed_in_body(body: Json) -> nat {
    match body.items() {
        Some(items) => items.len(),
        None => 0,
    }
}

/// Reads the number of contributors: as many as the page lists.
pub fn contributors_count_from(body: &Json) -> (count: usize)
    ensures
        count == listed_in_body(*body),
{
    match body.as_array() {
        Some(items) => items.len(),
        None => 0,
    }
}

/// Reads the license: the member `license` where it is a string, and no
/// characters else.
pub fn license_from(body: &Json) -> (license: String)
    ensures
        license@ == text_or_empty(body.member("license"@)),
{
    string_or_empty(body.get("license"))
}

/// The date that the author of a commit gave it, as the platform writes it.
pub open spec fn author_date(commit: Json) -> Option<Seq<char>> {
    text_of(nested(nested(commit.member("commit"@), "author"@), "date"@))
}

/// The commit that a value of the platform stands for.
pub open spec fn commit_of(value: Json) -> EventView {
    EventView {
        url: text_or_empty(value.member("html_url"@)),
        ts: instant_of(author_date(value)),
    }
}

/// The date of the author of a commit.
pub fn author_date_of(commit: &Json) -> (date: Option<&str>)
    ensures
        match date {
            Some(d) => author_date(*commit) == Some(d@),
            None => author_date(*commit).is_none(),
        },
{
    match commit.get("commit") {
        Some(inner) => match inner.get("author") {
            Some(author) => match author.get("date") {
                Some(date) => date.as_str(),
                None => None,
            },
            None => None,
        },
        None => None,
    }
}

/// Reads a commit: its page, and the time of its author where that is a
/// date that can be read.
pub fn new_commit_from(value: &Json) -> (commit: Commit)
    ensures
        commit@ == commit_of(*value),
{
    let ts = match author_date_of(value) {
        Some(date) => read_rfc3339(date),
        None => None,
    };
    Commit { url: string_or_empty(value.get("html_url")), ts }
}

/// The address from which the first file of a release is had.
pub open spec fn download_address(release: Json) -> Seq<char> {
    text_or_empty(
        nested(
            match release.member("assets"@) {
                Some(assets) => assets.item(0),
                None => None,
            },
            "browser_download_url"@,
        ),
    )
}

/// The release that a value of the platform stands for. Its page is made
/// from the address of its first file, up to the word `archive`, and its tag.
pub open spec fn release_of(value: Json) -> EventView {
    EventView {
        url: head(download_address(value), "archive"@) + "releases/tag/"@ + text_or_empty(
            value.member("tag_name"@),
        ),
        ts: instant_of(text_of(value.member("created_at"@))),
    }
}

/// Reads a release.
pub fn new_release_from(value: &Json) -> (release: Release)
    ensures
        release@ == release_of(*value),
{
    let tag_name = string_or_empty(value.get("tag_name"));
    let first_file = match value.get("assets") {
        Some(assets) => assets.get_index(0),
        None => None,
    };
    let address = string_or_empty(
        match first_file {
            Some(file) => file.get("browser_download_url"),
            None => None,
        },
    );
    let mut url = head_before(address.as_str(), "archive");
    url.append("releases/tag/");
    url.append(tag_name.as_str());
    let ts = match value.get("created_at") {
        Some(created) => match created.as_str() {
            Some(date) => read_rfc3339(date),
            None => None,
        },
        None => None,
    };
    Release { url, ts }
}

/// The first item of a list as a commit, if `body` is a list with an item.
pub open spec fn first_commit_in(body: Json) -> Option<EventView> {
    match body.item(0) {
        Some(value) => Some(commit_of(value)),
        None => None,
    }
}

/// Reads the only commit of a page; none where the page is empty.
pub fn first_commit_from(body: &Json) -> (commit: Option<Commit>)
    ensures
        crate::record::commit_view(commit) == first_commit_in(*body),
{
    match body.get_index(0) {
        Some(value) => Some(new_commit_from(value)),
        None => None,
    }
}

/// A commit without a page and without a time.
pub open spec fn no_commit() -> EventView {
    EventView { url: Seq::empty(), ts: None }
}

/// Reads the newest commit of a page; a commit without page and time where
/// the page is empty.
pub fn latest_commit_from(body: &Json) -> (commit: Commit)
    ensures
        commit@ == match first_commit_in(*body) {
            Some(found) => found,
            None => no_commit(),
        },
{
    match body.get_index(0) {
        Some(value) => new_commit_from(value),
        None => Commit { url: String::new(), ts: None },
    }
}

/// The first item of a list as a release, if `body` is a list with an item.
pub open spec fn latest_release_in(body: Json) -> Option<EventView> {
    match body.item(0) {
        Some(value) => Some(release_of(value)),
        None => None,
    }
}

/// Reads the latest release; none where there is no release.
pub fn latest_release_from(body: &Json) -> (release: Option<Release>)
    ensures
        crate::record::release_view(release) == latest_release_in(*body),
{
    match body.get_index(0) {
        Some(value) => Some(new_release_from(value)),
        None => None,
    }
}

/// A byte that may stand in a header that is read as text: printable ASCII
/// or a tab.
pub open spec fn is_visible_ascii(b: u8) -> bool {
    32 <= b < 127 || b == 9
}

/// The number of the last page that the header with the total count gives:
/// none without the header, and an error for a header that is no text or no
/// number.
pub open spec fn last_page_of(total_count: Option<Seq<u8>>) -> Result<Option<usize>, FetchError> {
    match total_count {
        None => Ok(None),
        Some(value) => if !(forall|i: int| 0 <= i < value.len() ==> is_visible_ascii(#[trigger] value[i])) {
            Err(FetchError::UnreadableTotalCount)
        } else {
            match unsigned_value(value) {
                Some(n) => if n <= usize::MAX {
                    Ok(Some(n as usize))
                } else {
                    Err(FetchError::InvalidTotalCount)
                },
                None => Err(FetchError::InvalidTotalCount),
            }
        },
    }
}

/// The last page of results, from the header that counts the items. With
/// one item on a page the count of the items is the number of the last page.
pub fn get_last_page(total_count: Option<&[u8]>) -> (last_page: Result<Option<usize>, FetchError>)
    ensures
        last_page == last_page_of(
            match total_count {
                Some(value) => Some(value@),
                None => None,
            },
        ),
{
    match total_count {
        None => Ok(None),
        Some(value) => {
            let mut i: usize = 0;
            while i < value.len()
                invariant
                    i <= value.len(),
                    total_count == Some(value),
                    forall|j: int| 0 <= j < i ==> is_visible_ascii(#[trigger] value@[j]),
                decreases value.len() - i,
            {
                let b = value[i];
                if !(b >= 32 && b < 127 || b == 9) {
                    return Err(FetchError::UnreadableTotalCount);
                }
                i += 1;
            }
            match parse_unsigned(value) {
                Some(n) => Ok(Some(n)),
                None => Err(FetchError::InvalidTotalCount),
            }
        },
    }
}

/// The page on which the oldest commit stands: the last page, and the first
/// where the platform has not said which is the last.
pub open spec fn oldest_page(last_page: Option<usize>) -> usize {
    match last_page {
        Some(page) => page,
        None => 1,
    }
}

/// The items of page `page` where `items` are handed out `per_page` at a
/// time, the pages being counted from 1.
pub open spec fn page_of(items: Seq<Json>, per_page: nat, page: nat) -> Seq<Json> {
    if page >= 1 && (page - 1) * per_page < items.len() {
        let from = (page - 1) * per_page;
        let to = if from + per_page <= items.len() {
            from + per_page
        } else {
            items.len() as int
        };
        items.subrange(from, to)
    } else {
        Seq::empty()
    }
}

/// For commits that the platform lists newest first, one on each page, and
/// counts in its header: the last page is as many as there are commits, and
/// the commit on that page is the oldest of them.
pub proof fn lemma_oldest_commit(history: Seq<Json>)
    requires
        0 < history.len() <= usize::MAX,
    ensures
        last_page_of(Some(crate::text::decimal_digits(history.len()))) == Ok::<
            Option<usize>,
            FetchError,
        >(Some(history.len() as usize)),
        oldest_page(Some(history.len() as usize)) == history.len(),
        page_of(history, 1, history.len()) == seq![history.last()],
        forall|body: Json|
            body.items() == Some(page_of(history, 1, history.len())) ==> #[trigger] first_commit_in(
                body,
            ) == Some(commit_of(history.last())),
{
    let n = history.len();
    crate::text::lemma_decimal_round_trip(n);
    let digits = crate::text::decimal_digits(n);
    assert forall|i: int| 0 <= i < digits.len() implies is_visible_ascii(#[trigger] digits[i]) by {
        assert(crate::text::is_digit(digits[i]));
    }
}

} // verus!
