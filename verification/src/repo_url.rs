//! The shape of a repository URL on the platform, and its two names.

use vstd::prelude::*;
use vstd::string::StrSliceExecFns;
use crate::error::FetchError;
use crate::text::chars_of;

verus! {

/// What every repository URL begins with: the scheme, the host and a slash.
pub open spec fn repo_url_prefix() -> Seq<char> {
    seq![
        'h', 't', 't', 'p', 's', ':', '/', '/', 'g', 'i', 't', 'e', 'e', '.', 'c', 'o', 'm', '/',
    ]
}

/// A name between two slashes: at least one character, none of them a slash.
pub open spec fn is_segment(s: Seq<char>) -> bool {
    s.len() > 0 && forall|i: int| 0 <= i < s.len() ==> s[i] != '/'
}

/// The URL of a repository without a slash at its end: the prefix, the
/// owner, a slash and the repository.
pub open spec fn repo_url_plain(owner: Seq<char>, repo: Seq<char>) -> Seq<char> {
    repo_url_prefix() + owner + seq!['/'] + repo
}

/// `url` is the URL of the repository `repo` of `owner`, with or without
/// one slash at its end.
pub open spec fn names_repository(url: Seq<char>, owner: Seq<char>, repo: Seq<char>) -> bool {
    &&& is_segment(owner)
    &&& is_segment(repo)
    &&& (url == repo_url_plain(owner, repo) || url == repo_url_plain(owner, repo) + seq!['/'])
}

/// `url` is the URL of some repository of the platform.
pub open spec fn is_repo_url(url: Seq<char>) -> bool {
    exists|owner: Seq<char>, repo: Seq<char>| names_repository(url, owner, repo)
}

/// The parts of a repository URL lie in it one after the other: the 18
/// characters of the prefix, the owner, a slash, the repository, and one
/// more slash where the URL ends with one.
spec fn laid_out(url: Seq<char>, owner: Seq<char>, repo: Seq<char>) -> bool {
    &&& url.len() == 19 + owner.len() + repo.len() || url.len() == 20 + owner.len() + repo.len()
    &&& forall|i: int| 0 <= i < 18 ==> url[i] == repo_url_prefix()[i]
    &&& forall|i: int| 0 <= i < owner.len() ==> url[18 + i] == owner[i]
    &&& url[18 + owner.len() as int] == '/'
    &&& forall|i: int| 0 <= i < repo.len() ==> url[19 + owner.len() as int + i] == repo[i]
    &&& url.len() == 20 + owner.len() + repo.len() ==> url[url.len() - 1] == '/'
}

/// Where the parts of a repository URL lie in it.
proof fn lemma_shape(url: Seq<char>, owner: Seq<char>, repo: Seq<char>)
    requires
        names_repository(url, owner, repo),
    ensures
        laid_out(url, owner, repo),
{
    let plain = repo_url_plain(owner, repo);
    let on = owner.len() as int;
    assert forall|i: int| 0 <= i < 18 implies plain[i] == repo_url_prefix()[i] by {}
    assert forall|i: int| 0 <= i < on implies plain[18 + i] == owner[i] by {}
    assert forall|i: int| 0 <= i < repo.len() implies plain[19 + on + i] == repo[i] by {}
}

/// Whatever repository `url` names, its parts lie in `url` one after the
/// other.
proof fn lemma_shapes(url: Seq<char>)
    ensures
        forall|owner: Seq<char>, repo: Seq<char>| #[trigger]
            names_repository(url, owner, repo) ==> laid_out(url, owner, repo),
{
    assert forall|owner: Seq<char>, repo: Seq<char>| #[trigger]
        names_repository(url, owner, repo) implies laid_out(url, owner, repo) by {
        lemma_shape(url, owner, repo);
    }
}

/// A URL names one repository only.
pub proof fn lemma_names_one_repository(
    url: Seq<char>,
    owner: Seq<char>,
    repo: Seq<char>,
    other_owner: Seq<char>,
    other_repo: Seq<char>,
)
    requires
        names_repository(url, owner, repo),
        names_repository(url, other_owner, other_repo),
    ensures
        owner == other_owner,
        repo == other_repo,
{
    lemma_shape(url, owner, repo);
    lemma_shape(url, other_owner, other_repo);
}

/// Finds the slash after the owner and the end of the repository's name.
/// The owner begins after the 18 characters of the prefix.
fn locate(chars: &Vec<char>) -> (found: Option<(usize, usize)>)
    ensures
        match found {
            Some((slash, end)) => {
                &&& 18 < slash < end <= chars.len()
                &&& names_repository(
                    chars@,
                    chars@.subrange(18, slash as int),
                    chars@.subrange(slash + 1, end as int),
                )
            },
            None => !is_repo_url(chars@),
        },
{
    let prefix = chars_of("https://gitee.com/");
    proof {
        reveal_strlit("https://gitee.com/");
    }
    let n = chars.len();
    if n < 18 {
        proof {
            lemma_shapes(chars@);
        }
        return None;
    }
    let mut i: usize = 0;
    while i < 18
        invariant
            i <= 18 <= n,
            n == chars.len(),
            prefix@ == repo_url_prefix(),
            forall|j: int| 0 <= j < i ==> chars@[j] == repo_url_prefix()[j],
        decreases 18 - i,
    {
        if chars[i] != prefix[i] {
            proof {
                lemma_shapes(chars@);
            }
            return None;
        }
        i += 1;
    }
    let mut slash: usize = 18;
    while slash < n && chars[slash] != '/'
        invariant
            18 <= slash <= n,
            n == chars.len(),
            forall|j: int| 18 <= j < slash ==> chars@[j] != '/',
        decreases n - slash,
    {
        slash += 1;
    }
    if slash == 18 || slash >= n {
        proof {
            lemma_shapes(chars@);
        }
        return None;
    }
    let mut end: usize = n;
    if end > slash + 1 && chars[end - 1] == '/' {
        end -= 1;
    }
    let mut k: usize = slash + 1;
    while k < end && chars[k] != '/'
        invariant
            slash + 1 <= k,
            k <= end || end <= slash + 1,
            end <= n,
            n == chars.len(),
            forall|j: int| slash + 1 <= j < k ==> chars@[j] != '/',
        decreases end - k,
    {
        k += 1;
    }
    if end <= slash + 1 || k < end {
        proof {
            lemma_shapes(chars@);
        }
        return None;
    }
    proof {
        let owner = chars@.subrange(18, slash as int);
        let repo = chars@.subrange(slash + 1, end as int);
        if end == n {
            assert(chars@ =~= repo_url_plain(owner, repo));
        } else {
            assert(chars@ =~= repo_url_plain(owner, repo) + seq!['/']);
        }
    }
    Some((slash, end))
}

/// Whether `url` is the URL of a repository of the platform.
pub fn matches_repo_url(url: &str) -> (matches: bool)
    ensures
        matches == is_repo_url(url@),
{
    let chars = chars_of(url);
    locate(&chars).is_some()
}

/// The owner and the repository that `repo_url` names.
pub fn get_owner_and_repo(repo_url: &str) -> (result: Result<(String, String), FetchError>)
    ensures
        match result {
            Ok((owner, repo)) => names_repository(repo_url@, owner@, repo@),
            Err(error) => error == FetchError::InvalidRepositoryUrl && !is_repo_url(repo_url@),
        },
{
    let chars = chars_of(repo_url);
    match locate(&chars) {
        Some((slash, end)) => {
            let owner = repo_url.substring_char(18, slash).to_owned();
            let repo = repo_url.substring_char(slash + 1, end).to_owned();
            Ok((owner, repo))
        },
        None => Err(FetchError::InvalidRepositoryUrl),
    }
}

} // verus!
