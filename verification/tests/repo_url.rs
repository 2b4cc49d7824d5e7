use gitee_data::error::FetchError;
use gitee_data::repo_url::{get_owner_and_repo, matches_repo_url};

#[test]
fn owner_and_repo_of_a_plain_url() {
    assert_eq!(
        get_owner_and_repo("https://gitee.com/openharmony/docs"),
        Ok(("openharmony".to_string(), "docs".to_string()))
    );
}

#[test]
fn owner_and_repo_of_a_url_with_a_slash_at_the_end() {
    assert_eq!(
        get_owner_and_repo("https://gitee.com/openharmony/docs/"),
        Ok(("openharmony".to_string(), "docs".to_string()))
    );
}

#[test]
fn owner_and_repo_may_hold_any_character_but_a_slash() {
    assert_eq!(
        get_owner_and_repo("https://gitee.com/a b/c?d#e"),
        Ok(("a b".to_string(), "c?d#e".to_string()))
    );
    assert_eq!(
        get_owner_and_repo("https://gitee.com/所有者/仓库"),
        Ok(("所有者".to_string(), "仓库".to_string()))
    );
}

#[test]
fn a_url_of_another_host_is_invalid() {
    assert_eq!(
        get_owner_and_repo("https://github.com/owner/repo"),
        Err(FetchError::InvalidRepositoryUrl)
    );
    assert_eq!(
        get_owner_and_repo("https://giteeXcom/owner/repo"),
        Err(FetchError::InvalidRepositoryUrl)
    );
    assert_eq!(
        get_owner_and_repo("https://gitee.com.example.org/owner/repo"),
        Err(FetchError::InvalidRepositoryUrl)
    );
}

#[test]
fn a_url_of_another_scheme_is_invalid() {
    assert_eq!(
        get_owner_and_repo("http://gitee.com/owner/repo"),
        Err(FetchError::InvalidRepositoryUrl)
    );
    assert_eq!(
        get_owner_and_repo(" https://gitee.com/owner/repo"),
        Err(FetchError::InvalidRepositoryUrl)
    );
}

#[test]
fn a_url_with_too_few_or_too_many_parts_is_invalid() {
    for url in [
        "",
        "https://gitee.com",
        "https://gitee.com/",
        "https://gitee.com/owner",
        "https://gitee.com/owner/",
        "https://gitee.com//repo",
        "https://gitee.com/owner//",
        "https://gitee.com/owner/repo//",
        "https://gitee.com/owner/repo/issues",
        "https://gitee.com/owner/repo/issues/",
    ] {
        assert_eq!(get_owner_and_repo(url), Err(FetchError::InvalidRepositoryUrl));
        assert!(!matches_repo_url(url));
    }
}

#[test]
fn matches_repo_url_accepts_what_has_an_owner_and_a_repo() {
    assert!(matches_repo_url("https://gitee.com/a/b"));
    assert!(matches_repo_url("https://gitee.com/a/b/"));
    assert!(matches_repo_url("https://gitee.com/mindspore/mindspore"));
    assert!(!matches_repo_url("https://gitlab.com/a/b"));
}
