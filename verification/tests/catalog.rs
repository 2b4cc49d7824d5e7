use gitee_data::catalog::{repository_urls, CatalogItem};

fn item(urls: &[&str]) -> CatalogItem {
    CatalogItem { repositories: Some(urls.iter().map(|url| url.to_string()).collect()) }
}

#[test]
fn urls_of_other_platforms_are_left_out() {
    let items = vec![
        item(&["https://github.com/a/b", "https://gitee.com/a/b"]),
        item(&["https://gitlab.com/c/d", "https://example.org"]),
    ];
    assert_eq!(repository_urls(&items), vec!["https://gitee.com/a/b".to_string()]);
}

#[test]
fn a_url_listed_by_several_items_comes_once() {
    let items = vec![
        item(&["https://gitee.com/a/b", "https://gitee.com/c/d"]),
        item(&["https://gitee.com/a/b"]),
        item(&["https://gitee.com/c/d", "https://gitee.com/a/b", "https://gitee.com/a/b"]),
    ];
    assert_eq!(
        repository_urls(&items),
        vec!["https://gitee.com/a/b".to_string(), "https://gitee.com/c/d".to_string()]
    );
}

#[test]
fn urls_come_sorted() {
    let items = vec![
        item(&["https://gitee.com/z/z", "https://gitee.com/b/a"]),
        item(&["https://gitee.com/a/b/", "https://gitee.com/a/b", "https://gitee.com/B/a"]),
    ];
    let mut expected = vec![
        "https://gitee.com/z/z".to_string(),
        "https://gitee.com/b/a".to_string(),
        "https://gitee.com/a/b/".to_string(),
        "https://gitee.com/a/b".to_string(),
        "https://gitee.com/B/a".to_string(),
    ];
    expected.sort();
    expected.dedup();
    assert_eq!(repository_urls(&items), expected);
}

#[test]
fn items_without_repositories_give_nothing() {
    let items = vec![CatalogItem { repositories: None }, item(&[]), CatalogItem { repositories: None }];
    assert_eq!(repository_urls(&items), Vec::<String>::new());
    assert_eq!(repository_urls(&Vec::new()), Vec::<String>::new());
}

#[test]
fn urls_come_in_the_same_order_whatever_the_order_of_the_items() {
    let urls = ["https://gitee.com/m/m", "https://gitee.com/a/a", "https://gitee.com/z/z", "https://gitee.com/m/m"];
    let forward = vec![item(&urls)];
    let backward: Vec<CatalogItem> = urls.iter().rev().map(|url| item(&[*url])).collect();
    let expected =
        vec!["https://gitee.com/a/a".to_string(), "https://gitee.com/m/m".to_string(), "https://gitee.com/z/z".to_string()];
    assert_eq!(repository_urls(&forward), expected);
    assert_eq!(repository_urls(&backward), expected);
}
