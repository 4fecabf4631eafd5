use product_scraper::dispatch::{schedule, WorkItem};

fn item(id: &str, url: &str) -> WorkItem {
    WorkItem { identifier: id.to_string(), url: url.to_string() }
}

fn pairs(items: &[WorkItem]) -> Vec<(&str, &str)> {
    items.iter().map(|w| (w.identifier.as_str(), w.url.as_str())).collect()
}

#[test]
fn duplicate_identifiers_keep_first_url() {
    let list = vec![item("p1", "https://x/a"), item("p2", "https://x/b"), item("p1", "https://x/c")];
    let s = schedule(&list);
    assert_eq!(pairs(&s), vec![("p1", "https://x/a"), ("p2", "https://x/b")]);
}

#[test]
fn incomplete_rows_are_skipped() {
    let list = vec![item("", "https://x/a"), item("p1", ""), item("p1", "https://x/b"), item("", "")];
    let s = schedule(&list);
    assert_eq!(pairs(&s), vec![("p1", "https://x/b")]);
}

#[test]
fn single_item_and_empty_list() {
    assert_eq!(pairs(&schedule(&vec![item("p1", "https://x/p1")])), vec![("p1", "https://x/p1")]);
    assert!(schedule(&Vec::new()).is_empty());
}
