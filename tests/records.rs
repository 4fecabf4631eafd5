use product_scraper::price::Price;
use product_scraper::record::{failures, FailureRecord, PageProblem, ProductRecord, TaskOutcome};
use product_scraper::variants::{Candidate, VariantExplorer};

#[test]
fn single_product_without_variants() {
    let r = ProductRecord::assemble(
        "https://x/p1".to_string(),
        Some("Shoe".to_string()),
        None,
        None,
        Some("49,90"),
        None,
        Vec::new(),
    );
    assert_eq!(r.url, "https://x/p1");
    assert_eq!(r.name.as_deref(), Some("Shoe"));
    assert_eq!(r.current_price, Some(Price { negative: false, mantissa: 4990, scale: 2 }));
    assert_eq!(r.previous_price, None);
    assert_eq!(r.is_purchasable(), Some(true));
    assert!(r.variants.is_empty());
}

#[test]
fn no_price_means_not_purchasable() {
    let mut ex = VariantExplorer::new();
    assert!(ex.consider(Candidate { label: "Red".to_string(), available: true }));
    ex.settle(Some("5"), None);
    let r = ProductRecord::assemble(
        "u".to_string(),
        None,
        Some("Brand".to_string()),
        Some("SKU-1".to_string()),
        Some("sold out"),
        Some("CHF 9,90"),
        ex.finish(),
    );
    assert_eq!(r.current_price, None);
    assert_eq!(r.is_purchasable(), Some(false));
    assert_eq!(r.previous_price, Some(Price { negative: false, mantissa: 990, scale: 2 }));
    assert_eq!(r.variants.len(), 1);
}

#[test]
fn failure_line_and_count() {
    let p = PageProblem::Navigation("dns".to_string());
    let f = FailureRecord::new("p2".to_string(), "https://x/p2".to_string(), &p);
    assert_eq!(f.to_line(), "p2,https://x/p2,navigation failed: dns");
    let g = FailureRecord::new("p3".to_string(), "u3".to_string(), &PageProblem::MissingBaseline);
    assert_eq!(g.to_line(), "p3,u3,baseline element not found");
    let outcomes = vec![
        TaskOutcome::Saved("p1".to_string()),
        TaskOutcome::Failed(f),
        TaskOutcome::Saved("p4".to_string()),
    ];
    assert_eq!(failures(&outcomes), 1);
    assert_eq!(failures(&Vec::new()), 0);
}
