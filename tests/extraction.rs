use product_scraper::extract::{Action, Extraction, Field};
use product_scraper::price::Price;
use product_scraper::record::{ProductRecord, CURRENT_PRICE_SELECTOR, NAME_SELECTOR};
use product_scraper::variants::{dropdown_candidate, VariantExplorer};

fn read_fields(ex: &mut Extraction, texts: [Option<&str>; 5]) -> Vec<Field> {
    let mut asked = Vec::new();
    let mut next = ex.page_checked(true);
    for t in texts {
        match next {
            Action::ReadField(f) => asked.push(f),
            other => panic!("expected a field to read, got {:?}", other),
        }
        next = ex.field_read(t.map(|s| s.to_string()));
    }
    assert!(matches!(next, Action::ExploreVariants));
    asked
}

fn saved(a: Action) -> ProductRecord {
    match a {
        Action::Save(r) => r,
        other => panic!("expected a record, got {:?}", other),
    }
}

#[test]
fn product_with_name_and_price_only() {
    let (mut ex, first) = Extraction::start("p1".to_string(), "https://x/p1".to_string());
    assert!(matches!(first, Action::Navigate(ref u) if u == "https://x/p1"));
    assert!(matches!(ex.navigated(Ok(())), Action::FindBaseline));
    let asked = read_fields(&mut ex, [Some("Shoe"), None, None, Some("49,90"), None]);
    assert_eq!(
        asked,
        vec![Field::Name, Field::Brand, Field::Sku, Field::CurrentPrice, Field::PreviousPrice]
    );
    let rec = saved(ex.variants_found(Vec::new()));
    assert_eq!(rec.url, "https://x/p1");
    assert_eq!(rec.name.as_deref(), Some("Shoe"));
    assert_eq!(rec.brand, None);
    assert_eq!(rec.current_price, Some(Price { negative: false, mantissa: 4990, scale: 2 }));
    assert_eq!(rec.previous_price, None);
    assert_eq!(rec.is_purchasable(), Some(true));
    assert!(rec.variants.is_empty());
}

#[test]
fn product_with_two_dropdown_variants() {
    let (mut ex, _) = Extraction::start("p2".to_string(), "https://x/p2".to_string());
    ex.navigated(Ok(()));
    read_fields(&mut ex, [Some("Cap"), Some("Acme"), Some("C-1"), Some("CHF 19.99"), None]);
    let mut vx = VariantExplorer::new();
    assert!(vx.consider(dropdown_candidate(Some("Red".to_string()), Some("item".to_string()))));
    vx.settle(Some("19.99"), None);
    let blue = dropdown_candidate(Some("Blue".to_string()), Some("item back-in-stock-alert".to_string()));
    assert!(vx.consider(blue));
    vx.settle(None, None);
    let rec = saved(ex.variants_found(vx.finish()));
    assert_eq!(rec.variants.len(), 2);
    assert_eq!(rec.variants[0].label, "Red");
    assert!(rec.variants[0].available);
    assert_eq!(
        rec.variants[0].current_price,
        Some(Price { negative: false, mantissa: 1999, scale: 2 })
    );
    assert_eq!(rec.variants[1].label, "Blue");
    assert!(!rec.variants[1].available);
    assert_eq!(rec.variants[1].current_price, None);
    assert_eq!(rec.brand.as_deref(), Some("Acme"));
    assert_eq!(rec.sku.as_deref(), Some("C-1"));
}

#[test]
fn navigation_failure_produces_no_record() {
    let (mut ex, _) = Extraction::start("p3".to_string(), "https://x/p3".to_string());
    match ex.navigated(Err("connection refused".to_string())) {
        Action::Abandon(f) => {
            assert_eq!(f.identifier, "p3");
            assert_eq!(f.url, "https://x/p3");
            assert_eq!(f.to_line(), "p3,https://x/p3,navigation failed: connection refused");
        }
        other => panic!("expected the task to be abandoned, got {:?}", other),
    }
}

#[test]
fn missing_baseline_produces_no_record() {
    let (mut ex, _) = Extraction::start("p4".to_string(), "u4".to_string());
    ex.navigated(Ok(()));
    match ex.page_checked(false) {
        Action::Abandon(f) => assert_eq!(f.reason, "baseline element not found"),
        other => panic!("expected the task to be abandoned, got {:?}", other),
    }
}

#[test]
fn sibling_extraction_unaffected_by_failure() {
    let (mut bad, _) = Extraction::start("a".to_string(), "https://x/a".to_string());
    let (mut good, _) = Extraction::start("b".to_string(), "https://x/b".to_string());
    assert!(matches!(bad.navigated(Err("boom".to_string())), Action::Abandon(_)));
    good.navigated(Ok(()));
    read_fields(&mut good, [None, None, None, None, None]);
    let rec = saved(good.variants_found(Vec::new()));
    assert_eq!(rec.url, "https://x/b");
    assert_eq!(rec.current_price, None);
    assert_eq!(rec.is_purchasable(), Some(false));
}

#[test]
fn field_selectors() {
    assert_eq!(Field::Name.selector(), NAME_SELECTOR);
    assert_eq!(Field::CurrentPrice.selector(), CURRENT_PRICE_SELECTOR);
    assert_eq!(Field::Sku.selector(), ".cs-buybox__sku .value");
}
