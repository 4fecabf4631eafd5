use product_scraper::price::Price;
use product_scraper::variants::{dropdown_candidate, swatch_candidate, Candidate, VariantExplorer};

fn some(s: &str) -> Option<String> {
    Some(s.to_string())
}

#[test]
fn two_dropdown_variants_in_order() {
    let mut ex = VariantExplorer::new();
    let red = dropdown_candidate(some("Red"), some("cs-swatches-expand-dropdown__item"));
    assert!(ex.consider(red));
    ex.settle(Some("19.99"), None);
    let blue = dropdown_candidate(
        some("Blue"),
        some("cs-swatches-expand-dropdown__item back-in-stock-alert"),
    );
    assert!(ex.consider(blue));
    ex.settle(None, None);
    let vs = ex.finish();
    assert_eq!(vs.len(), 2);
    assert_eq!(vs[0].label, "Red");
    assert!(vs[0].available);
    assert_eq!(vs[0].current_price, Some(Price { negative: false, mantissa: 1999, scale: 2 }));
    assert_eq!(vs[0].previous_price, None);
    assert_eq!(vs[1].label, "Blue");
    assert!(!vs[1].available);
    assert_eq!(vs[1].current_price, None);
}

#[test]
fn swatch_availability_and_label() {
    let c = swatch_candidate(some("XL"), some("swatch-option text disabled"));
    assert_eq!(c.label, "XL");
    assert!(!c.available);
    let c = swatch_candidate(some("M"), some("swatch-option text"));
    assert!(c.available);
    let c = swatch_candidate(None, None);
    assert_eq!(c.label, "");
    assert!(c.available);
}

#[test]
fn dropdown_without_text_or_class() {
    let c = dropdown_candidate(None, None);
    assert_eq!(c.label, "");
    assert!(c.available);
}

#[test]
fn label_from_first_pattern_is_not_taken_again() {
    let mut ex = VariantExplorer::new();
    assert!(ex.consider(dropdown_candidate(some("Red"), None)));
    ex.settle(Some("10,00"), Some("12,00"));
    assert!(!ex.consider(swatch_candidate(some("Red"), None)));
    assert!(ex.consider(swatch_candidate(some("Green"), None)));
    ex.settle(None, None);
    let vs = ex.finish();
    let labels: Vec<&str> = vs.iter().map(|v| v.label.as_str()).collect();
    assert_eq!(labels, vec!["Red", "Green"]);
    assert_eq!(vs[0].previous_price, Some(Price { negative: false, mantissa: 1200, scale: 2 }));
}

#[test]
fn second_pass_over_same_controls_adds_nothing() {
    let labels = ["S", "M", "S", "L"];
    let mut ex = VariantExplorer::new();
    let mut taken = 0;
    for l in labels {
        if ex.consider(Candidate { label: l.to_string(), available: true }) {
            ex.settle(None, None);
            taken += 1;
        }
    }
    assert_eq!(taken, 3);
    for l in labels {
        assert!(!ex.consider(Candidate { label: l.to_string(), available: true }));
    }
    let vs = ex.finish();
    let got: Vec<&str> = vs.iter().map(|v| v.label.as_str()).collect();
    assert_eq!(got, vec!["S", "M", "L"]);
}

#[test]
fn blank_labels_are_never_recorded() {
    let mut ex = VariantExplorer::new();
    assert!(!ex.consider(Candidate { label: String::new(), available: true }));
    assert!(!ex.consider(Candidate { label: " \t\u{a0}".to_string(), available: true }));
    assert!(ex.finish().is_empty());
}

#[test]
fn failed_activation_still_records_variant() {
    let mut ex = VariantExplorer::new();
    assert!(ex.consider(Candidate { label: "Gold".to_string(), available: true }));
    ex.settle(Some("n/a"), None);
    let vs = ex.finish();
    assert_eq!(vs.len(), 1);
    assert_eq!(vs[0].current_price, None);
}
