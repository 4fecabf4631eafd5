//! One product's extracted record, and what makes an extraction fail.

use vstd::prelude::*;
use vstd::string::StringExecFns;
use crate::price::{Price, parse_price, parse_spec};
use crate::variants::{Variant, distinct_labels, labels_of, opt_view};

verus! {

/// Present on every rendered page: its absence means nothing was loaded.
pub const BASELINE_SELECTOR: &'static str = "body";

pub const NAME_SELECTOR: &'static str = ".page-title span";

pub const BRAND_SELECTOR: &'static str = ".cs-buybox__brand-name span";

pub const SKU_SELECTOR: &'static str = ".cs-buybox__sku .value";

/// Read for the product and again after each variant is selected.
pub const CURRENT_PRICE_SELECTOR: &'static str = ".price-wrapper .price";

pub const PREVIOUS_PRICE_SELECTOR: &'static str = ".old-price .price";

/// The buy box that holds both kinds of variant control.
pub const BUYBOX_SELECTOR: &'static str = ".cs-buybox";

pub const DROPDOWN_ITEM_SELECTOR: &'static str = ".cs-swatches-expand-dropdown__item";

pub const SWATCH_SELECTOR: &'static str = ".swatch-attribute-options .swatch-option";

/// The pause after selecting a variant, for the page to re-render.
pub const SETTLE_MS: u64 = 500;

/// The data extracted from one product page.
#[derive(Clone, Debug)]
pub struct ProductRecord {
    pub url: String,
    pub name: Option<String>,
    pub brand: Option<String>,
    pub sku: Option<String>,
    pub current_price: Option<Price>,
    pub previous_price: Option<Price>,
    pub variants: Vec<Variant>,
}

impl ProductRecord {
    /// No two variants share a label.
    pub open spec fn wf(&self) -> bool {
        distinct_labels(labels_of(self.variants@))
    }

    /// Builds the record from what the page showed: the texts of the price
    /// elements are parsed, every other field is kept as found.
    pub fn assemble(
        url: String,
        name: Option<String>,
        brand: Option<String>,
        sku: Option<String>,
        current_text: Option<&str>,
        previous_text: Option<&str>,
        variants: Vec<Variant>,
    ) -> (r: ProductRecord)
        requires
            distinct_labels(labels_of(variants@)),
        ensures
            r.wf(),
            r.url == url,
            r.name == name,
            r.brand == brand,
            r.sku == sku,
            r.current_price == parse_spec(opt_view(current_text)),
            r.previous_price == parse_spec(opt_view(previous_text)),
            r.variants == variants,
    {
        ProductRecord {
            url,
            name,
            brand,
            sku,
            current_price: parse_price(current_text),
            previous_price: parse_price(previous_text),
            variants,
        }
    }

    /// A product can be bought exactly when it shows a current price; this
    /// is never recorded apart from the price.
    pub fn is_purchasable(&self) -> (r: Option<bool>)
        ensures
            r == Some(self.current_price is Some),
    {
        Some(self.current_price.is_some())
    }
}

/// Why a page could not be extracted at all.
#[derive(Clone, Debug)]
pub enum PageProblem {
    /// Loading the URL failed, with the browser's message.
    Navigation(String),
    /// The page loaded but its baseline element never appeared.
    MissingBaseline,
}

pub open spec fn reason_text(p: PageProblem) -> Seq<char> {
    match p {
        PageProblem::Navigation(m) => "navigation failed: "@ + m@,
        PageProblem::MissingBaseline => "baseline element not found"@,
    }
}

impl PageProblem {
    pub fn reason(&self) -> (r: String)
        ensures
            r@ == reason_text(*self),
    {
        match self {
            PageProblem::Navigation(m) => {
                let mut s = String::from_str("navigation failed: ");
                s.append(m.as_str());
                s
            },
            PageProblem::MissingBaseline => String::from_str("baseline element not found"),
        }
    }
}

/// A work item whose extraction failed, as one line of the failure log.
#[derive(Clone, Debug)]
pub struct FailureRecord {
    pub identifier: String,
    pub url: String,
    pub reason: String,
}

impl FailureRecord {
    pub fn new(identifier: String, url: String, problem: &PageProblem) -> (r: FailureRecord)
        ensures
            r.identifier == identifier,
            r.url == url,
            r.reason@ == reason_text(*problem),
    {
        FailureRecord { identifier, url, reason: problem.reason() }
    }

    /// `identifier,url,reason`, without the line break.
    pub fn to_line(&self) -> (r: String)
        ensures
            r@ == self.identifier@ + ","@ + self.url@ + ","@ + self.reason@,
    {
        let mut s = self.identifier.clone();
        s.append(",");
        s.append(self.url.as_str());
        s.append(",");
        s.append(self.reason.as_str());
        s
    }
}

/// How one scheduled extraction ended.
#[derive(Clone, Debug)]
pub enum TaskOutcome {
    /// A record was written for this identifier.
    Saved(String),
    Failed(FailureRecord),
}

pub open spec fn count_failed(outcomes: Seq<TaskOutcome>) -> nat
    decreases outcomes.len(),
{
    if outcomes.len() == 0 {
        0
    } else {
        count_failed(outcomes.drop_last()) + if outcomes.last() is Failed {
            1nat
        } else {
            0nat
        }
    }
}

/// How many of the extractions failed.
pub fn failures(outcomes: &Vec<TaskOutcome>) -> (r: usize)
    ensures
        r == count_failed(outcomes@),
{
    let mut n: usize = 0;
    let mut i: usize = 0;
    while i < outcomes.len()
        invariant
            i <= outcomes.len(),
            n == count_failed(outcomes@.take(i as int)),
            n <= i,
        decreases outcomes.len() - i,
    {
        assert(outcomes@.take(i + 1).drop_last() =~= outcomes@.take(i as int));
        if let TaskOutcome::Failed(_) = &outcomes[i] {
            n += 1;
        }
        i += 1;
    }
    assert(outcomes@.take(i as int) =~= outcomes@);
    n
}

} // verus!
