//! The steps of one product's extraction. The caller performs each action
//! on the browser and reports back; only a failed navigation or a missing
//! baseline element ends the extraction without a record.

use vstd::prelude::*;
use crate::price::parse_spec;
use crate::record::{
    FailureRecord, PageProblem, ProductRecord, reason_text, NAME_SELECTOR, BRAND_SELECTOR,
    SKU_SELECTOR, CURRENT_PRICE_SELECTOR, PREVIOUS_PRICE_SELECTOR,
};
use crate::variants::{Variant, distinct_labels, labels_of};

verus! {

/// The fields read one after the other, each tolerant of absence.
#[derive(Clone, Copy, Debug, PartialEq, Eq, Structural)]
pub enum Field {
    Name,
    Brand,
    Sku,
    CurrentPrice,
    PreviousPrice,
}

/// How many fields are read.
pub const FIELD_COUNT: usize = 5;

pub open spec fn field_at(i: int) -> Field {
    if i == 0 {
        Field::Name
    } else if i == 1 {
        Field::Brand
    } else if i == 2 {
        Field::Sku
    } else if i == 3 {
        Field::CurrentPrice
    } else {
        Field::PreviousPrice
    }
}

fn field_number(i: usize) -> (r: Field)
    ensures
        r == field_at(i as int),
{
    if i == 0 {
        Field::Name
    } else if i == 1 {
        Field::Brand
    } else if i == 2 {
        Field::Sku
    } else if i == 3 {
        Field::CurrentPrice
    } else {
        Field::PreviousPrice
    }
}

impl Field {
    /// The element whose text holds this field.
    pub fn selector(&self) -> (r: &'static str)
        ensures
            *self == Field::Name ==> r == NAME_SELECTOR,
            *self == Field::Brand ==> r == BRAND_SELECTOR,
            *self == Field::Sku ==> r == SKU_SELECTOR,
            *self == Field::CurrentPrice ==> r == CURRENT_PRICE_SELECTOR,
            *self == Field::PreviousPrice ==> r == PREVIOUS_PRICE_SELECTOR,
    {
        match self {
            Field::Name => NAME_SELECTOR,
            Field::Brand => BRAND_SELECTOR,
            Field::Sku => SKU_SELECTOR,
            Field::CurrentPrice => CURRENT_PRICE_SELECTOR,
            Field::PreviousPrice => PREVIOUS_PRICE_SELECTOR,
        }
    }
}

/// What the caller is asked to do next.
#[derive(Debug)]
pub enum Action {
    /// Load this URL in the browser.
    Navigate(String),
    /// Check once that the baseline element is on the page.
    FindBaseline,
    /// Wait for the field's element and read its text.
    ReadField(Field),
    /// Discover the variants in the buy box.
    ExploreVariants,
    /// Persist this record.
    Save(ProductRecord),
    /// Log this failure; no record is produced.
    Abandon(FailureRecord),
}

/// The action is to log a failure of this work item, for this reason.
pub open spec fn abandons(r: Action, identifier: Seq<char>, url: Seq<char>, reason: Seq<char>) -> bool {
    r matches Action::Abandon(f) && f.identifier@ == identifier && f.url@ == url && f.reason@ == reason
}

/// Where an extraction stands: which report it waits for next.
#[derive(Clone, Copy, Debug, PartialEq, Eq, Structural)]
pub enum Phase {
    Loading,
    CheckingPage,
    ReadingFields,
    ExploringVariants,
    Finished,
}

/// One product's extraction in progress.
pub struct Extraction {
    identifier: String,
    url: String,
    phase: Phase,
    texts: Vec<Option<String>>,
}

impl Extraction {
    pub closed spec fn identifier(&self) -> Seq<char> {
        self.identifier@
    }

    pub closed spec fn url(&self) -> Seq<char> {
        self.url@
    }

    pub closed spec fn phase(&self) -> Phase {
        self.phase
    }

    /// The texts read so far, one per field in order.
    pub closed spec fn texts(&self) -> Seq<Option<String>> {
        self.texts@
    }

    pub closed spec fn wf(&self) -> bool {
        &&& self.texts@.len() <= FIELD_COUNT
        &&& (self.phase == Phase::Loading || self.phase == Phase::CheckingPage) ==> self.texts@.len()
            == 0
        &&& self.phase == Phase::ReadingFields ==> self.texts@.len() < FIELD_COUNT
        &&& self.phase == Phase::ExploringVariants ==> self.texts@.len() == FIELD_COUNT
    }

    /// Starts an extraction; the first action is to load `url`.
    pub fn start(identifier: String, url: String) -> (r: (Extraction, Action))
        ensures
            r.0.wf(),
            r.0.phase() == Phase::Loading,
            r.0.identifier() == identifier@,
            r.0.url() == url@,
            r.1 matches Action::Navigate(u) && u@ == url@,
    {
        let first = Action::Navigate(url.clone());
        (Extraction { identifier, url, phase: Phase::Loading, texts: Vec::new() }, first)
    }

    fn abandon(&mut self, problem: PageProblem) -> (r: Action)
        requires
            old(self).wf(),
        ensures
            final(self).wf(),
            final(self).phase() == Phase::Finished,
            final(self).identifier() == old(self).identifier(),
            final(self).url() == old(self).url(),
            abandons(r, old(self).identifier(), old(self).url(), reason_text(problem)),
    {
        self.phase = Phase::Finished;
        self.texts = Vec::new();
        Action::Abandon(FailureRecord::new(self.identifier.clone(), self.url.clone(), &problem))
    }

    /// The browser finished loading the URL, or failed with a message.
    pub fn navigated(&mut self, result: Result<(), String>) -> (r: Action)
        requires
            old(self).wf(),
            old(self).phase() == Phase::Loading,
        ensures
            final(self).wf(),
            final(self).identifier() == old(self).identifier(),
            final(self).url() == old(self).url(),
            result matches Err(m) ==> final(self).phase() == Phase::Finished && abandons(
                r,
                old(self).identifier(),
                old(self).url(),
                reason_text(PageProblem::Navigation(m)),
            ),
            result is Ok ==> final(self).phase() == Phase::CheckingPage && r
                matches Action::FindBaseline,
    {
        match result {
            Err(m) => self.abandon(PageProblem::Navigation(m)),
            Ok(()) => {
                self.phase = Phase::CheckingPage;
                Action::FindBaseline
            },
        }
    }

    /// Whether the baseline element was found.
    pub fn page_checked(&mut self, found: bool) -> (r: Action)
        requires
            old(self).wf(),
            old(self).phase() == Phase::CheckingPage,
        ensures
            final(self).wf(),
            final(self).identifier() == old(self).identifier(),
            final(self).url() == old(self).url(),
            !found ==> final(self).phase() == Phase::Finished && abandons(
                r,
                old(self).identifier(),
                old(self).url(),
                reason_text(PageProblem::MissingBaseline),
            ),
            found ==> final(self).phase() == Phase::ReadingFields && final(self).texts() == Seq::<
                Option<String>,
            >::empty() && r == Action::ReadField(field_at(0)),
    {
        if found {
            self.phase = Phase::ReadingFields;
            Action::ReadField(Field::Name)
        } else {
            self.abandon(PageProblem::MissingBaseline)
        }
    }

    /// The text of the field asked for last, `None` where its element never
    /// appeared or could not be read.
    pub fn field_read(&mut self, text: Option<String>) -> (r: Action)
        requires
            old(self).wf(),
            old(self).phase() == Phase::ReadingFields,
        ensures
            final(self).wf(),
            final(self).identifier() == old(self).identifier(),
            final(self).url() == old(self).url(),
            final(self).texts() == old(self).texts().push(text),
            final(self).texts().len() < FIELD_COUNT ==> final(self).phase() == Phase::ReadingFields
                && r == Action::ReadField(field_at(final(self).texts().len() as int)),
            final(self).texts().len() == FIELD_COUNT ==> final(self).phase()
                == Phase::ExploringVariants && r matches Action::ExploreVariants,
    {
        self.texts.push(text);
        if self.texts.len() < FIELD_COUNT {
            Action::ReadField(field_number(self.texts.len()))
        } else {
            self.phase = Phase::ExploringVariants;
            Action::ExploreVariants
        }
    }

    /// The variants discovered; the record is assembled from everything read.
    pub fn variants_found(&mut self, variants: Vec<Variant>) -> (r: Action)
        requires
            old(self).wf(),
            old(self).phase() == Phase::ExploringVariants,
            distinct_labels(labels_of(variants@)),
        ensures
            final(self).wf(),
            final(self).phase() == Phase::Finished,
            r matches Action::Save(rec) && {
                &&& rec.wf()
                &&& rec.url@ == old(self).url()
                &&& rec.name == old(self).texts()[0]
                &&& rec.brand == old(self).texts()[1]
                &&& rec.sku == old(self).texts()[2]
                &&& rec.current_price == parse_spec(text_view(old(self).texts()[3]))
                &&& rec.previous_price == parse_spec(text_view(old(self).texts()[4]))
                &&& rec.variants == variants
            },
    {
        self.phase = Phase::Finished;
        let mut texts = Vec::new();
        std::mem::swap(&mut texts, &mut self.texts);
        let previous = texts.pop().unwrap();
        let current = texts.pop().unwrap();
        let sku = texts.pop().unwrap();
        let brand = texts.pop().unwrap();
        let name = texts.pop().unwrap();
        let rec = ProductRecord::assemble(
            self.url.clone(),
            name,
            brand,
            sku,
            as_text(&current),
            as_text(&previous),
            variants,
        );
        Action::Save(rec)
    }
}

pub open spec fn text_view(t: Option<String>) -> Option<Seq<char>> {
    match t {
        Some(s) => Some(s@),
        None => None,
    }
}

fn as_text(t: &Option<String>) -> (r: Option<&str>)
    ensures
        crate::variants::opt_view(r) == text_view(*t),
{
    match t {
        Some(s) => Some(s.as_str()),
        None => None,
    }
}

} // verus!
