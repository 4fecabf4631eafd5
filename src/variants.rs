//! Variant discovery: candidates from the two control patterns of a buy box
//! are offered in order; each new, non-blank label is recorded before it is
//! activated, and its prices are read once the page has settled.

use vstd::prelude::*;
use crate::text::{is_blank, occurs_in, blank, contains_text};
use crate::price::{Price, parse_price, parse_spec};

verus! {

/// One variant control as read from the page.
#[derive(Clone, Debug)]
pub struct Candidate {
    pub label: String,
    pub available: bool,
}

/// A variant of a product, with the prices shown once it was selected.
#[derive(Clone, Debug)]
pub struct Variant {
    pub label: String,
    pub available: bool,
    pub current_price: Option<Price>,
    pub previous_price: Option<Price>,
}

pub open spec fn text_or_empty(s: Option<String>) -> Seq<char> {
    match s {
        Some(t) => t@,
        None => Seq::empty(),
    }
}

pub open spec fn opt_view(s: Option<&str>) -> Option<Seq<char>> {
    match s {
        Some(t) => Some(t@),
        None => None,
    }
}

fn string_or_empty(s: Option<String>) -> (r: String)
    ensures
        r@ == text_or_empty(s),
{
    match s {
        Some(t) => t,
        None => String::new(),
    }
}

/// A dropdown item: its visible text is the label, and it is available
/// unless its class list carries `back-in-stock-alert`.
pub fn dropdown_candidate(text: Option<String>, class_attr: Option<String>) -> (r: Candidate)
    ensures
        r.label@ == text_or_empty(text),
        r.available == !occurs_in(text_or_empty(class_attr), "back-in-stock-alert"@),
{
    let class_text = string_or_empty(class_attr);
    let marked = contains_text(class_text.as_str(), "back-in-stock-alert");
    Candidate { label: string_or_empty(text), available: !marked }
}

/// A swatch: its `option-label` attribute is the label, and it is available
/// unless its class list carries `disabled`.
pub fn swatch_candidate(option_label: Option<String>, class_attr: Option<String>) -> (r: Candidate)
    ensures
        r.label@ == text_or_empty(option_label),
        r.available == !occurs_in(text_or_empty(class_attr), "disabled"@),
{
    let class_text = string_or_empty(class_attr);
    let marked = contains_text(class_text.as_str(), "disabled");
    Candidate { label: string_or_empty(option_label), available: !marked }
}

/// A label is taken when it is not blank and has not been seen yet.
pub open spec fn admits(seen: Seq<Seq<char>>, label: Seq<char>) -> bool {
    !is_blank(label) && !seen.contains(label)
}

pub open spec fn after_offer(seen: Seq<Seq<char>>, label: Seq<char>) -> Seq<Seq<char>> {
    if admits(seen, label) {
        seen.push(label)
    } else {
        seen
    }
}

/// The labels recorded after offering `labels` in order, starting from `seen`.
pub open spec fn discover(seen: Seq<Seq<char>>, labels: Seq<Seq<char>>) -> Seq<Seq<char>>
    decreases labels.len(),
{
    if labels.len() == 0 {
        seen
    } else {
        after_offer(discover(seen, labels.drop_last()), labels.last())
    }
}

pub open spec fn distinct_labels(s: Seq<Seq<char>>) -> bool {
    forall|i: int, j: int| 0 <= i < j < s.len() ==> s[i] != s[j]
}

pub open spec fn labels_of(vs: Seq<Variant>) -> Seq<Seq<char>> {
    vs.map_values(|v: Variant| v.label@)
}

proof fn lemma_discover_extends(seen: Seq<Seq<char>>, labels: Seq<Seq<char>>)
    ensures
        seen.len() <= discover(seen, labels).len(),
        discover(seen, labels).subrange(0, seen.len() as int) == seen,
    decreases labels.len(),
{
    if labels.len() > 0 {
        let d = discover(seen, labels.drop_last());
        lemma_discover_extends(seen, labels.drop_last());
        if admits(d, labels.last()) {
            assert(d.push(labels.last()).subrange(0, seen.len() as int) =~= d.subrange(
                0,
                seen.len() as int,
            ));
        }
    }
}

proof fn lemma_discover_covers(seen: Seq<Seq<char>>, labels: Seq<Seq<char>>)
    ensures
        forall|k: int|
            0 <= k < labels.len() && !is_blank(#[trigger] labels[k]) ==> discover(
                seen,
                labels,
            ).contains(labels[k]),
    decreases labels.len(),
{
    if labels.len() > 0 {
        let front = labels.drop_last();
        let d = discover(seen, front);
        lemma_discover_covers(seen, front);
        let r = discover(seen, labels);
        assert forall|k: int| 0 <= k < labels.len() && !is_blank(#[trigger] labels[k]) implies r.contains(
            labels[k],
        ) by {
            if k < labels.len() - 1 {
                assert(front[k] == labels[k]);
                assert(d.contains(labels[k]));
                let j = choose|j: int| 0 <= j < d.len() && d[j] == labels[k];
                if admits(d, labels.last()) {
                    assert(r[j] == labels[k]);
                }
            } else if admits(d, labels.last()) {
                assert(r[d.len() as int] == labels[k]);
            }
        }
    }
}

proof fn lemma_discover_fixed(d: Seq<Seq<char>>, labels: Seq<Seq<char>>)
    requires
        forall|k: int|
            0 <= k < labels.len() ==> is_blank(#[trigger] labels[k]) || d.contains(labels[k]),
    ensures
        discover(d, labels) == d,
    decreases labels.len(),
{
    if labels.len() > 0 {
        let front = labels.drop_last();
        assert forall|k: int| 0 <= k < front.len() implies is_blank(#[trigger] front[k])
            || d.contains(front[k]) by {
            assert(front[k] == labels[k]);
        }
        lemma_discover_fixed(d, front);
        assert(is_blank(labels[labels.len() - 1]) || d.contains(labels[labels.len() - 1]));
    }
}

/// Offering the same controls a second time, with the same labels, records
/// nothing new: discovery is idempotent.
pub proof fn lemma_rediscovery_adds_nothing(seen: Seq<Seq<char>>, labels: Seq<Seq<char>>)
    ensures
        discover(discover(seen, labels), labels) == discover(seen, labels),
{
    lemma_discover_covers(seen, labels);
    lemma_discover_fixed(discover(seen, labels), labels);
}

/// Discovery never records a label twice.
pub proof fn lemma_discovery_distinct(seen: Seq<Seq<char>>, labels: Seq<Seq<char>>)
    requires
        distinct_labels(seen),
    ensures
        distinct_labels(discover(seen, labels)),
    decreases labels.len(),
{
    if labels.len() > 0 {
        lemma_discovery_distinct(seen, labels.drop_last());
        let d = discover(seen, labels.drop_last());
        if admits(d, labels.last()) {
            assert forall|i: int, j: int|
                0 <= i < j < d.push(labels.last()).len() implies d.push(labels.last())[i] != d.push(
                labels.last(),
            )[j] by {
                if j == d.len() {
                    assert(d[i] != labels.last());
                }
            }
        }
    }
}

proof fn lemma_discover_concat(seen: Seq<Seq<char>>, a: Seq<Seq<char>>, b: Seq<Seq<char>>)
    ensures
        discover(seen, a + b) == discover(discover(seen, a), b),
    decreases b.len(),
{
    if b.len() == 0 {
        assert(a + b =~= a);
    } else {
        assert((a + b).drop_last() =~= a + b.drop_last());
        lemma_discover_concat(seen, a, b.drop_last());
    }
}

/// The controls of the first pattern are offered before those of the
/// second: what the first recorded comes first, in its order, and no label
/// recorded from the first is recorded again from the second.
pub proof fn lemma_first_pattern_wins(
    seen: Seq<Seq<char>>,
    first: Seq<Seq<char>>,
    second: Seq<Seq<char>>,
)
    requires
        distinct_labels(seen),
    ensures
        ({
            let from_first = discover(seen, first);
            let all = discover(seen, first + second);
            &&& all.subrange(0, from_first.len() as int) == from_first
            &&& forall|i: int|
                from_first.len() <= i < all.len() ==> !from_first.contains(#[trigger] all[i])
        }),
{
    let from_first = discover(seen, first);
    let all = discover(seen, first + second);
    lemma_discover_concat(seen, first, second);
    lemma_discover_extends(from_first, second);
    lemma_discovery_distinct(seen, first + second);
    assert forall|i: int| from_first.len() <= i < all.len() implies !from_first.contains(
        #[trigger] all[i],
    ) by {
        if from_first.contains(all[i]) {
            let j = choose|j: int| 0 <= j < from_first.len() && from_first[j] == all[i];
            assert(all.subrange(0, from_first.len() as int)[j] == all[j]);
        }
    }
}

/// The state of one product's variant discovery.
pub struct VariantExplorer {
    seen: Vec<String>,
    variants: Vec<Variant>,
    pending: Option<Candidate>,
}

impl VariantExplorer {
    /// The labels recorded so far, in order.
    pub closed spec fn seen_labels(&self) -> Seq<Seq<char>> {
        self.seen@.map_values(|s: String| s@)
    }

    /// The variants completed so far, in order.
    pub closed spec fn found(&self) -> Seq<Variant> {
        self.variants@
    }

    /// The candidate taken and not yet settled.
    pub closed spec fn awaiting(&self) -> Option<Candidate> {
        self.pending
    }

    pub closed spec fn wf(&self) -> bool {
        &&& distinct_labels(self.seen_labels())
        &&& forall|i: int| 0 <= i < self.seen@.len() ==> !is_blank(#[trigger] self.seen@[i]@)
        &&& match self.pending {
            None => labels_of(self.variants@) == self.seen_labels(),
            Some(c) => labels_of(self.variants@).push(c.label@) == self.seen_labels(),
        }
    }

    pub fn new() -> (r: VariantExplorer)
        ensures
            r.wf(),
            r.seen_labels() == Seq::<Seq<char>>::empty(),
            r.found() == Seq::<Variant>::empty(),
            r.awaiting() is None,
    {
        let r = VariantExplorer { seen: Vec::new(), variants: Vec::new(), pending: None };
        assert(r.seen_labels() =~= Seq::<Seq<char>>::empty());
        assert(labels_of(r.variants@) =~= Seq::<Seq<char>>::empty());
        r
    }

    fn already_seen(&self, label: &String) -> (r: bool)
        ensures
            r == self.seen_labels().contains(label@),
    {
        let mut i: usize = 0;
        while i < self.seen.len()
            invariant
                i <= self.seen.len(),
                forall|k: int| 0 <= k < i ==> #[trigger] self.seen@[k]@ != label@,
            decreases self.seen.len() - i,
        {
            if self.seen[i] == *label {
                assert(self.seen_labels()[i as int] == label@);
                return true;
            }
            i += 1;
        }
        assert forall|k: int| 0 <= k < self.seen_labels().len() implies #[trigger] self.seen_labels()[k]
            != label@ by {
            assert(self.seen@[k]@ != label@);
        }
        false
    }

    /// Offers a control met on the page. A new, non-blank label is recorded
    /// at once, before it is activated, and `true` asks the caller to
    /// activate it, let the page settle and then call `settle`; anything
    /// else is skipped and leaves the explorer as it was.
    pub fn consider(&mut self, c: Candidate) -> (r: bool)
        requires
            old(self).wf(),
            old(self).awaiting() is None,
        ensures
            final(self).wf(),
            r == admits(old(self).seen_labels(), c.label@),
            final(self).seen_labels() == after_offer(old(self).seen_labels(), c.label@),
            final(self).found() == old(self).found(),
            final(self).awaiting() == (if r {
                Some(c)
            } else {
                None::<Candidate>
            }),
    {
        if blank(c.label.as_str()) {
            return false;
        }
        if self.already_seen(&c.label) {
            return false;
        }
        let ghost before = self.seen_labels();
        self.seen.push(c.label.clone());
        assert(self.seen_labels() =~= before.push(c.label@));
        self.pending = Some(c);
        true
    }

    /// Completes the candidate taken last, with the texts that the price
    /// elements showed after its activation (`None` where none was found).
    pub fn settle(&mut self, current_text: Option<&str>, previous_text: Option<&str>)
        requires
            old(self).wf(),
            old(self).awaiting() is Some,
        ensures
            final(self).wf(),
            final(self).awaiting() is None,
            final(self).seen_labels() == old(self).seen_labels(),
            final(self).found() == old(self).found().push(
                Variant {
                    label: old(self).awaiting()->0.label,
                    available: old(self).awaiting()->0.available,
                    current_price: parse_spec(opt_view(current_text)),
                    previous_price: parse_spec(opt_view(previous_text)),
                },
            ),
    {
        let c = self.pending.take().unwrap();
        let v = Variant {
            label: c.label,
            available: c.available,
            current_price: parse_price(current_text),
            previous_price: parse_price(previous_text),
        };
        let ghost before = self.variants@;
        self.variants.push(v);
        assert(labels_of(self.variants@) =~= labels_of(before).push(v.label@));
    }

    /// The variants found, in the order their labels were first met.
    pub fn finish(self) -> (r: Vec<Variant>)
        requires
            self.wf(),
            self.awaiting() is None,
        ensures
            r@ == self.found(),
            labels_of(r@) == self.seen_labels(),
            distinct_labels(labels_of(r@)),
    {
        self.variants
    }
}

} // verus!
