//! The rules by which one candidate item of a listing page becomes a record,
//! and by which a page's candidates become its records.

use vstd::prelude::*;
use vstd::string::StringExecFns;
use crate::number::{float_literal, is_float_literal};
use crate::pattern::{find, leftmost_match};
use crate::providers::{distinct_urls, listed, records, Product, ProductView, Provider};
use crate::text::{chars_of, replace_char, replaced, string_of};

verus! {

/// What the anchors of one candidate item gave: the image reference, the
/// title, the link to the detail page and the price text, each as far as
/// the item's markup has it.
#[derive(Debug)]
pub struct ItemAnchors {
    pub image: Option<String>,
    pub title: Option<String>,
    pub link: Option<String>,
    pub price: Option<String>,
}

/// What the anchors say.
pub struct AnchorsView {
    pub image: Option<Seq<char>>,
    pub title: Option<Seq<char>>,
    pub link: Option<Seq<char>>,
    pub price: Option<Seq<char>>,
}

/// The text that an optional string holds.
pub open spec fn text_of(s: Option<String>) -> Option<Seq<char>> {
    match s {
        Some(t) => Some(t@),
        None => None,
    }
}

impl View for ItemAnchors {
    type V = AnchorsView;

    open spec fn view(&self) -> AnchorsView {
        AnchorsView {
            image: text_of(self.image),
            title: text_of(self.title),
            link: text_of(self.link),
            price: text_of(self.price),
        }
    }
}

/// What a candidate item lacks.
#[derive(Clone, Copy, Debug, PartialEq, Eq, Structural)]
pub enum ItemDefect {
    /// No image reference.
    Image,
    /// No title.
    Title,
    /// No link to the detail page.
    Link,
    /// No price.
    Price,
    /// The price text is no number.
    PriceText,
}

/// What became of a candidate item.
#[derive(Clone, Copy, Debug, PartialEq, Eq, Structural)]
pub enum ItemOutcome {
    /// It was added to the page's records.
    Accepted,
    /// It is an advertisement and was left out.
    Sponsored,
    /// Its detail page is already among the page's records.
    Duplicate,
    /// It could not be read.
    Malformed(ItemDefect),
}

/// Why a page yields no extraction at all.
#[derive(Clone, Copy, Debug, PartialEq, Eq, Structural)]
pub enum PageError {
    /// The page has no container of the expected kind: its layout is not
    /// the one that the extractor was built for.
    StructuralMismatch,
    /// A selector of the extractor was refused.
    InvalidSelector,
}

/// The word by which a title gives an advertisement away.
pub open spec fn sponsored_pattern() -> Seq<char> {
    "Gesponsord"@
}

/// Whether the title marks an advertisement of the source.
pub open spec fn is_sponsored(title: Seq<char>, provider: Provider) -> bool {
    provider == Provider::Amazon && leftmost_match(sponsored_pattern(), title) is Some
}

/// The absolute address of a link of the source.
pub open spec fn absolute(provider: Provider, link: Seq<char>) -> Seq<char> {
    provider.root() + link
}

/// The price text with decimal commas turned into points.
pub open spec fn normalized_price(raw: Seq<char>) -> Seq<char> {
    replaced(raw, ',', '.')
}

/// What becomes of a candidate with the anchors `a`, met while `buffer`
/// holds the page's records so far. The first rule that applies decides.
pub open spec fn outcome_of(a: AnchorsView, provider: Provider, buffer: Seq<ProductView>)
    -> ItemOutcome {
    if a.image is None {
        ItemOutcome::Malformed(ItemDefect::Image)
    } else if a.title is None {
        ItemOutcome::Malformed(ItemDefect::Title)
    } else if is_sponsored(a.title->0, provider) {
        ItemOutcome::Sponsored
    } else if a.link is None {
        ItemOutcome::Malformed(ItemDefect::Link)
    } else if listed(buffer, absolute(provider, a.link->0)) {
        ItemOutcome::Duplicate
    } else if a.price is None {
        ItemOutcome::Malformed(ItemDefect::Price)
    } else if !is_float_literal(normalized_price(a.price->0)) {
        ItemOutcome::Malformed(ItemDefect::PriceText)
    } else {
        ItemOutcome::Accepted
    }
}

/// The record of an accepted candidate.
pub open spec fn record_of(a: AnchorsView, provider: Provider) -> ProductView {
    ProductView {
        title: a.title->0,
        image: a.image->0,
        url: absolute(provider, a.link->0),
        price: normalized_price(a.price->0),
        ean: None,
    }
}

/// The page's records after the candidate was met.
pub open spec fn buffer_after(a: AnchorsView, provider: Provider, buffer: Seq<ProductView>) -> Seq<
    ProductView,
> {
    if outcome_of(a, provider, buffer) is Accepted {
        buffer.push(record_of(a, provider))
    } else {
        buffer
    }
}

/// Insertion keeps addresses apart: records that share no address still
/// share none after a candidate was met, whatever the candidate.
pub proof fn lemma_accept_keeps_distinct(a: AnchorsView, provider: Provider, buffer: Seq<ProductView>)
    requires
        distinct_urls(buffer),
    ensures
        distinct_urls(buffer_after(a, provider, buffer)),
{
    let after = buffer_after(a, provider, buffer);
    if outcome_of(a, provider, buffer) is Accepted {
        let p = record_of(a, provider);
        assert forall|i: int, j: int| 0 <= i < j < after.len() implies (#[trigger] after[i]).url
            != (#[trigger] after[j]).url by {
            assert(after[i] == buffer[i]);
            if j == buffer.len() {
                assert(!listed(buffer, p.url));
            } else {
                assert(after[j] == buffer[j]);
            }
        }
    }
}

fn is_listed(buffer: &Vec<Product>, url: &String) -> (r: bool)
    ensures
        r == listed(records(buffer@), url@),
{
    let mut i: usize = 0;
    while i < buffer.len()
        invariant
            i <= buffer.len(),
            forall|j: int| 0 <= j < i ==> (#[trigger] records(buffer@)[j]).url != url@,
        decreases buffer.len() - i,
    {
        assert(records(buffer@)[i as int] == buffer@[i as int]@);
        if buffer[i].url == *url {
            return true;
        }
        i += 1;
    }
    false
}

/// Whether the title marks an advertisement of the source.
pub fn sponsored(title: &str, provider: Provider) -> (r: bool)
    ensures
        r == is_sponsored(title@, provider),
{
    match provider {
        Provider::Amazon => find("Gesponsord", title).is_some(),
        Provider::Bol => false,
    }
}

/// Meets one candidate item: adds its record to `buffer` where every rule
/// lets it pass, and says what became of it.
pub fn accept(item: &ItemAnchors, provider: Provider, buffer: &mut Vec<Product>) -> (outcome:
    ItemOutcome)
    ensures
        outcome == outcome_of(item@, provider, records(old(buffer)@)),
        records(final(buffer)@) == buffer_after(item@, provider, records(old(buffer)@)),
{
    let image = match &item.image {
        Some(image) => image.clone(),
        None => {
            return ItemOutcome::Malformed(ItemDefect::Image);
        },
    };
    let title = match &item.title {
        Some(title) => title.clone(),
        None => {
            return ItemOutcome::Malformed(ItemDefect::Title);
        },
    };
    if sponsored(title.as_str(), provider) {
        return ItemOutcome::Sponsored;
    }
    let link = match &item.link {
        Some(link) => link,
        None => {
            return ItemOutcome::Malformed(ItemDefect::Link);
        },
    };
    let mut url = String::from_str(provider.domain_root());
    url.append(link.as_str());
    if is_listed(buffer, &url) {
        return ItemOutcome::Duplicate;
    }
    let price = match &item.price {
        Some(price) => price,
        None => {
            return ItemOutcome::Malformed(ItemDefect::Price);
        },
    };
    let normalized = replace_char(&chars_of(price.as_str()), ',', '.');
    if !float_literal(&normalized) {
        return ItemOutcome::Malformed(ItemDefect::PriceText);
    }
    let product = Product { title, image, url, price: string_of(&normalized), ean: None };
    let ghost before = records(buffer@);
    buffer.push(product);
    assert(records(buffer@) =~= before.push(product@));
    ItemOutcome::Accepted
}

/// What the candidates say, in order.
pub open spec fn anchors(v: Seq<ItemAnchors>) -> Seq<AnchorsView> {
    Seq::new(v.len(), |i: int| v[i]@)
}

/// The records of one page and what became of each of its candidates.
#[derive(Debug)]
pub struct Extraction {
    pub products: Vec<Product>,
    pub outcomes: Vec<ItemOutcome>,
}

/// What an extraction says.
pub struct ExtractionView {
    pub products: Seq<ProductView>,
    pub outcomes: Seq<ItemOutcome>,
}

impl View for Extraction {
    type V = ExtractionView;

    open spec fn view(&self) -> ExtractionView {
        ExtractionView { products: records(self.products@), outcomes: self.outcomes@ }
    }
}

/// The extraction of a page whose candidates are `items`, met in order.
pub open spec fn extracted(items: Seq<AnchorsView>, provider: Provider) -> ExtractionView
    decreases items.len(),
{
    if items.len() == 0 {
        ExtractionView { products: Seq::empty(), outcomes: Seq::empty() }
    } else {
        let before = extracted(items.drop_last(), provider);
        ExtractionView {
            products: buffer_after(items.last(), provider, before.products),
            outcomes: before.outcomes.push(outcome_of(items.last(), provider, before.products)),
        }
    }
}

/// How many of the outcomes are `which`.
pub open spec fn count_of(outcomes: Seq<ItemOutcome>, which: ItemOutcome) -> nat
    decreases outcomes.len(),
{
    if outcomes.len() == 0 {
        0
    } else {
        count_of(outcomes.drop_last(), which) + if outcomes.last() == which {
            1nat
        } else {
            0nat
        }
    }
}

impl Extraction {
    /// How many candidates were dropped as duplicates.
    pub fn duplicates(&self) -> (n: usize)
        ensures
            n == count_of(self.outcomes@, ItemOutcome::Duplicate),
    {
        let mut n: usize = 0;
        let mut i: usize = 0;
        while i < self.outcomes.len()
            invariant
                i <= self.outcomes.len(),
                n <= i,
                n == count_of(self.outcomes@.take(i as int), ItemOutcome::Duplicate),
            decreases self.outcomes.len() - i,
        {
            assert(self.outcomes@.take(i + 1).drop_last() =~= self.outcomes@.take(i as int));
            if self.outcomes[i] == ItemOutcome::Duplicate {
                n += 1;
            }
            i += 1;
        }
        assert(self.outcomes@.take(i as int) =~= self.outcomes@);
        n
    }
}

/// Extracts the records of a page from its candidates, in order. A
/// candidate that cannot be read, is an advertisement or repeats an earlier
/// link is left out and the rest go on.
pub fn extract(items: &Vec<ItemAnchors>, provider: Provider) -> (r: Extraction)
    ensures
        r@ == extracted(anchors(items@), provider),
{
    let mut products: Vec<Product> = Vec::new();
    let mut outcomes: Vec<ItemOutcome> = Vec::new();
    let mut i: usize = 0;
    assert(anchors(items@).take(0) =~= Seq::empty());
    assert(records(products@) =~= Seq::empty());
    while i < items.len()
        invariant
            i <= items.len(),
            records(products@) == extracted(anchors(items@).take(i as int), provider).products,
            outcomes@ == extracted(anchors(items@).take(i as int), provider).outcomes,
        decreases items.len() - i,
    {
        proof {
            let next = anchors(items@).take(i + 1);
            assert(next.drop_last() =~= anchors(items@).take(i as int));
            assert(next.last() == items@[i as int]@);
        }
        let outcome = accept(&items[i], provider, &mut products);
        outcomes.push(outcome);
        i += 1;
    }
    assert(anchors(items@).take(i as int) =~= anchors(items@));
    Extraction { products, outcomes }
}

/// Idempotence: what a page yields depends on its candidates alone. Two
/// extractions of the same candidates agree in every record and in every
/// outcome.
pub proof fn lemma_extraction_repeats(
    first: Extraction,
    second: Extraction,
    items: Seq<AnchorsView>,
    provider: Provider,
)
    requires
        first@ == extracted(items, provider),
        second@ == extracted(items, provider),
    ensures
        first@.products == second@.products,
        first@.outcomes == second@.outcomes,
        count_of(first@.outcomes, ItemOutcome::Duplicate) == count_of(
            second@.outcomes,
            ItemOutcome::Duplicate,
        ),
{
}

/// Whether the candidate lacks something, whatever the page holds so far.
pub open spec fn is_defective(a: AnchorsView) -> bool {
    ||| a.image is None
    ||| a.title is None
    ||| a.link is None
    ||| a.price is None
    ||| !is_float_literal(normalized_price(a.price->0))
}

/// Every candidate has its outcome, and the records are the accepted ones.
pub proof fn lemma_extracted_counts(items: Seq<AnchorsView>, provider: Provider)
    ensures
        extracted(items, provider).outcomes.len() == items.len(),
        extracted(items, provider).products.len() == count_of(
            extracted(items, provider).outcomes,
            ItemOutcome::Accepted,
        ),
        extracted(items, provider).products.len() <= items.len(),
    decreases items.len(),
{
    if items.len() > 0 {
        lemma_extracted_counts(items.drop_last(), provider);
        let e = extracted(items, provider);
        assert(e.outcomes.drop_last() =~= extracted(items.drop_last(), provider).outcomes);
    }
}

/// No two records of a page share an address, and every record carries the
/// source's root, a price that is a number, and no product code yet.
pub proof fn lemma_extracted_records(items: Seq<AnchorsView>, provider: Provider)
    ensures
        distinct_urls(extracted(items, provider).products),
        forall|i: int|
            0 <= i < extracted(items, provider).products.len() ==> {
                let p = #[trigger] extracted(items, provider).products[i];
                &&& p.ean is None
                &&& is_float_literal(p.price)
                &&& p.url.len() >= provider.root().len()
                &&& p.url.take(provider.root().len() as int) == provider.root()
            },
    decreases items.len(),
{
    if items.len() > 0 {
        lemma_extracted_records(items.drop_last(), provider);
        let before = extracted(items.drop_last(), provider).products;
        let after = extracted(items, provider).products;
        let a = items.last();
        if outcome_of(a, provider, before) is Accepted {
            let p = record_of(a, provider);
            assert(after == before.push(p));
            assert(p.url.take(provider.root().len() as int) =~= provider.root());
            lemma_accept_keeps_distinct(a, provider, before);
            assert forall|i: int| 0 <= i < after.len() implies {
                let q = #[trigger] after[i];
                &&& q.ean is None
                &&& is_float_literal(q.price)
                &&& q.url.len() >= provider.root().len()
                &&& q.url.take(provider.root().len() as int) == provider.root()
            } by {
                if i < before.len() {
                    assert(after[i] == before[i]);
                }
            }
        }
    }
}

/// Partial-failure tolerance: a candidate that lacks something, put
/// anywhere among a page's candidates, changes none of the page's records.
pub proof fn lemma_defective_item_is_skipped(
    items: Seq<AnchorsView>,
    at: int,
    broken: AnchorsView,
    provider: Provider,
)
    requires
        0 <= at <= items.len(),
        is_defective(broken),
    ensures
        extracted(items.insert(at, broken), provider).products == extracted(
            items,
            provider,
        ).products,
    decreases items.len() - at,
{
    let with = items.insert(at, broken);
    if at == items.len() {
        assert(with.drop_last() =~= items);
        assert(with.last() == broken);
    } else {
        lemma_defective_item_is_skipped(items.drop_last(), at, broken, provider);
        assert(with.drop_last() =~= items.drop_last().insert(at, broken));
        assert(with.last() == items.last());
    }
}

/// Deduplication: of two candidates with the same link, where the first is
/// accepted and the second can be read, the page keeps the first alone and
/// counts one duplicate.
pub proof fn lemma_same_link_is_duplicate(first: AnchorsView, second: AnchorsView, provider: Provider)
    requires
        outcome_of(first, provider, Seq::empty()) is Accepted,
        second.image is Some,
        second.title is Some,
        !is_sponsored(second.title->0, provider),
        second.link == first.link,
    ensures
        extracted(seq![first, second], provider).products == seq![record_of(first, provider)],
        extracted(seq![first, second], provider).outcomes == seq![
            ItemOutcome::Accepted,
            ItemOutcome::Duplicate,
        ],
        count_of(extracted(seq![first, second], provider).outcomes, ItemOutcome::Duplicate) == 1,
{
    let both = seq![first, second];
    let one = both.drop_last();
    assert(one =~= seq![first]);
    assert(one.drop_last() =~= Seq::<AnchorsView>::empty());
    assert(one.last() == first);
    let e0 = extracted(Seq::<AnchorsView>::empty(), provider);
    assert(e0.products =~= Seq::<ProductView>::empty());
    let e1 = extracted(one, provider);
    assert(e1.products =~= seq![record_of(first, provider)]);
    assert(e1.outcomes =~= seq![ItemOutcome::Accepted]);
    assert(e1.products[0].url == absolute(provider, second.link->0));
    assert(listed(e1.products, absolute(provider, second.link->0)));
    let e2 = extracted(both, provider);
    assert(e2.outcomes =~= seq![ItemOutcome::Accepted, ItemOutcome::Duplicate]);
    assert(e2.outcomes.drop_last() =~= seq![ItemOutcome::Accepted]);
    assert(e2.outcomes.drop_last().drop_last() =~= Seq::<ItemOutcome>::empty());
    reveal_with_fuel(count_of, 3);
}

} // verus!
