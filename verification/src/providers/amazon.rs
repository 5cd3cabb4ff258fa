//! Extraction from the listing pages of Amazon.

use vstd::prelude::*;
use vstd::string::StringExecFns;
use crate::dom::{
    attribute_at, attribute_of_first, attribute_of_first_at, attribute_text, child_elements,
    child_places, element_place, first_in_document, first_place_in_document,
    first_place_within, first_text, first_text_at, first_within, inner_html, inner_html_at,
    inner_html_of_first, inner_html_of_first_at, parse_document, selector,
    selector_parses, Element, Rule,
};
use crate::providers::item::{
    accept, buffer_after, extracted, outcome_of, text_of, AnchorsView, Extraction,
    ExtractionView, ItemAnchors, ItemOutcome, PageError,
};
use crate::providers::{records, Product, Provider};
use crate::text::{chars_of, is_text, string_of, strip_prefix, without_prefix};

verus! {

/// What the price anchors of an item gave. Where the item shows a price
/// that it was reduced from, that one is read: its amount stands in the
/// second element of the marker. Else the price is read in two parts.
#[derive(Debug)]
pub enum PriceAnchor {
    Reduced { amount: Option<String> },
    Listed { whole: Option<String>, fraction: Option<String> },
}

/// What the price anchors say.
pub enum PriceAnchorView {
    Reduced { amount: Option<Seq<char>> },
    Listed { whole: Option<Seq<char>>, fraction: Option<Seq<char>> },
}

impl View for PriceAnchor {
    type V = PriceAnchorView;

    open spec fn view(&self) -> PriceAnchorView {
        match *self {
            PriceAnchor::Reduced { amount } => PriceAnchorView::Reduced { amount: text_of(amount) },
            PriceAnchor::Listed { whole, fraction } => PriceAnchorView::Listed {
                whole: text_of(whole),
                fraction: text_of(fraction),
            },
        }
    }
}

/// The price text of an item: the reduced-from amount without its euro
/// sign, or the whole part, a comma and the fraction.
pub open spec fn price_text_of(p: PriceAnchorView) -> Option<Seq<char>> {
    match p {
        PriceAnchorView::Reduced { amount: Some(a) } => without_prefix(a, "€"@),
        PriceAnchorView::Listed { whole: Some(w), fraction: Some(f) } => Some(w + ","@ + f),
        _ => None,
    }
}

/// The price text of an item, where its anchors give one.
pub fn price_text(p: &PriceAnchor) -> (r: Option<String>)
    ensures
        text_of(r) == price_text_of(p@),
{
    match p {
        PriceAnchor::Reduced { amount: Some(a) } => {
            match strip_prefix(&chars_of(a.as_str()), &chars_of("€")) {
                Some(rest) => Some(string_of(&rest)),
                None => None,
            }
        },
        PriceAnchor::Listed { whole: Some(w), fraction: Some(f) } => {
            let mut text = w.clone();
            text.append(",");
            text.append(f.as_str());
            Some(text)
        },
        _ => None,
    }
}

/// Whether a child of the results container is a search result, by its
/// component type.
pub open spec fn is_search_result(component: Option<Seq<char>>) -> bool {
    component == Some("s-search-result"@)
}

/// Whether a child of the results container is a search result.
pub fn search_result(component: &Option<String>) -> (r: bool)
    ensures
        r == is_search_result(text_of(*component)),
{
    match component {
        Some(c) => is_text(&chars_of(c.as_str()), "s-search-result"),
        None => false,
    }
}

/// The selector of the results container.
pub open spec fn container_css() -> Seq<char> {
    ".s-main-slot.s-result-list.s-search-results"@
}

/// The selector of an item's image.
pub open spec fn image_css() -> Seq<char> {
    ".s-image"@
}

/// The selector of the link that wraps an item's title.
pub open spec fn title_wrapper_css() -> Seq<char> {
    ".s-title-instructions-style a"@
}

/// The selector of the title inside its link.
pub open spec fn title_css() -> Seq<char> {
    "span"@
}

/// The selector of the whole part of a price.
pub open spec fn price_whole_css() -> Seq<char> {
    ".a-price-whole"@
}

/// The selector of the fraction of a price.
pub open spec fn price_fraction_css() -> Seq<char> {
    ".a-price-fraction"@
}

/// The selector of the marker of a price that an item was reduced from.
pub open spec fn price_old_css() -> Seq<char> {
    ".a-price.a-text-price"@
}

/// Whether every selector of the page layout is taken.
pub open spec fn selectors_parse() -> bool {
    &&& selector_parses(container_css())
    &&& selector_parses(image_css())
    &&& selector_parses(title_wrapper_css())
    &&& selector_parses(title_css())
    &&& selector_parses(price_whole_css())
    &&& selector_parses(price_fraction_css())
    &&& selector_parses(price_old_css())
}

/// What the price anchors of the element at `place` give: where the item
/// has the marker of a reduction, the markup inside the marker's second
/// element; else the first text of the whole part and the markup inside
/// the fraction.
pub open spec fn price_anchor_at(markup: Seq<char>, place: int) -> PriceAnchorView {
    match first_place_within(markup, place, price_old_css()) {
        Some(old) => {
            let parts = child_places(markup, old);
            if parts.len() > 1 {
                PriceAnchorView::Reduced { amount: Some(inner_html_at(markup, parts[1])) }
            } else {
                PriceAnchorView::Reduced { amount: None }
            }
        },
        None => PriceAnchorView::Listed {
            whole: match first_place_within(markup, place, price_whole_css()) {
                Some(w) => first_text_at(markup, w),
                None => None,
            },
            fraction: inner_html_of_first_at(markup, place, price_fraction_css()),
        },
    }
}

/// What the anchors of the element at `place` give: the source of its
/// image, the markup inside the title in its link, the link's reference,
/// and the price text.
pub open spec fn anchors_at(markup: Seq<char>, place: int) -> AnchorsView {
    AnchorsView {
        image: attribute_of_first_at(markup, place, image_css(), "src"@),
        title: match first_place_within(markup, place, title_wrapper_css()) {
            Some(wrapper) => inner_html_of_first_at(markup, wrapper, title_css()),
            None => None,
        },
        link: match first_place_within(markup, place, title_wrapper_css()) {
            Some(wrapper) => attribute_at(markup, wrapper, "href"@),
            None => None,
        },
        price: price_text_of(price_anchor_at(markup, place)),
    }
}

/// The candidates among the elements at `places`, in order: those whose
/// component type marks a search result, each with its anchors.
pub open spec fn candidates(markup: Seq<char>, places: Seq<int>) -> Seq<AnchorsView>
    decreases places.len(),
{
    if places.len() == 0 {
        Seq::empty()
    } else {
        let before = candidates(markup, places.drop_last());
        if is_search_result(attribute_at(markup, places.last(), "data-component-type"@)) {
            before.push(anchors_at(markup, places.last()))
        } else {
            before
        }
    }
}

/// The candidates of a listing page: the candidates among the children of its first results container, and a mismatch where it has
/// no such container.
pub open spec fn page_candidates(markup: Seq<char>) -> Result<Seq<AnchorsView>, PageError> {
    if !selectors_parse() {
        Err(PageError::InvalidSelector)
    } else {
        match first_place_in_document(markup, container_css()) {
            None => Err(PageError::StructuralMismatch),
            Some(container) => Ok(candidates(markup, child_places(markup, container))),
        }
    }
}

/// What a listing page yields: the extraction of its candidates.
pub open spec fn page_extraction(markup: Seq<char>) -> Result<ExtractionView, PageError> {
    match page_candidates(markup) {
        Ok(items) => Ok(extracted(items, Provider::Amazon)),
        Err(error) => Err(error),
    }
}

/// The selectors of the page layout.
struct Selectors {
    container: Rule,
    image: Rule,
    title_wrapper: Rule,
    title: Rule,
    price_whole: Rule,
    price_fraction: Rule,
    price_old: Rule,
}

impl Selectors {
    /// Every selector is the one that the layout names.
    #[verifier::type_invariant]
    spec fn wf(&self) -> bool {
        &&& self.container.source() == container_css()
        &&& self.image.source() == image_css()
        &&& self.title_wrapper.source() == title_wrapper_css()
        &&& self.title.source() == title_css()
        &&& self.price_whole.source() == price_whole_css()
        &&& self.price_fraction.source() == price_fraction_css()
        &&& self.price_old.source() == price_old_css()
    }

    /// The selectors, ready for use; `None` if one of them is refused.
    fn new() -> (r: Option<Selectors>)
        ensures
            r is Some == selectors_parse(),
    {
        let container = selector(".s-main-slot.s-result-list.s-search-results")?;
        let image = selector(".s-image")?;
        let title_wrapper = selector(".s-title-instructions-style a")?;
        let title = selector("span")?;
        let price_whole = selector(".a-price-whole")?;
        let price_fraction = selector(".a-price-fraction")?;
        let price_old = selector(".a-price.a-text-price")?;
        Some(
            Selectors {
                container,
                image,
                title_wrapper,
                title,
                price_whole,
                price_fraction,
                price_old,
            },
        )
    }
}

fn read_price(el: Element<'_>, selectors: &Selectors) -> (r: PriceAnchor)
    ensures
        r@ == price_anchor_at(el.source(), element_place(el)),
{
    proof {
        use_type_invariant(selectors);
    }
    match first_within(el, &selectors.price_old) {
        Some(old) => {
            let parts = child_elements(old);
            if parts.len() > 1 {
                PriceAnchor::Reduced { amount: Some(inner_html(parts[1])) }
            } else {
                PriceAnchor::Reduced { amount: None }
            }
        },
        None => {
            let whole = match first_within(el, &selectors.price_whole) {
                Some(w) => match first_text(w) {
                    Some(t) => Some(String::from_str(t)),
                    None => None,
                },
                None => None,
            };
            let fraction = inner_html_of_first(el, &selectors.price_fraction);
            PriceAnchor::Listed { whole, fraction }
        },
    }
}

/// Reads the anchors of one search result.
fn read_item(el: Element<'_>, selectors: &Selectors) -> (r: ItemAnchors)
    ensures
        r@ == anchors_at(el.source(), element_place(el)),
{
    proof {
        use_type_invariant(selectors);
    }
    let image = attribute_of_first(el, &selectors.image, "src");
    let (title, link) = match first_within(el, &selectors.title_wrapper) {
        Some(wrapper) => (
            inner_html_of_first(wrapper, &selectors.title),
            attribute_text(wrapper, "href"),
        ),
        None => (None, None),
    };
    let price = price_text(&read_price(el, selectors));
    ItemAnchors { image, title, link, price }
}

/// Meets one search result: reads its anchors and adds its record to
/// `buffer` where the rules let it pass.
fn parse_product(
    el: Element<'_>,
    selectors: &Selectors,
    buffer: &mut Vec<Product>,
) -> (outcome: ItemOutcome)
    ensures
        outcome == outcome_of(
            anchors_at(el.source(), element_place(el)),
            Provider::Amazon,
            records(old(buffer)@),
        ),
        records(final(buffer)@) == buffer_after(
            anchors_at(el.source(), element_place(el)),
            Provider::Amazon,
            records(old(buffer)@),
        ),
{
    let item = read_item(el, selectors);
    accept(&item, Provider::Amazon, buffer)
}

/// Extracts the records of a listing page: every child of the results
/// container that is a search result is met in turn. The page fails as a
/// whole only where it has no results container.
pub fn parse_products(markup: &str) -> (r: Result<Extraction, PageError>)
    ensures
        match r {
            Ok(e) => page_extraction(markup@) == Ok::<ExtractionView, PageError>(e@),
            Err(error) => page_extraction(markup@) == Err::<ExtractionView, PageError>(error),
        },
{
    let selectors = match Selectors::new() {
        Some(s) => s,
        None => {
            return Err(PageError::InvalidSelector);
        },
    };
    proof {
        use_type_invariant(&selectors);
    }
    let doc = parse_document(markup);
    let container = match first_in_document(&doc, &selectors.container) {
        Some(c) => c,
        None => {
            return Err(PageError::StructuralMismatch);
        },
    };
    let children = child_elements(container);
    let ghost places = child_places(markup@, element_place(container));
    let mut products: Vec<Product> = Vec::new();
    let mut outcomes: Vec<ItemOutcome> = Vec::new();
    assert(records(products@) =~= Seq::empty());
    assert(places.take(0) =~= Seq::empty());
    let mut i: usize = 0;
    while i < children.len()
        invariant
            i <= children@.len(),
            children@.len() == places.len(),
            forall|k: int|
                0 <= k < children@.len() ==> (#[trigger] children@[k]).source() == markup@
                    && element_place(children@[k]) == places[k],
            records(products@) == extracted(
                candidates(markup@, places.take(i as int)),
                Provider::Amazon,
            ).products,
            outcomes@ == extracted(
                candidates(markup@, places.take(i as int)),
                Provider::Amazon,
            ).outcomes,
        decreases children@.len() - i,
    {
        let child = children[i];
        proof {
            let next = places.take(i + 1);
            assert(next.drop_last() =~= places.take(i as int));
            assert(next.last() == places[i as int]);
        }
        if search_result(&attribute_text(child, "data-component-type")) {
            let ghost seen = candidates(markup@, places.take(i as int));
            let outcome = parse_product(child, &selectors, &mut products);
            outcomes.push(outcome);
            assert(candidates(markup@, places.take(i + 1)).drop_last() =~= seen);
        }
        i += 1;
    }
    assert(places.take(i as int) =~= places);
    Ok(Extraction { products, outcomes })
}

} // verus!
