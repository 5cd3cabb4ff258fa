//! Extraction from the listing pages and the product pages of bol.com.

use vstd::prelude::*;
use crate::dom::{
    attribute_at, attribute_of_first, attribute_of_first_at, attribute_text, child_elements,
    child_places, element_place, first_in_document, first_place_in_document,
    first_place_within, first_within, inner_html_of_first, inner_html_of_first_at,
    parse_document, selector, selector_parses, Element, Rule,
};
use crate::number::{parse_u64, parsed_unsigned};
use crate::providers::item::{
    accept, buffer_after, extracted, outcome_of, text_of, AnchorsView, Extraction,
    ExtractionView, ItemAnchors, ItemOutcome, PageError,
};
use crate::providers::{records, Product, Provider};
use crate::text::{chars_of, is_text, trim, trimmed};

verus! {

/// The image reference of an item, from the plain and the lazy-load source
/// of its image: the item must name a lazy-load source, and the plain one
/// is taken where both are there.
pub open spec fn image_reference_of(src: Option<Seq<char>>, data_src: Option<Seq<char>>) -> Option<
    Seq<char>,
> {
    if data_src is None {
        None
    } else if src is Some {
        src
    } else {
        data_src
    }
}

/// The image reference of an item.
pub fn image_reference(src: Option<String>, data_src: Option<String>) -> (r: Option<String>)
    ensures
        text_of(r) == image_reference_of(text_of(src), text_of(data_src)),
{
    match data_src {
        None => None,
        Some(lazy) => match src {
            Some(plain) => Some(plain),
            None => Some(lazy),
        },
    }
}

/// The price text of an item: the price that it was reduced from where the
/// item shows one, else the listed price.
pub open spec fn price_text_of(reduced: Option<Seq<char>>, listed: Option<Seq<char>>) -> Option<
    Seq<char>,
> {
    if reduced is Some {
        reduced
    } else {
        listed
    }
}

/// The price text of an item.
pub fn price_text(reduced: Option<String>, listed: Option<String>) -> (r: Option<String>)
    ensures
        text_of(r) == price_text_of(text_of(reduced), text_of(listed)),
{
    match reduced {
        Some(text) => Some(text),
        None => listed,
    }
}

/// The selector of the list of items.
pub open spec fn container_css() -> Seq<char> {
    ".list-view.product-list.js_multiple_basket_buttons_page"@
}

/// The selector of an item's image.
pub open spec fn image_css() -> Seq<char> {
    "img"@
}

/// The selector of an item's title, which is its link too.
pub open spec fn title_css() -> Seq<char> {
    ".product-title"@
}

/// The selector of an item's listed price.
pub open spec fn price_css() -> Seq<char> {
    "meta[itemprop=\"price\"]"@
}

/// The selector of the price that an item was reduced from.
pub open spec fn price_old_css() -> Seq<char> {
    "del[data-test=\"from-price\"]"@
}

/// Whether every selector of the listing layout is taken.
pub open spec fn selectors_parse() -> bool {
    &&& selector_parses(container_css())
    &&& selector_parses(image_css())
    &&& selector_parses(title_css())
    &&& selector_parses(price_css())
    &&& selector_parses(price_old_css())
}

/// What the anchors of the element at `place` give: the image reference
/// from the two sources of its first image, the markup inside its title,
/// the title's reference, and as price text the markup inside the
/// reduced-from price or else the content of the listed price.
pub open spec fn anchors_at(markup: Seq<char>, place: int) -> AnchorsView {
    AnchorsView {
        image: match first_place_within(markup, place, image_css()) {
            Some(img) => image_reference_of(
                attribute_at(markup, img, "src"@),
                attribute_at(markup, img, "data-src"@),
            ),
            None => None,
        },
        title: inner_html_of_first_at(markup, place, title_css()),
        link: attribute_of_first_at(markup, place, title_css(), "href"@),
        price: price_text_of(
            inner_html_of_first_at(markup, place, price_old_css()),
            attribute_of_first_at(markup, place, price_css(), "content"@),
        ),
    }
}

/// The candidates at `places`, in order, each with its anchors.
pub open spec fn candidates(markup: Seq<char>, places: Seq<int>) -> Seq<AnchorsView> {
    Seq::new(places.len(), |i: int| anchors_at(markup, places[i]))
}

/// The candidates of a listing page: the children of its first list, and a mismatch where it has
/// no list.
pub open spec fn page_candidates(markup: Seq<char>) -> Result<Seq<AnchorsView>, PageError> {
    if !selectors_parse() {
        Err(PageError::InvalidSelector)
    } else {
        match first_place_in_document(markup, container_css()) {
            None => Err(PageError::StructuralMismatch),
            Some(container) => Ok(candidates(markup, child_places(markup, container))),
        }
    }
}

/// What a listing page yields: the extraction of its candidates.
pub open spec fn page_extraction(markup: Seq<char>) -> Result<ExtractionView, PageError> {
    match page_candidates(markup) {
        Ok(items) => Ok(extracted(items, Provider::Bol)),
        Err(error) => Err(error),
    }
}

/// The selectors of the listing layout.
struct Selectors {
    container: Rule,
    image: Rule,
    title: Rule,
    price: Rule,
    price_old: Rule,
}

impl Selectors {
    /// Every selector is the one that the layout names.
    #[verifier::type_invariant]
    spec fn wf(&self) -> bool {
        &&& self.container.source() == container_css()
        &&& self.image.source() == image_css()
        &&& self.title.source() == title_css()
        &&& self.price.source() == price_css()
        &&& self.price_old.source() == price_old_css()
    }

    /// The selectors, ready for use; `None` if one of them is refused.
    fn new() -> (r: Option<Selectors>)
        ensures
            r is Some == selectors_parse(),
    {
        let container = selector(".list-view.product-list.js_multiple_basket_buttons_page")?;
        let image = selector("img")?;
        let title = selector(".product-title")?;
        let price = selector("meta[itemprop=\"price\"]")?;
        let price_old = selector("del[data-test=\"from-price\"]")?;
        Some(Selectors { container, image, title, price, price_old })
    }
}

/// Reads the anchors of one item of the list.
fn read_item(el: Element<'_>, selectors: &Selectors) -> (r: ItemAnchors)
    ensures
        r@ == anchors_at(el.source(), element_place(el)),
{
    proof {
        use_type_invariant(selectors);
    }
    let image = match first_within(el, &selectors.image) {
        Some(img) => image_reference(attribute_text(img, "src"), attribute_text(img, "data-src")),
        None => None,
    };
    let title = inner_html_of_first(el, &selectors.title);
    let link = attribute_of_first(el, &selectors.title, "href");
    let price = price_text(
        inner_html_of_first(el, &selectors.price_old),
        attribute_of_first(el, &selectors.price, "content"),
    );
    ItemAnchors { image, title, link, price }
}

/// Meets one item of the list: reads its anchors and adds its record to
/// `buffer` where the rules let it pass.
fn parse_product_item(
    el: Element<'_>,
    selectors: &Selectors,
    buffer: &mut Vec<Product>,
) -> (outcome: ItemOutcome)
    ensures
        outcome == outcome_of(
            anchors_at(el.source(), element_place(el)),
            Provider::Bol,
            records(old(buffer)@),
        ),
        records(final(buffer)@) == buffer_after(
            anchors_at(el.source(), element_place(el)),
            Provider::Bol,
            records(old(buffer)@),
        ),
{
    let item = read_item(el, selectors);
    accept(&item, Provider::Bol, buffer)
}

/// Extracts the records of a listing page: every child of the list is met
/// in turn. The page fails as a whole only where it has no list.
pub fn parse_products(markup: &str) -> (r: Result<Extraction, PageError>)
    ensures
        match r {
            Ok(e) => page_extraction(markup@) == Ok::<ExtractionView, PageError>(e@),
            Err(error) => page_extraction(markup@) == Err::<ExtractionView, PageError>(error),
        },
{
    let selectors = match Selectors::new() {
        Some(s) => s,
        None => {
            return Err(PageError::InvalidSelector);
        },
    };
    proof {
        use_type_invariant(&selectors);
    }
    let doc = parse_document(markup);
    let container = match first_in_document(&doc, &selectors.container) {
        Some(c) => c,
        None => {
            return Err(PageError::StructuralMismatch);
        },
    };
    let children = child_elements(container);
    let ghost places = child_places(markup@, element_place(container));
    let mut products: Vec<Product> = Vec::new();
    let mut outcomes: Vec<ItemOutcome> = Vec::new();
    assert(records(products@) =~= Seq::empty());
    assert(candidates(markup@, places).take(0) =~= Seq::empty());
    let mut i: usize = 0;
    while i < children.len()
        invariant
            i <= children@.len(),
            children@.len() == places.len(),
            forall|k: int|
                0 <= k < children@.len() ==> (#[trigger] children@[k]).source() == markup@
                    && element_place(children@[k]) == places[k],
            records(products@) == extracted(
                candidates(markup@, places).take(i as int),
                Provider::Bol,
            ).products,
            outcomes@ == extracted(
                candidates(markup@, places).take(i as int),
                Provider::Bol,
            ).outcomes,
        decreases children@.len() - i,
    {
        proof {
            let next = candidates(markup@, places).take(i + 1);
            assert(next.drop_last() =~= candidates(markup@, places).take(i as int));
            assert(next.last() == anchors_at(markup@, places[i as int]));
        }
        let outcome = parse_product_item(children[i], &selectors, &mut products);
        outcomes.push(outcome);
        i += 1;
    }
    assert(candidates(markup@, places).take(i as int) =~= candidates(markup@, places));
    Ok(Extraction { products, outcomes })
}

/// What a product page adds to a record.
#[derive(Clone, Copy, Debug, PartialEq, Eq, Structural)]
pub struct Specifications {
    pub ean: u64,
}

/// Why a product page gives no specifications.
#[derive(Clone, Copy, Debug, PartialEq, Eq, Structural)]
pub enum DetailError {
    /// The page has no specifications block.
    NoSpecifications,
    /// A section of the block has no list.
    NoList,
    /// A row of a list has no title.
    NoTitle,
    /// A row of a list has no value.
    NoValue,
    /// The value of the code's row is no number.
    InvalidCode,
    /// No row gives the code.
    NoCode,
    /// A selector of the extractor was refused.
    InvalidSelector,
}

/// One row of a specifications list: the markup of its title and value.
#[derive(Debug)]
pub struct SpecRow {
    pub title: Option<String>,
    pub value: Option<String>,
}

/// What a row says.
pub struct SpecRowView {
    pub title: Option<Seq<char>>,
    pub value: Option<Seq<char>>,
}

impl View for SpecRow {
    type V = SpecRowView;

    open spec fn view(&self) -> SpecRowView {
        SpecRowView { title: text_of(self.title), value: text_of(self.value) }
    }
}

/// One child of the specifications block: its class and, where it has a
/// list, the rows of the first one.
#[derive(Debug)]
pub struct SpecSection {
    pub class: Option<String>,
    pub rows: Option<Vec<SpecRow>>,
}

/// What a section says.
pub struct SpecSectionView {
    pub class: Option<Seq<char>>,
    pub rows: Option<Seq<SpecRowView>>,
}

/// What the rows say, in order.
pub open spec fn row_views(v: Seq<SpecRow>) -> Seq<SpecRowView> {
    Seq::new(v.len(), |i: int| v[i]@)
}

impl View for SpecSection {
    type V = SpecSectionView;

    open spec fn view(&self) -> SpecSectionView {
        SpecSectionView {
            class: text_of(self.class),
            rows: match self.rows {
                Some(rows) => Some(row_views(rows@)),
                None => None,
            },
        }
    }
}

/// What the sections say, in order.
pub open spec fn section_views(v: Seq<SpecSection>) -> Seq<SpecSectionView> {
    Seq::new(v.len(), |i: int| v[i]@)
}

/// What reading rows in order comes to: the code, an error, or neither yet.
pub enum Scan {
    Found(u64),
    Failed(DetailError),
    Open,
}

/// What one row comes to: it must have a title and a value; where the
/// title, trimmed, is `EAN`, the value, trimmed, is read as the code.
pub open spec fn scan_row(row: SpecRowView) -> Scan {
    if row.title is None {
        Scan::Failed(DetailError::NoTitle)
    } else if row.value is None {
        Scan::Failed(DetailError::NoValue)
    } else if trimmed(row.title->0) == "EAN"@ {
        match parsed_unsigned(trimmed(row.value->0), u64::MAX as nat) {
            Some(n) => Scan::Found(n as u64),
            None => Scan::Failed(DetailError::InvalidCode),
        }
    } else {
        Scan::Open
    }
}

/// What the rows from `from` on come to: the first row that decides.
pub open spec fn scan_rows(rows: Seq<SpecRowView>, from: int) -> Scan
    decreases rows.len() - from,
{
    if 0 <= from < rows.len() {
        match scan_row(rows[from]) {
            Scan::Open => scan_rows(rows, from + 1),
            decided => decided,
        }
    } else {
        Scan::Open
    }
}

/// What one section comes to: only sections of the class `specs` count, and
/// such a section must have a list.
pub open spec fn scan_section(section: SpecSectionView) -> Scan {
    if section.class != Some("specs"@) {
        Scan::Open
    } else {
        match section.rows {
            None => Scan::Failed(DetailError::NoList),
            Some(rows) => scan_rows(rows, 0),
        }
    }
}

/// What the sections from `from` on come to: the first section that decides.
pub open spec fn scan_sections(sections: Seq<SpecSectionView>, from: int) -> Scan
    decreases sections.len() - from,
{
    if 0 <= from < sections.len() {
        match scan_section(sections[from]) {
            Scan::Open => scan_sections(sections, from + 1),
            decided => decided,
        }
    } else {
        Scan::Open
    }
}

/// The specifications that the sections of a product page give.
pub open spec fn specifications_of(sections: Seq<SpecSectionView>) -> Result<
    Specifications,
    DetailError,
> {
    match scan_sections(sections, 0) {
        Scan::Found(ean) => Ok(Specifications { ean }),
        Scan::Failed(e) => Err(e),
        Scan::Open => Err(DetailError::NoCode),
    }
}

fn row_scan(row: &SpecRow) -> (r: Scan)
    ensures
        r == scan_row(row@),
{
    let title = match &row.title {
        Some(t) => t,
        None => {
            return Scan::Failed(DetailError::NoTitle);
        },
    };
    let value = match &row.value {
        Some(v) => v,
        None => {
            return Scan::Failed(DetailError::NoValue);
        },
    };
    if is_text(&trim(&chars_of(title.as_str())), "EAN") {
        match parse_u64(&trim(&chars_of(value.as_str()))) {
            Some(n) => Scan::Found(n),
            None => Scan::Failed(DetailError::InvalidCode),
        }
    } else {
        Scan::Open
    }
}

fn rows_scan(rows: &Vec<SpecRow>) -> (r: Scan)
    ensures
        r == scan_rows(row_views(rows@), 0),
{
    let mut i: usize = 0;
    while i < rows.len()
        invariant
            i <= rows.len(),
            scan_rows(row_views(rows@), 0) == scan_rows(row_views(rows@), i as int),
        decreases rows.len() - i,
    {
        assert(row_views(rows@)[i as int] == rows@[i as int]@);
        match row_scan(&rows[i]) {
            Scan::Open => {},
            decided => {
                return decided;
            },
        }
        i += 1;
    }
    Scan::Open
}

fn section_scan(section: &SpecSection) -> (r: Scan)
    ensures
        r == scan_section(section@),
{
    let counts = match &section.class {
        Some(c) => is_text(&chars_of(c.as_str()), "specs"),
        None => false,
    };
    if !counts {
        return Scan::Open;
    }
    match &section.rows {
        None => Scan::Failed(DetailError::NoList),
        Some(rows) => rows_scan(rows),
    }
}

/// Finds the product code among the sections of a product page, in order:
/// the first row titled `EAN` in a section of the class `specs` gives it.
/// What stands before that row must be well formed; what follows is not
/// looked at.
pub fn find_specifications(sections: &Vec<SpecSection>) -> (r: Result<Specifications, DetailError>)
    ensures
        r == specifications_of(section_views(sections@)),
{
    let mut i: usize = 0;
    while i < sections.len()
        invariant
            i <= sections.len(),
            scan_sections(section_views(sections@), 0) == scan_sections(
                section_views(sections@),
                i as int,
            ),
        decreases sections.len() - i,
    {
        assert(section_views(sections@)[i as int] == sections@[i as int]@);
        match section_scan(&sections[i]) {
            Scan::Open => {},
            Scan::Found(ean) => {
                return Ok(Specifications { ean });
            },
            Scan::Failed(e) => {
                return Err(e);
            },
        }
        i += 1;
    }
    Err(DetailError::NoCode)
}

/// The selector of the specifications block.
pub open spec fn specifications_css() -> Seq<char> {
    "section[data-group-name='ProductSpecification'] .js_show-more-specifications .js_show-more-content"@
}

/// The selector of the list of a section.
pub open spec fn list_css() -> Seq<char> {
    ".specs__list"@
}

/// The selector of the title of a row.
pub open spec fn row_title_css() -> Seq<char> {
    ".specs__title"@
}

/// The selector of the value of a row.
pub open spec fn row_value_css() -> Seq<char> {
    ".specs__value"@
}

/// Whether every selector of the product page layout is taken.
pub open spec fn detail_selectors_parse() -> bool {
    &&& selector_parses(specifications_css())
    &&& selector_parses(list_css())
    &&& selector_parses(row_title_css())
    &&& selector_parses(row_value_css())
}

/// The row that the element at `place` gives: the markup inside its title
/// and inside its value.
pub open spec fn row_at(markup: Seq<char>, place: int) -> SpecRowView {
    SpecRowView {
        title: inner_html_of_first_at(markup, place, row_title_css()),
        value: inner_html_of_first_at(markup, place, row_value_css()),
    }
}

/// The rows that the children of the list at `place` give, in order.
pub open spec fn rows_at(markup: Seq<char>, place: int) -> Seq<SpecRowView> {
    Seq::new(
        child_places(markup, place).len(),
        |i: int| row_at(markup, child_places(markup, place)[i]),
    )
}

/// The section that the element at `place` gives: its class, and the rows
/// of its first list where it has one.
pub open spec fn section_at(markup: Seq<char>, place: int) -> SpecSectionView {
    SpecSectionView {
        class: attribute_at(markup, place, "class"@),
        rows: match first_place_within(markup, place, list_css()) {
            Some(list) => Some(rows_at(markup, list)),
            None => None,
        },
    }
}

/// The sections that a product page gives: one for each child of its
/// first specifications block, in order.
pub open spec fn sections_at(markup: Seq<char>) -> Result<Seq<SpecSectionView>, DetailError> {
    if !detail_selectors_parse() {
        Err(DetailError::InvalidSelector)
    } else {
        match first_place_in_document(markup, specifications_css()) {
            None => Err(DetailError::NoSpecifications),
            Some(block) => Ok(
                Seq::new(
                    child_places(markup, block).len(),
                    |i: int| section_at(markup, child_places(markup, block)[i]),
                ),
            ),
        }
    }
}

/// The specifications that a product page gives.
pub open spec fn page_specifications(markup: Seq<char>) -> Result<Specifications, DetailError> {
    match sections_at(markup) {
        Ok(sections) => specifications_of(sections),
        Err(error) => Err(error),
    }
}

/// The selectors of the product page layout.
struct DetailSelectors {
    container: Rule,
    section: Rule,
    title: Rule,
    value: Rule,
}

impl DetailSelectors {
    /// Every selector is the one that the layout names.
    #[verifier::type_invariant]
    spec fn wf(&self) -> bool {
        &&& self.container.source() == specifications_css()
        &&& self.section.source() == list_css()
        &&& self.title.source() == row_title_css()
        &&& self.value.source() == row_value_css()
    }

    /// The selectors, ready for use; `None` if one of them is refused.
    fn new() -> (r: Option<DetailSelectors>)
        ensures
            r is Some == detail_selectors_parse(),
    {
        let container = selector(
            "section[data-group-name='ProductSpecification'] .js_show-more-specifications .js_show-more-content",
        )?;
        let section = selector(".specs__list")?;
        let title = selector(".specs__title")?;
        let value = selector(".specs__value")?;
        Some(DetailSelectors { container, section, title, value })
    }
}

fn read_rows(list: Element<'_>, selectors: &DetailSelectors) -> (rows: Vec<SpecRow>)
    ensures
        row_views(rows@) == rows_at(list.source(), element_place(list)),
{
    proof {
        use_type_invariant(selectors);
    }
    let items = child_elements(list);
    let ghost markup = list.source();
    let ghost places = child_places(markup, element_place(list));
    let mut rows: Vec<SpecRow> = Vec::new();
    let mut i: usize = 0;
    while i < items.len()
        invariant
            i <= items@.len(),
            items@.len() == places.len(),
            forall|k: int|
                0 <= k < items@.len() ==> (#[trigger] items@[k]).source() == markup
                    && element_place(items@[k]) == places[k],
            rows@.len() == i,
            forall|k: int| 0 <= k < i ==> (#[trigger] rows@[k])@ == row_at(markup, places[k]),
        decreases items@.len() - i,
    {
        proof {
            use_type_invariant(selectors);
        }
        let item = items[i];
        rows.push(
            SpecRow {
                title: inner_html_of_first(item, &selectors.title),
                value: inner_html_of_first(item, &selectors.value),
            },
        );
        i += 1;
    }
    assert(row_views(rows@) =~= rows_at(markup, element_place(list)));
    rows
}

/// Reads the sections of the specifications block of a product page.
fn read_sections(markup: &str) -> (r: Result<Vec<SpecSection>, DetailError>)
    ensures
        match r {
            Ok(sections) => sections_at(markup@) == Ok::<Seq<SpecSectionView>, DetailError>(
                section_views(sections@),
            ),
            Err(error) => sections_at(markup@) == Err::<Seq<SpecSectionView>, DetailError>(error),
        },
{
    let selectors = match DetailSelectors::new() {
        Some(s) => s,
        None => {
            return Err(DetailError::InvalidSelector);
        },
    };
    proof {
        use_type_invariant(&selectors);
    }
    let doc = parse_document(markup);
    let specs = match first_in_document(&doc, &selectors.container) {
        Some(s) => s,
        None => {
            return Err(DetailError::NoSpecifications);
        },
    };
    let children = child_elements(specs);
    let ghost places = child_places(markup@, element_place(specs));
    let mut sections: Vec<SpecSection> = Vec::new();
    let mut i: usize = 0;
    while i < children.len()
        invariant
            i <= children@.len(),
            children@.len() == places.len(),
            forall|k: int|
                0 <= k < children@.len() ==> (#[trigger] children@[k]).source() == markup@
                    && element_place(children@[k]) == places[k],
            sections@.len() == i,
            forall|k: int|
                0 <= k < i ==> (#[trigger] sections@[k])@ == section_at(markup@, places[k]),
        decreases children@.len() - i,
    {
        proof {
            use_type_invariant(&selectors);
        }
        let child = children[i];
        let rows = match first_within(child, &selectors.section) {
            Some(list) => Some(read_rows(list, &selectors)),
            None => None,
        };
        sections.push(SpecSection { class: attribute_text(child, "class"), rows });
        i += 1;
    }
    assert(section_views(sections@) =~= Seq::new(
        places.len(),
        |i: int| section_at(markup@, places[i]),
    ));
    Ok(sections)
}

/// Reads the specifications from the markup of a product page.
pub fn parse_product_page(markup: &str) -> (r: Result<Specifications, DetailError>)
    ensures
        r == page_specifications(markup@),
{
    match read_sections(markup) {
        Ok(sections) => find_specifications(&sections),
        Err(e) => Err(e),
    }
}

} // verus!
