//! Reading parsed markup, delegated to the `scraper` crate. A document, a
//! selector and an element are held beside the text that they come from:
//! the markup that the document was parsed from, and the text that the
//! selector was parsed from. What a call on them hands back depends on
//! these texts and on the place of the element in its document alone. The
//! calls are told apart by name and their results are not described any
//! further.

use vstd::prelude::*;
use vstd::string::StringExecFns;

verus! {

/// `scraper::Html`: a parsed document.
#[verifier::external_type_specification]
#[verifier::external_body]
pub struct ExHtml(scraper::Html);

/// `scraper::Selector`: a parsed group of selectors.
#[verifier::external_type_specification]
#[verifier::external_body]
pub struct ExSelector(scraper::Selector);

/// `scraper::ElementRef`: a reference to an element of a document.
#[verifier::external_type_specification]
#[verifier::external_body]
pub struct ExElementRef<'a>(scraper::ElementRef<'a>);

/// `scraper::error::SelectorErrorKind`: why a text writes no selector.
#[verifier::external_type_specification]
#[verifier::external_body]
pub struct ExSelectorErrorKind(scraper::error::SelectorErrorKind);

/// A parsed document, beside the markup that it was parsed from.
pub(crate) struct Document {
    html: scraper::Html,
    markup: String,
}

impl Document {
    /// The markup that the document was parsed from.
    pub(crate) closed spec fn source(&self) -> Seq<char> {
        self.markup@
    }
}

/// A parsed group of selectors, beside the text that it was parsed from.
pub(crate) struct Rule {
    selector: scraper::Selector,
    css: String,
}

impl Rule {
    /// The text that the selector was parsed from.
    pub(crate) closed spec fn source(&self) -> Seq<char> {
        self.css@
    }
}

/// An element of a document, beside the markup of its document.
#[derive(Clone, Copy)]
pub(crate) struct Element<'a> {
    node: scraper::ElementRef<'a>,
    markup: &'a str,
}

impl<'a> Element<'a> {
    /// The markup of the document that the element belongs to.
    pub(crate) closed spec fn source(&self) -> Seq<char> {
        self.markup@
    }
}

/// The place of the element among the nodes of its document.
pub uninterp spec fn element_place(el: Element<'_>) -> int;

/// Whether `Selector::parse` takes the text for a group of selectors.
pub uninterp spec fn selector_parses(css: Seq<char>) -> bool;

/// The place of the first element that `Html::select` yields for the
/// selector written `css`, in the document parsed from `markup`.
pub uninterp spec fn first_place_in_document(markup: Seq<char>, css: Seq<char>) -> Option<int>;

/// The place of the first element that `ElementRef::select` yields for the
/// selector written `css`, from the element at `place` of the document
/// parsed from `markup`.
pub uninterp spec fn first_place_within(markup: Seq<char>, place: int, css: Seq<char>) -> Option<
    int,
>;

/// What `ElementRef::attr` gives for the attribute `name` of the element at
/// `place` of the document parsed from `markup`.
pub uninterp spec fn attribute_at(markup: Seq<char>, place: int, name: Seq<char>) -> Option<
    Seq<char>,
>;

/// What `ElementRef::inner_html` gives for the element at `place` of the
/// document parsed from `markup`.
pub uninterp spec fn inner_html_at(markup: Seq<char>, place: int) -> Seq<char>;

/// The places of the elements that `ElementRef::child_elements` yields for
/// the element at `place` of the document parsed from `markup`, in order.
pub uninterp spec fn child_places(markup: Seq<char>, place: int) -> Seq<int>;

/// The first text that `ElementRef::text` yields for the element at `place`
/// of the document parsed from `markup`.
pub uninterp spec fn first_text_at(markup: Seq<char>, place: int) -> Option<Seq<char>>;

/// The text that an optional string slice holds.
pub open spec fn slice_text(s: Option<&str>) -> Option<Seq<char>> {
    match s {
        Some(t) => Some(t@),
        None => None,
    }
}

/// The text that an optional string holds.
pub open spec fn owned_text(s: Option<String>) -> Option<Seq<char>> {
    match s {
        Some(t) => Some(t@),
        None => None,
    }
}

/// The markup inside the first element that the selector written `css`
/// matches below the element at `place`.
pub open spec fn inner_html_of_first_at(markup: Seq<char>, place: int, css: Seq<char>) -> Option<
    Seq<char>,
> {
    match first_place_within(markup, place, css) {
        Some(found) => Some(inner_html_at(markup, found)),
        None => None,
    }
}

/// The attribute `name` of the first element that the selector written
/// `css` matches below the element at `place`.
pub open spec fn attribute_of_first_at(
    markup: Seq<char>,
    place: int,
    css: Seq<char>,
    name: Seq<char>,
) -> Option<Seq<char>> {
    match first_place_within(markup, place, css) {
        Some(found) => attribute_at(markup, found, name),
        None => None,
    }
}

/// `Html::parse_document`: the document that the markup describes. Every
/// text gives a document; what the parser cannot read it repairs. The
/// markup is kept beside the document.
#[verifier::external_body]
pub(crate) fn parse_document(markup: &str) -> (doc: Document)
    ensures
        doc.source() == markup@,
{
    Document { html: scraper::Html::parse_document(markup), markup: markup.to_string() }
}

/// `Selector::parse`: the selector group that the text writes, or why it
/// writes none. The contract claims that whether it writes one depends on
/// the text alone. The text is kept beside the selector.
#[verifier::external_body]
pub(crate) fn parse_selector(css: &str) -> (r: Result<Rule, scraper::error::SelectorErrorKind>)
    ensures
        r is Ok == selector_parses(css@),
        r matches Ok(rule) ==> rule.source() == css@,
{
    scraper::Selector::parse(css).map(|selector| Rule { selector, css: css.to_string() })
}

/// `Html::select`, first item: the first element of the document that the
/// selector matches, in the order in which the document yields its nodes.
/// The contract claims that which element it is depends on the sources of
/// document and selector alone. The document's markup is kept beside the
/// element.
#[verifier::external_body]
pub(crate) fn first_in_document<'a>(doc: &'a Document, rule: &Rule) -> (r: Option<Element<'a>>)
    ensures
        match r {
            Some(el) => el.source() == doc.source() && first_place_in_document(
                doc.source(),
                rule.source(),
            ) == Some(element_place(el)),
            None => first_place_in_document(doc.source(), rule.source()) is None,
        },
{
    doc.html.select(&rule.selector).next().map(|node| Element { node, markup: &doc.markup })
}

/// `ElementRef::select`, first item: the first element below `el`, going
/// through the tree depth first, that the selector matches. The contract
/// claims that which element it is depends on the document's source, the
/// place of `el` and the selector's source alone.
#[verifier::external_body]
pub(crate) fn first_within<'a>(el: Element<'a>, rule: &Rule) -> (r: Option<Element<'a>>)
    ensures
        match r {
            Some(found) => found.source() == el.source() && first_place_within(
                el.source(),
                element_place(el),
                rule.source(),
            ) == Some(element_place(found)),
            None => first_place_within(el.source(), element_place(el), rule.source()) is None,
        },
{
    el.node.select(&rule.selector).next().map(|node| Element { node, markup: el.markup })
}

/// `ElementRef::attr`: the value of the element's attribute of that name.
/// The contract claims that it depends on the document's source, the place
/// of the element and the name alone.
#[verifier::external_body]
pub(crate) fn attribute<'a>(el: Element<'a>, name: &str) -> (r: Option<&'a str>)
    ensures
        slice_text(r) == attribute_at(el.source(), element_place(el), name@),
{
    el.node.attr(name)
}

/// `ElementRef::inner_html`: the markup of what the element contains. The
/// contract claims that it depends on the document's source and the place
/// of the element alone.
#[verifier::external_body]
pub(crate) fn inner_html(el: Element<'_>) -> (r: String)
    ensures
        r@ == inner_html_at(el.source(), element_place(el)),
{
    el.node.inner_html()
}

/// `ElementRef::child_elements`: the children of `el` that are elements, in
/// document order. The contract claims that which elements they are depends
/// on the document's source and the place of `el` alone.
#[verifier::external_body]
pub(crate) fn child_elements<'a>(el: Element<'a>) -> (r: Vec<Element<'a>>)
    ensures
        r@.len() == child_places(el.source(), element_place(el)).len(),
        forall|i: int|
            0 <= i < r@.len() ==> (#[trigger] r@[i]).source() == el.source() && element_place(r@[i])
                == child_places(el.source(), element_place(el))[i],
{
    el.node.child_elements().map(|node| Element { node, markup: el.markup }).collect()
}

/// `ElementRef::text`, first item: the first text node below `el`, going
/// through the tree depth first. The contract claims that it depends on
/// the document's source and the place of `el` alone.
#[verifier::external_body]
pub(crate) fn first_text<'a>(el: Element<'a>) -> (r: Option<&'a str>)
    ensures
        slice_text(r) == first_text_at(el.source(), element_place(el)),
{
    el.node.text().next()
}

/// The selector that `css` writes, if it writes one.
pub(crate) fn selector(css: &str) -> (r: Option<Rule>)
    ensures
        r is Some == selector_parses(css@),
        r matches Some(s) ==> s.source() == css@,
{
    match parse_selector(css) {
        Ok(s) => Some(s),
        Err(_) => None,
    }
}

/// The value of an attribute, owned.
pub(crate) fn attribute_text(el: Element<'_>, name: &str) -> (r: Option<String>)
    ensures
        owned_text(r) == attribute_at(el.source(), element_place(el), name@),
{
    match attribute(el, name) {
        Some(value) => Some(String::from_str(value)),
        None => None,
    }
}

/// The markup inside the first element below `el` that `selector` matches.
pub(crate) fn inner_html_of_first(el: Element<'_>, selector: &Rule) -> (r:
    Option<String>)
    ensures
        owned_text(r) == inner_html_of_first_at(
            el.source(),
            element_place(el),
            selector.source(),
        ),
{
    match first_within(el, selector) {
        Some(found) => Some(inner_html(found)),
        None => None,
    }
}

/// An attribute of the first element below `el` that `selector` matches.
pub(crate) fn attribute_of_first(
    el: Element<'_>,
    selector: &Rule,
    name: &str,
) -> (r: Option<String>)
    ensures
        owned_text(r) == attribute_of_first_at(
            el.source(),
            element_place(el),
            selector.source(),
            name@,
        ),
{
    match first_within(el, selector) {
        Some(found) => attribute_text(found, name),
        None => None,
    }
}

} // verus!
