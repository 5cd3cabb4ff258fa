//! The supported sources, the records they yield and the page addresses of
//! a listing.

pub mod amazon;
pub mod bol;
pub mod item;

use vstd::prelude::*;
use vstd::string::StringSliceAdditionalSpecFns;
use vstd::string::StringExecFns;
use vstd::utf8::{
    decode_utf8, encode_utf8, encode_utf8_decode_utf8, is_ascii_chars, is_ascii_chars_encode_utf8,
    is_char_boundary,
};
use crate::pattern::{find, leftmost_match};
use crate::text::{
    append_decimal, chars_of, contains_char, decimal_digits, first_index, index_of, is_text,
    lemma_first_index_found, slice_of, split, split_on, string_of, texts,
};

verus! {

/// A supported source.
#[derive(Clone, Copy, Debug, PartialEq, Eq, Structural)]
pub enum Provider {
    Amazon,
    Bol,
}

/// Why an address names no supported source.
#[derive(Clone, Copy, Debug, PartialEq, Eq, Structural)]
pub enum UnsupportedSource {
    /// The address has no domain: fewer than two `/` in it.
    NoDomain,
    /// The domain, without leading `www` labels, is not a known name
    /// followed by one more label.
    UnknownDomain,
    /// The source is known, its top-level domain is not served.
    UnknownTopLevelDomain,
}

/// The domain of an address: what stands between its second and third `/`.
pub open spec fn domain_of(url: Seq<char>) -> Option<Seq<char>> {
    let pieces = split_on(url, '/');
    if pieces.len() > 2 {
        Some(pieces[2])
    } else {
        None
    }
}

/// The labels of a domain without a leading `www`: one such label is
/// dropped and no more.
pub open spec fn without_www(labels: Seq<Seq<char>>) -> Seq<Seq<char>> {
    if labels.len() > 0 && labels[0] == "www"@ {
        labels.drop_first()
    } else {
        labels
    }
}

/// The source that an address names.
pub open spec fn resolved(url: Seq<char>) -> Result<Provider, UnsupportedSource> {
    match domain_of(url) {
        None => Err(UnsupportedSource::NoDomain),
        Some(domain) => {
            let labels = without_www(split_on(domain, '.'));
            if labels.len() == 2 && (labels[0] == "amazon"@ || labels[0] == "bol"@) {
                if labels[1] == "com"@ || labels[1] == "nl"@ {
                    if labels[0] == "amazon"@ {
                        Ok(Provider::Amazon)
                    } else {
                        Ok(Provider::Bol)
                    }
                } else {
                    Err(UnsupportedSource::UnknownTopLevelDomain)
                }
            } else {
                Err(UnsupportedSource::UnknownDomain)
            }
        },
    }
}

impl Provider {
    /// The source that the address names, from its domain alone.
    pub fn from_url(url: &str) -> (r: Result<Provider, UnsupportedSource>)
        ensures
            r == resolved(url@),
    {
        let chars = chars_of(url);
        let pieces = split(&chars, '/');
        if pieces.len() <= 2 {
            return Err(UnsupportedSource::NoDomain);
        }
        assert(texts(pieces@)[2] == pieces@[2]@);
        let labels = split(&pieces[2], '.');
        assert(texts(labels@)[0] == labels@[0]@);
        let k: usize = if is_text(&labels[0], "www") {
            1
        } else {
            0
        };
        let ghost rest = texts(labels@).skip(k as int);
        assert(rest =~= without_www(texts(labels@)));
        if labels.len() - k != 2 {
            return Err(UnsupportedSource::UnknownDomain);
        }
        assert(rest[0] == labels@[k as int]@);
        assert(rest[1] == labels@[k + 1]@);
        let amazon = is_text(&labels[k], "amazon");
        let bol = is_text(&labels[k], "bol");
        if !amazon && !bol {
            return Err(UnsupportedSource::UnknownDomain);
        }
        let tld = &labels[k + 1];
        if !is_text(tld, "com") && !is_text(tld, "nl") {
            return Err(UnsupportedSource::UnknownTopLevelDomain);
        }
        if amazon {
            Ok(Provider::Amazon)
        } else {
            Ok(Provider::Bol)
        }
    }

    /// How many results one listing page of the source shows.
    pub fn results_per_page(&self) -> (n: usize)
        ensures
            n == match *self {
                Provider::Amazon => 56usize,
                Provider::Bol => 24usize,
            },
    {
        match self {
            Provider::Amazon => 56,
            Provider::Bol => 24,
        }
    }

    /// The candidates of a listing page of the source.
    pub open spec fn page_candidates(self, markup: Seq<char>) -> Result<
        Seq<crate::providers::item::AnchorsView>,
        crate::providers::item::PageError,
    > {
        match self {
            Provider::Amazon => amazon::page_candidates(markup),
            Provider::Bol => bol::page_candidates(markup),
        }
    }

    /// Deduplication on a page: where a page has two candidates with the
    /// same link, of which the first is accepted and the second can be
    /// read, the page yields the first alone and one duplicate.
    pub proof fn lemma_page_with_same_link(
        self,
        markup: Seq<char>,
        first: crate::providers::item::AnchorsView,
        second: crate::providers::item::AnchorsView,
    )
        requires
            self.page_candidates(markup) == Ok::<
                Seq<crate::providers::item::AnchorsView>,
                crate::providers::item::PageError,
            >(seq![first, second]),
            crate::providers::item::outcome_of(first, self, Seq::empty()) is Accepted,
            second.image is Some,
            second.title is Some,
            !crate::providers::item::is_sponsored(second.title->0, self),
            second.link == first.link,
        ensures
            self.page_extraction(markup) is Ok,
            self.page_extraction(markup)->Ok_0.products == seq![
                crate::providers::item::record_of(first, self),
            ],
            self.page_extraction(markup)->Ok_0.products[0].url == self.root() + first.link->0,
            crate::providers::item::count_of(
                self.page_extraction(markup)->Ok_0.outcomes,
                crate::providers::item::ItemOutcome::Duplicate,
            ) == 1,
    {
        crate::providers::item::lemma_same_link_is_duplicate(first, second, self);
    }

    /// Partial failure on a page: where the candidates of one page are
    /// those of another with one more that lacks something, both pages
    /// yield the same records.
    pub proof fn lemma_page_with_defective_item(
        self,
        markup: Seq<char>,
        other: Seq<char>,
        at: int,
        broken: crate::providers::item::AnchorsView,
    )
        requires
            self.page_candidates(other) is Ok,
            0 <= at <= self.page_candidates(other)->Ok_0.len(),
            self.page_candidates(markup) == Ok::<
                Seq<crate::providers::item::AnchorsView>,
                crate::providers::item::PageError,
            >(self.page_candidates(other)->Ok_0.insert(at, broken)),
            crate::providers::item::is_defective(broken),
        ensures
            self.page_extraction(markup) is Ok,
            self.page_extraction(other) is Ok,
            self.page_extraction(markup)->Ok_0.products == self.page_extraction(
                other,
            )->Ok_0.products,
    {
        crate::providers::item::lemma_defective_item_is_skipped(
            self.page_candidates(other)->Ok_0,
            at,
            broken,
            self,
        );
    }

    /// What a listing page of the source yields.
    pub open spec fn page_extraction(self, markup: Seq<char>) -> Result<
        crate::providers::item::ExtractionView,
        crate::providers::item::PageError,
    > {
        match self {
            Provider::Amazon => amazon::page_extraction(markup),
            Provider::Bol => bol::page_extraction(markup),
        }
    }

    /// Extracts the records of a listing page of the source.
    pub fn parse_products(&self, markup: &str) -> (r: Result<
        crate::providers::item::Extraction,
        crate::providers::item::PageError,
    >)
        ensures
            match r {
                Ok(e) => self.page_extraction(markup@) == Ok::<
                    crate::providers::item::ExtractionView,
                    crate::providers::item::PageError,
                >(e@),
                Err(error) => self.page_extraction(markup@) == Err::<
                    crate::providers::item::ExtractionView,
                    crate::providers::item::PageError,
                >(error),
            },
    {
        match self {
            Provider::Amazon => amazon::parse_products(markup),
            Provider::Bol => bol::parse_products(markup),
        }
    }

    /// Whether the source's records are completed from product pages.
    pub open spec fn has_product_pages(self) -> bool {
        self == Provider::Bol
    }

    /// Whether the source's records are completed from product pages.
    pub fn enriches(&self) -> (r: bool)
        ensures
            r == self.has_product_pages(),
    {
        match self {
            Provider::Amazon => false,
            Provider::Bol => true,
        }
    }

    /// The root that the source's relative links are resolved against.
    pub open spec fn root(self) -> Seq<char> {
        match self {
            Provider::Amazon => "https://amazon.nl"@,
            Provider::Bol => "https://bol.com"@,
        }
    }

    /// The root that the source's relative links are resolved against.
    pub fn domain_root(&self) -> (r: &'static str)
        ensures
            r@ == self.root(),
    {
        match self {
            Provider::Amazon => "https://amazon.nl",
            Provider::Bol => "https://bol.com",
        }
    }
}

/// One extracted product listing. The price is kept as the text of a
/// floating-point literal, with a decimal point.
#[derive(Debug)]
pub struct Product {
    pub title: String,
    pub image: String,
    pub url: String,
    pub price: String,
    pub ean: Option<u64>,
}

/// What a record says.
pub struct ProductView {
    pub title: Seq<char>,
    pub image: Seq<char>,
    pub url: Seq<char>,
    pub price: Seq<char>,
    pub ean: Option<u64>,
}

impl View for Product {
    type V = ProductView;

    open spec fn view(&self) -> ProductView {
        ProductView {
            title: self.title@,
            image: self.image@,
            url: self.url@,
            price: self.price@,
            ean: self.ean,
        }
    }
}

/// What the records say, in order.
pub open spec fn records(v: Seq<Product>) -> Seq<ProductView> {
    Seq::new(v.len(), |i: int| v[i]@)
}

/// Whether a record with the address `url` is among `buffer`.
pub open spec fn listed(buffer: Seq<ProductView>, url: Seq<char>) -> bool {
    exists|i: int| 0 <= i < buffer.len() && (#[trigger] buffer[i]).url == url
}

/// Whether no two records of `buffer` share an address.
pub open spec fn distinct_urls(buffer: Seq<ProductView>) -> bool {
    forall|i: int, j: int|
        0 <= i < j < buffer.len() ==> (#[trigger] buffer[i]).url != (#[trigger] buffer[j]).url
}

/// The records of one run, in the order in which they were gathered. Within
/// the records of one page no address occurs twice; across pages nothing
/// is compared.
#[derive(Debug)]
pub struct Products(pub Vec<Product>);

impl View for Products {
    type V = Seq<ProductView>;

    open spec fn view(&self) -> Seq<ProductView> {
        records(self.0@)
    }
}

impl From<Vec<Product>> for Products {
    fn from(value: Vec<Product>) -> (r: Self) {
        Products(value)
    }
}

impl vstd::std_specs::convert::FromSpecImpl<Vec<Product>> for Products {
    open spec fn obeys_from_spec() -> bool {
        true
    }

    open spec fn from_spec(value: Vec<Product>) -> Self {
        Products(value)
    }
}

impl Products {
    /// How many records there are.
    pub fn len(&self) -> (n: usize)
        ensures
            n == self@.len(),
    {
        self.0.len()
    }

    /// The records laid out as the cells of a sheet.
    pub fn as_cells(&self) -> (r: Result<Vec<crate::sheet::Cell>, crate::sheet::TooManyRows>)
        ensures
            match r {
                Ok(cells) => self@.len() < u32::MAX && crate::sheet::cell_views(cells@)
                    == crate::sheet::sheet_cells(self@, self@.len() as int),
                Err(_) => self@.len() >= u32::MAX,
            },
    {
        crate::sheet::as_cells(&self.0)
    }
}

/// The pattern of a page parameter in a query: the `?` or `&` that it
/// stands behind, then its name, the equals sign and the digits that
/// follow.
pub open spec fn page_pattern() -> Seq<char> {
    "[?&]page=\\d*"@
}

/// The page parameter as it is written for page `page`.
pub open spec fn page_parameter(page: nat) -> Seq<char> {
    "page="@ + decimal_digits(page)
}

/// `url` with the bytes from `start` up to `end` of its UTF-8 form replaced
/// by `with`.
pub open spec fn spliced(url: Seq<char>, start: int, end: int, with: Seq<char>) -> Seq<char> {
    let bytes = encode_utf8(url);
    decode_utf8(bytes.subrange(0, start)) + with + decode_utf8(
        bytes.subrange(end, bytes.len() as int),
    )
}

/// In an address of ASCII characters, bytes and characters count alike: the
/// splice is what stands before `start`, then `with`, then what stands from
/// `end` on.
pub proof fn lemma_spliced_ascii(url: Seq<char>, start: int, end: int, with: Seq<char>)
    requires
        is_ascii_chars(url),
        0 <= start <= end <= url.len(),
    ensures
        spliced(url, start, end, with) == url.subrange(0, start) + with + url.subrange(
            end,
            url.len() as int,
        ),
{
    let before = url.subrange(0, start);
    let after = url.subrange(end, url.len() as int);
    let bytes = encode_utf8(url);
    is_ascii_chars_encode_utf8(url);
    is_ascii_chars_encode_utf8(before);
    is_ascii_chars_encode_utf8(after);
    assert(bytes.subrange(0, start) =~= encode_utf8(before));
    assert(bytes.subrange(end, bytes.len() as int) =~= encode_utf8(after));
    encode_utf8_decode_utf8(before);
    encode_utf8_decode_utf8(after);
}

/// The address of page `page` of the listing at `url`, given where the
/// first page parameter of `url` stands, if it has one.
pub open spec fn with_page(url: Seq<char>, found: Option<(int, int)>, page: nat) -> Seq<char> {
    if !url.contains('?') {
        url + "?"@ + page_parameter(page)
    } else {
        match found {
            None => url + "&"@ + page_parameter(page),
            Some((start, end)) => spliced(url, start, end, page_parameter(page)),
        }
    }
}

/// The byte range of the first parameter named `page` in a query, where
/// it has one: the leftmost match of the pattern without the `?` or `&`
/// that it begins with.
pub open spec fn page_span(query: Seq<char>) -> Option<(int, int)> {
    match leftmost_match(page_pattern(), query) {
        Some((start, end)) => {
            let bytes = encode_utf8(query);
            if start < end && (bytes[start] == 0x3f || bytes[start] == 0x26) && is_char_boundary(
                bytes,
                start + 1,
            ) {
                Some((start + 1, end))
            } else {
                None
            }
        },
        None => None,
    }
}

/// The address of page `page` of the listing at `url`. The query of an
/// address begins at its first `?`. Without a query the page parameter
/// opens one; in a query without a parameter named `page` it is added
/// behind an `&`; and else it takes the place of the first parameter named
/// `page`, while what stands before the query stays as it is.
pub open spec fn paginated(url: Seq<char>, page: nat) -> Seq<char> {
    let q = first_index(url, '?');
    if 0 <= q < url.len() {
        match page_span(url.skip(q)) {
            None => url + "&"@ + page_parameter(page),
            Some((start, end)) => url.take(q) + spliced(
                url.skip(q),
                start,
                end,
                page_parameter(page),
            ),
        }
    } else {
        url + "?"@ + page_parameter(page)
    }
}

/// The address of page `page` of the listing at `url`, where `found` gives
/// the byte range of the page parameter that `url` already has: without a
/// query the parameter opens one, without a parameter it is added to the
/// query, and else it takes the old one's place.
pub fn set_page(url: &str, found: Option<(usize, usize)>, page: usize) -> (r: String)
    requires
        match found {
            Some((start, end)) => {
                &&& start <= end <= url.spec_bytes().len()
                &&& is_char_boundary(url.spec_bytes(), start as int)
                &&& is_char_boundary(url.spec_bytes(), end as int)
            },
            None => true,
        },
    ensures
        r@ == with_page(
            url@,
            match found {
                Some((start, end)) => Some((start as int, end as int)),
                None => None,
            },
            page as nat,
        ),
{
    broadcast use encode_utf8_decode_utf8;

    let chars = chars_of(url);
    if !contains_char(&chars, '?') {
        let mut r = String::from_str(url);
        r.append("?");
        r.append("page=");
        append_decimal(&mut r, page as u64);
        assert(r@ =~= url@ + "?"@ + page_parameter(page as nat));
        return r;
    }
    match found {
        None => {
            let mut r = String::from_str(url);
            r.append("&");
            r.append("page=");
            append_decimal(&mut r, page as u64);
            assert(r@ =~= url@ + "&"@ + page_parameter(page as nat));
            r
        },
        Some((start, end)) => {
            let (before, _) = url.split_at(start);
            let (_, after) = url.split_at(end);
            assert(before@ == decode_utf8(encode_utf8(before@)));
            assert(after@ == decode_utf8(encode_utf8(after@)));
            let mut r = String::from_str(before);
            r.append("page=");
            append_decimal(&mut r, page as u64);
            r.append(after);
            assert(r@ =~= spliced(url@, start as int, end as int, page_parameter(page as nat)));
            r
        },
    }
}

/// The byte range of the first parameter named `page` in a query, where
/// it has one.
pub fn find_page_parameter(query: &str) -> (r: Option<(usize, usize)>)
    ensures
        match r {
            Some((start, end)) => {
                &&& page_span(query@) == Some((start as int, end as int))
                &&& start <= end <= query.spec_bytes().len()
                &&& is_char_boundary(query.spec_bytes(), start as int)
                &&& is_char_boundary(query.spec_bytes(), end as int)
            },
            None => page_span(query@) is None,
        },
{
    match find("[?&]page=\\d*", query) {
        Some((start, end)) => {
            if start < end {
                let delimiter = query.as_bytes()[start];
                if (delimiter == 0x3f || delimiter == 0x26) && query.is_char_boundary(start + 1) {
                    return Some((start + 1, end));
                }
            }
            None
        },
        None => None,
    }
}

/// The address of page `page` of the listing at `url`.
pub fn paginate_url(url: &str, page: usize) -> (r: String)
    ensures
        r@ == paginated(url@, page as nat),
{
    let chars = chars_of(url);
    let q = index_of(&chars, '?');
    proof {
        lemma_first_index_found(url@, '?');
    }
    if q == chars.len() {
        return set_page(url, None, page);
    }
    let query = string_of(&slice_of(&chars, q, chars.len()));
    assert(query@ =~= url@.skip(q as int));
    match find_page_parameter(query.as_str()) {
        None => set_page(url, None, page),
        Some(range) => {
            assert(query@[0] == '?');
            let mut r = string_of(&slice_of(&chars, 0, q));
            assert(r@ =~= url@.take(q as int));
            let tail = set_page(query.as_str(), Some(range), page);
            r.append(tail.as_str());
            r
        },
    }
}

} // verus!
