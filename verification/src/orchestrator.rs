//! The bookkeeping of one run: which pages are asked for, what every page
//! and every product page that comes back does to the progress counters,
//! and how the records of the run are gathered.
//!
//! Fetching is not done here. Whoever runs the fetches reports each result
//! to the `Run`, which owns the counters and the records.

use vstd::prelude::*;
use crate::providers::bol::Specifications;
use crate::dom::{owned_text, slice_text};
use crate::providers::bol::page_specifications;
use crate::providers::item::{count_of, Extraction, ExtractionView, ItemOutcome};
use crate::providers::{
    paginate_url, paginated, records, Product, ProductView, Products, Provider,
};
use crate::status::{lemma_advanced_step, Counts, QueryStatus, Status};

verus! {

/// One page to fetch: its number, from one on, and its address.
#[derive(Debug)]
pub struct PageTask {
    pub index: usize,
    pub url: String,
}

/// One product page to fetch: the ticket under which its result is handed
/// back, and its address.
#[derive(Debug)]
pub struct DetailTask {
    pub ticket: usize,
    pub url: String,
}

/// The page tasks of a listing of `pages` pages: one for each page from one
/// to `pages`, in order.
pub fn page_tasks(url: &str, pages: usize) -> (tasks: Vec<PageTask>)
    ensures
        tasks@.len() == pages,
        forall|i: int|
            0 <= i < pages ==> (#[trigger] tasks@[i]).index == i + 1 && tasks@[i].url@ == paginated(
                url@,
                (i + 1) as nat,
            ),
{
    let mut tasks: Vec<PageTask> = Vec::new();
    let mut i: usize = 0;
    while i < pages
        invariant
            i <= pages,
            tasks@.len() == i,
            forall|k: int|
                0 <= k < i ==> (#[trigger] tasks@[k]).index == k + 1 && tasks@[k].url@ == paginated(
                    url@,
                    (k + 1) as nat,
                ),
        decreases pages - i,
    {
        tasks.push(PageTask { index: i + 1, url: paginate_url(url, i + 1) });
        i += 1;
    }
    tasks
}

/// A record with what its product page gave: the code where the page gave
/// one, and else the record as it was.
pub open spec fn enriched(p: ProductView, specs: Option<Specifications>) -> ProductView {
    match specs {
        Some(s) => ProductView { ean: Some(s.ean), ..p },
        None => p,
    }
}

/// Adds to a record what its product page gave. A page that gave nothing
/// leaves the record as it was: no record is lost to a failed page.
pub fn with_specifications(product: Product, specs: Option<Specifications>) -> (r: Product)
    ensures
        r@ == enriched(product@, specs),
{
    match specs {
        Some(s) => Product {
            title: product.title,
            image: product.image,
            price: product.price,
            url: product.url,
            ean: Some(s.ean),
        },
        None => product,
    }
}

/// How many of the flags are set.
pub open spec fn set_count(flags: Seq<bool>) -> nat
    decreases flags.len(),
{
    if flags.len() == 0 {
        0
    } else {
        set_count(flags.drop_last()) + if flags.last() {
            1nat
        } else {
            0nat
        }
    }
}

proof fn lemma_set_count_bound(flags: Seq<bool>)
    ensures
        set_count(flags) <= flags.len(),
    decreases flags.len(),
{
    if flags.len() > 0 {
        lemma_set_count_bound(flags.drop_last());
    }
}

proof fn lemma_set_count_clear(flags: Seq<bool>, at: int)
    requires
        0 <= at < flags.len(),
        flags[at],
    ensures
        set_count(flags.update(at, false)) + 1 == set_count(flags),
    decreases flags.len(),
{
    let cleared = flags.update(at, false);
    if at == flags.len() - 1 {
        assert(cleared.drop_last() =~= flags.drop_last());
    } else {
        lemma_set_count_clear(flags.drop_last(), at);
        assert(cleared.drop_last() =~= flags.drop_last().update(at, false));
    }
}

/// The tasks for the records of `awaiting` from `first` on: each under the
/// ticket that is its place, to the address of its record.
fn detail_tasks(awaiting: &Vec<Product>, first: usize) -> (tasks: Vec<DetailTask>)
    requires
        first <= awaiting@.len(),
    ensures
        tasks@.len() == awaiting@.len() - first,
        forall|i: int|
            0 <= i < tasks@.len() ==> (#[trigger] tasks@[i]).ticket == first + i && tasks@[i].url@
                == awaiting@[first + i].url@,
{
    let mut tasks: Vec<DetailTask> = Vec::new();
    let mut k: usize = first;
    while k < awaiting.len()
        invariant
            first <= k <= awaiting@.len(),
            tasks@.len() == k - first,
            forall|i: int|
                0 <= i < tasks@.len() ==> (#[trigger] tasks@[i]).ticket == first + i
                    && tasks@[i].url@ == awaiting@[first + i].url@,
        decreases awaiting.len() - k,
    {
        tasks.push(DetailTask { ticket: k, url: awaiting[k].url.clone() });
        k += 1;
    }
    tasks
}

/// Adds `count` set flags.
fn open_flags(open: &mut Vec<bool>, count: usize)
    ensures
        final(open)@.len() == old(open)@.len() + count,
        forall|i: int| 0 <= i < old(open)@.len() ==> final(open)@[i] == old(open)@[i],
        forall|i: int| old(open)@.len() <= i < final(open)@.len() ==> final(open)@[i],
        set_count(final(open)@) == set_count(old(open)@) + count,
{
    let mut k: usize = 0;
    while k < count
        invariant
            k <= count,
            open@.len() == old(open)@.len() + k,
            forall|i: int| 0 <= i < old(open)@.len() ==> open@[i] == old(open)@[i],
            forall|i: int| old(open)@.len() <= i < open@.len() ==> open@[i],
            set_count(open@) == set_count(old(open)@) + k,
        decreases count - k,
    {
        let ghost before = open@;
        open.push(true);
        assert(open@.drop_last() =~= before);
        k += 1;
    }
}

/// The records and the counters of a run.
pub struct Tally {
    pub gathered: Seq<ProductView>,
    pub counts: Counts,
}

/// What came back in one round of a run: the answer for a page, and the
/// answers for the product pages of its records, in the records' order.
/// `None` is a page that could not be fetched.
pub struct Round {
    pub page: Option<String>,
    pub details: Seq<Option<String>>,
}

/// What a run takes from the answer for a page while its total stands at
/// `total`: the extraction of the markup, where the page was fetched, has
/// the layout of the source and has no more records than the total can
/// still count; nothing otherwise.
pub open spec fn page_taken(provider: Provider, total: u32, page: Option<Seq<char>>) -> Option<
    ExtractionView,
> {
    match page {
        None => None,
        Some(markup) => match provider.page_extraction(markup) {
            Err(_) => None,
            Ok(e) => if !provider.has_product_pages() || total + e.products.len() <= u32::MAX {
                Some(e)
            } else {
                None
            },
        },
    }
}

/// What the answer for a product page gives: the specifications of its
/// markup, where the page was fetched and holds them.
pub open spec fn detail_taken(detail: Option<Seq<char>>) -> Option<Specifications> {
    match detail {
        None => None,
        Some(markup) => match page_specifications(markup) {
            Ok(s) => Some(s),
            Err(_) => None,
        },
    }
}

/// The state of one run. A run counts its units in 32 bits: it dispatches
/// no more pages and sends no more records for enrichment than its total
/// can count.
pub struct Run<F: Fn(&QueryStatus)> {
    status: Status<F>,
    provider: Provider,
    started: bool,
    open_pages: usize,
    awaiting: Vec<Product>,
    open: Vec<bool>,
    open_tickets: usize,
    records: Vec<Product>,
    pages: Ghost<nat>,
}

impl<F: Fn(&QueryStatus)> Run<F> {
    /// The counters as they stand.
    pub closed spec fn counts(&self) -> Counts {
        self.status.counts()
    }

    /// The source of the run.
    pub closed spec fn provider(&self) -> Provider {
        self.provider
    }

    /// Whether the pages were dispatched.
    pub closed spec fn started(&self) -> bool {
        self.started
    }

    /// How many pages were dispatched.
    pub closed spec fn pages(&self) -> nat {
        self.pages@
    }

    /// How many dispatched pages have not come back.
    pub closed spec fn open_pages(&self) -> nat {
        self.open_pages as nat
    }

    /// How many product pages were asked for: one for each record that
    /// awaits or awaited enrichment.
    pub closed spec fn tickets(&self) -> nat {
        self.awaiting@.len()
    }

    /// Whether the product page of that ticket has not come back.
    pub closed spec fn is_open(&self, ticket: int) -> bool {
        0 <= ticket < self.open@.len() && self.open@[ticket]
    }

    /// How many product pages have not come back.
    pub closed spec fn open_tickets(&self) -> nat {
        set_count(self.open@)
    }

    /// The records that were sent for enrichment, by ticket.
    pub closed spec fn awaiting(&self) -> Seq<ProductView> {
        records(self.awaiting@)
    }

    /// The records gathered so far, in the order in which they came.
    pub closed spec fn gathered(&self) -> Seq<ProductView> {
        records(self.records@)
    }

    /// Whether every unit that was dispatched has come back.
    pub open spec fn complete(&self) -> bool {
        self.started() && self.open_pages() == 0 && self.open_tickets() == 0
    }

    /// Whether the run can take the extraction of a page: where the source
    /// has product pages, every record of the page needs a place in the
    /// total.
    pub open spec fn takes(&self, extraction: ExtractionView) -> bool {
        !self.provider().has_product_pages() || self.counts().total + extraction.products.len()
            <= u32::MAX
    }

    /// The state is consistent: the total counts the pages and the records
    /// sent for enrichment, pending counts those of them that have not come
    /// back, every unit is pending, succeeded or failed, and of the records
    /// sent for enrichment, those whose product page has come back are the
    /// gathered ones.
    pub closed spec fn wf(&self) -> bool {
        &&& self.status.callable()
        &&& self.open@.len() == self.awaiting@.len()
        &&& self.open_tickets == set_count(self.open@)
        &&& self.open_pages <= self.pages@
        &&& !self.started ==> self.pages@ == 0 && self.awaiting@.len() == 0
        &&& self.provider.has_product_pages() ==> self.records@.len() + self.open_tickets
            == self.awaiting@.len()
        &&& !self.provider.has_product_pages() ==> self.awaiting@.len() == 0
        &&& self.counts().balanced()
        &&& self.counts().total == self.pages@ + self.awaiting@.len()
        &&& self.counts().pending == self.open_pages + self.open_tickets
    }

    /// A run of `provider` that has dispatched nothing. `on_update` is
    /// called after every change of the counters.
    pub fn new(provider: Provider, on_update: F) -> (r: Self)
        requires
            forall|q: &QueryStatus| call_requires(on_update, (q,)),
        ensures
            r.wf(),
            r.provider() == provider,
            !r.started(),
            r.pages() == 0,
            r.open_pages() == 0,
            r.tickets() == 0,
            r.open_tickets() == 0,
            r.counts() == Counts::zero(),
            r.gathered() == Seq::<ProductView>::empty(),
            r.awaiting() == Seq::<ProductView>::empty(),
    {
        let r = Run {
            status: Status::new(on_update),
            provider,
            started: false,
            open_pages: 0,
            awaiting: Vec::new(),
            open: Vec::new(),
            open_tickets: 0,
            records: Vec::new(),
            pages: Ghost(0),
        };
        assert(records(r.records@) =~= Seq::<ProductView>::empty());
        assert(records(r.awaiting@) =~= Seq::<ProductView>::empty());
        r
    }

    /// The counters, to read.
    pub fn queries(&self) -> (q: &QueryStatus)
        ensures
            q@ == self.counts(),
    {
        self.status.queries()
    }

    /// Whether every unit that was dispatched has come back.
    pub fn is_complete(&self) -> (r: bool)
        requires
            self.wf(),
        ensures
            r == self.complete(),
    {
        self.started && self.open_pages == 0 && self.open_tickets == 0
    }

    /// Dispatches the pages of the listing: one task for each page from one
    /// to `pages`, each counted as pending. A run dispatches its pages
    /// once; a second call dispatches nothing. More pages than the total
    /// can count are not dispatched at all, and the run stays as it is.
    pub fn start(&mut self, url: &str, pages: usize) -> (tasks: Vec<PageTask>)
        requires
            old(self).wf(),
        ensures
            final(self).wf(),
            final(self).provider() == old(self).provider(),
            final(self).gathered() == old(self).gathered(),
            final(self).awaiting() == old(self).awaiting(),
            final(self).tickets() == old(self).tickets(),
            final(self).open_tickets() == old(self).open_tickets(),
            forall|t: int| final(self).is_open(t) == old(self).is_open(t),
            old(self).started() || pages > u32::MAX ==> {
                &&& tasks@.len() == 0
                &&& final(self).started() == old(self).started()
                &&& final(self).pages() == old(self).pages()
                &&& final(self).open_pages() == old(self).open_pages()
                &&& final(self).counts() == old(self).counts()
            },
            !old(self).started() && pages <= u32::MAX ==> {
                &&& final(self).started()
                &&& tasks@.len() == pages
                &&& final(self).counts() == old(self).counts().with_pendings(pages as nat)
                &&& final(self).counts().total == pages
                &&& final(self).counts().pending == pages
                &&& final(self).pages() == pages
                &&& final(self).open_pages() == pages
                &&& final(self).tickets() == 0
                &&& forall|i: int|
                    0 <= i < pages ==> (#[trigger] tasks@[i]).index == i + 1 && tasks@[i].url@
                        == paginated(url@, (i + 1) as nat)
            },
    {
        if self.started || pages > 0xffff_ffff {
            return Vec::new();
        }
        let tasks = page_tasks(url, pages);
        proof {
            lemma_set_count_bound(self.open@);
            lemma_advanced_step(self.counts().total, pages as nat);
            lemma_advanced_step(self.counts().pending, pages as nat);
        }
        self.status.add_pendings(pages);
        self.started = true;
        self.open_pages = pages;
        self.pages = Ghost(pages as nat);
        tasks
    }

    /// A page did not come back, or came back with a layout that gives no
    /// records: it counts as failed and adds nothing. Without an open page
    /// nothing changes and the answer is `false`.
    pub fn page_failed(&mut self) -> (taken: bool)
        requires
            old(self).wf(),
        ensures
            final(self).wf(),
            taken == (old(self).open_pages() > 0),
            final(self).provider() == old(self).provider(),
            final(self).started() == old(self).started(),
            final(self).pages() == old(self).pages(),
            final(self).gathered() == old(self).gathered(),
            final(self).awaiting() == old(self).awaiting(),
            final(self).tickets() == old(self).tickets(),
            final(self).open_tickets() == old(self).open_tickets(),
            forall|t: int| final(self).is_open(t) == old(self).is_open(t),
            taken ==> final(self).open_pages() == old(self).open_pages() - 1 && final(self).counts()
                == old(self).counts().with_error(),
            !taken ==> final(self).open_pages() == old(self).open_pages() && final(self).counts()
                == old(self).counts(),
    {
        if self.open_pages == 0 {
            return false;
        }
        self.status.pending_errored();
        self.open_pages = self.open_pages - 1;
        true
    }

    /// A product page came back: the record of that ticket, with the code
    /// where the page gave one and unchanged where it gave none, joins the
    /// gathered records; the unit counts as succeeded or failed. A ticket
    /// that is not open changes nothing and the answer is `false`.
    pub fn detail_parsed(&mut self, ticket: usize, specs: Option<Specifications>) -> (taken: bool)
        requires
            old(self).wf(),
        ensures
            final(self).wf(),
            taken == old(self).is_open(ticket as int),
            final(self).provider() == old(self).provider(),
            final(self).started() == old(self).started(),
            final(self).pages() == old(self).pages(),
            final(self).open_pages() == old(self).open_pages(),
            final(self).awaiting() == old(self).awaiting(),
            final(self).tickets() == old(self).tickets(),
            forall|t: int| t != ticket ==> final(self).is_open(t) == old(self).is_open(t),
            taken ==> {
                &&& final(self).gathered() == old(self).gathered().push(
                    enriched(old(self).awaiting()[ticket as int], specs),
                )
                &&& final(self).open_tickets() == old(self).open_tickets() - 1
                &&& !final(self).is_open(ticket as int)
                &&& final(self).counts() == if specs is Some {
                    old(self).counts().with_success()
                } else {
                    old(self).counts().with_error()
                }
            },
            !taken ==> final(self).gathered() == old(self).gathered() && final(self).counts()
                == old(self).counts() && final(self).open_tickets() == old(self).open_tickets(),
    {
        if ticket >= self.open.len() || !self.open[ticket] {
            return false;
        }
        proof {
            lemma_set_count_clear(self.open@, ticket as int);
            lemma_set_count_bound(self.open@);
        }
        let source = &self.awaiting[ticket];
        let copy = Product {
            title: source.title.clone(),
            image: source.image.clone(),
            url: source.url.clone(),
            price: source.price.clone(),
            ean: source.ean,
        };
        assert(copy@ == records(self.awaiting@)[ticket as int]);
        let succeeded = specs.is_some();
        let record = with_specifications(copy, specs);
        let ghost before = records(self.records@);
        self.records.push(record);
        assert(records(self.records@) =~= before.push(record@));
        self.open.set(ticket, false);
        self.open_tickets = self.open_tickets - 1;
        if succeeded {
            self.status.pending_success();
        } else {
            self.status.pending_errored();
        }
        true
    }

    /// Settles an open page as succeeded, with `duplicates` duplicates.
    fn settle_page(&mut self, duplicates: usize)
        requires
            old(self).wf(),
            old(self).open_pages() > 0,
        ensures
            final(self).wf(),
            final(self).provider() == old(self).provider(),
            final(self).started() == old(self).started(),
            final(self).pages() == old(self).pages(),
            final(self).open_pages() == old(self).open_pages() - 1,
            final(self).gathered() == old(self).gathered(),
            final(self).awaiting() == old(self).awaiting(),
            final(self).tickets() == old(self).tickets(),
            final(self).open_tickets() == old(self).open_tickets(),
            forall|t: int| final(self).is_open(t) == old(self).is_open(t),
            final(self).counts() == old(self).counts().with_success().with_duplicates(
                duplicates as nat,
            ),
    {
        self.status.pending_success();
        self.open_pages = self.open_pages - 1;
        self.status.add_duplicates(duplicates);
    }

    /// Sends the records for enrichment: each gets a ticket and counts as
    /// pending.
    fn enqueue(&mut self, products: Vec<Product>) -> (tasks: Vec<DetailTask>)
        requires
            old(self).wf(),
            old(self).started(),
            old(self).provider().has_product_pages(),
            old(self).counts().total + products@.len() <= u32::MAX,
        ensures
            final(self).wf(),
            final(self).provider() == old(self).provider(),
            final(self).started() == old(self).started(),
            final(self).pages() == old(self).pages(),
            final(self).open_pages() == old(self).open_pages(),
            final(self).gathered() == old(self).gathered(),
            final(self).awaiting() == old(self).awaiting() + records(products@),
            final(self).tickets() == old(self).tickets() + tasks@.len(),
            final(self).open_tickets() == old(self).open_tickets() + tasks@.len(),
            forall|t: int|
                0 <= t < old(self).tickets() ==> final(self).is_open(t) == old(self).is_open(t),
            tasks@.len() == products@.len(),
            final(self).counts() == old(self).counts().with_pendings(tasks@.len() as nat),
            forall|i: int|
                0 <= i < tasks@.len() ==> {
                    &&& (#[trigger] tasks@[i]).ticket == old(self).tickets() + i
                    &&& tasks@[i].url@ == records(products@)[i].url
                },
            forall|t: int|
                old(self).tickets() <= t < final(self).tickets() ==> #[trigger] final(self).is_open(t),
    {
        let mut products = products;
        let first = self.awaiting.len();
        let ghost before = records(self.awaiting@);
        let ghost added = records(products@);
        self.awaiting.append(&mut products);
        assert(records(self.awaiting@) =~= before + added);
        let count = self.awaiting.len() - first;
        let tasks = detail_tasks(&self.awaiting, first);
        open_flags(&mut self.open, count);
        proof {
            lemma_set_count_bound(self.open@);
            lemma_advanced_step(self.counts().total, count as nat);
            lemma_advanced_step(self.counts().pending, count as nat);
        }
        self.open_tickets = self.open_tickets + count;
        self.status.add_pendings(count);
        assert forall|i: int| 0 <= i < tasks@.len() implies tasks@[i].url@ == added[i].url by {
            assert(records(self.awaiting@)[first + i] == self.awaiting@[first + i]@);
        }
        tasks
    }

    /// Adds the records to the gathered ones.
    fn gather(&mut self, products: Vec<Product>)
        requires
            old(self).wf(),
            !old(self).provider().has_product_pages(),
        ensures
            final(self).wf(),
            final(self).provider() == old(self).provider(),
            final(self).started() == old(self).started(),
            final(self).pages() == old(self).pages(),
            final(self).open_pages() == old(self).open_pages(),
            final(self).gathered() == old(self).gathered() + records(products@),
            final(self).awaiting() == old(self).awaiting(),
            final(self).tickets() == old(self).tickets(),
            final(self).open_tickets() == old(self).open_tickets(),
            forall|t: int| final(self).is_open(t) == old(self).is_open(t),
            final(self).counts() == old(self).counts(),
    {
        let mut products = products;
        let ghost before = records(self.records@);
        let ghost added = records(products@);
        self.records.append(&mut products);
        assert(records(self.records@) =~= before + added);
    }

    /// A page came back and was read: it counts as succeeded and its
    /// duplicates are counted. Where the source has product pages, every
    /// record of the page is sent for enrichment: it gets a ticket, counts
    /// as pending, and a task asks for its product page. Where it has none,
    /// the records join the gathered ones. Without an open page nothing
    /// changes and the extraction is dropped. A page with more records than
    /// the total can still count is taken as failed.
    pub fn page_extracted(&mut self, extraction: Extraction) -> (tasks: Vec<DetailTask>)
        requires
            old(self).wf(),
        ensures
            final(self).wf(),
            final(self).provider() == old(self).provider(),
            final(self).started() == old(self).started(),
            final(self).pages() == old(self).pages(),
            final(self).tickets() == old(self).tickets() + tasks@.len(),
            final(self).open_tickets() == old(self).open_tickets() + tasks@.len(),
            forall|t: int|
                0 <= t < old(self).tickets() ==> final(self).is_open(t) == old(self).is_open(t),
            old(self).open_pages() == 0 ==> {
                &&& tasks@.len() == 0
                &&& final(self).open_pages() == 0
                &&& final(self).counts() == old(self).counts()
                &&& final(self).gathered() == old(self).gathered()
                &&& final(self).awaiting() == old(self).awaiting()
            },
            old(self).open_pages() > 0 ==> final(self).open_pages() == old(self).open_pages() - 1,
            old(self).open_pages() > 0 && !old(self).takes(extraction@) ==> {
                &&& tasks@.len() == 0
                &&& final(self).counts() == old(self).counts().with_error()
                &&& final(self).gathered() == old(self).gathered()
                &&& final(self).awaiting() == old(self).awaiting()
            },
            old(self).open_pages() > 0 && old(self).takes(extraction@) ==> final(self).counts()
                == old(self).counts().with_success().with_duplicates(
                count_of(extraction@.outcomes, ItemOutcome::Duplicate),
            ).with_pendings(tasks@.len() as nat),
            forall|i: int|
                0 <= i < tasks@.len() ==> {
                    &&& (#[trigger] tasks@[i]).ticket == old(self).tickets() + i
                    &&& tasks@[i].url@ == extraction@.products[i].url
                },
            forall|t: int|
                old(self).tickets() <= t < final(self).tickets() ==> #[trigger] final(self).is_open(t),
            old(self).open_pages() > 0 && old(self).takes(extraction@) && old(
                self,
            ).provider().has_product_pages() ==> {
                &&& tasks@.len() == extraction@.products.len()
                &&& final(self).gathered() == old(self).gathered()
                &&& final(self).awaiting() == old(self).awaiting() + extraction@.products
            },
            old(self).open_pages() > 0 && !old(self).provider().has_product_pages() ==> {
                &&& tasks@.len() == 0
                &&& final(self).gathered() == old(self).gathered() + extraction@.products
                &&& final(self).awaiting() == old(self).awaiting()
            },
    {
        if self.open_pages == 0 {
            return Vec::new();
        }
        if !self.provider.enriches() {
            let duplicates = extraction.duplicates();
            self.settle_page(duplicates);
            self.gather(extraction.products);
            let tasks: Vec<DetailTask> = Vec::new();
            assert(self.counts() == self.counts().with_pendings(0)) by {
                lemma_advanced_step(self.counts().total, 0);
                lemma_advanced_step(self.counts().pending, 0);
            }
            return tasks;
        }
        let total = self.status.queries().total.load();
        if extraction.products.len() > (u32::MAX - total) as usize {
            self.page_failed();
            return Vec::new();
        }
        let duplicates = extraction.duplicates();
        self.settle_page(duplicates);
        self.enqueue(extraction.products)
    }

    /// A page came back, or did not: `None` is a page that could not be
    /// fetched. A fetched page is read; where it has the layout of the
    /// source the run goes on as `page_extracted` says, and else as
    /// `page_failed` says.
    pub fn page_fetched(&mut self, markup: Option<&str>) -> (tasks: Vec<DetailTask>)
        requires
            old(self).wf(),
        ensures
            final(self).wf(),
            final(self).provider() == old(self).provider(),
            final(self).started() == old(self).started(),
            final(self).pages() == old(self).pages(),
            final(self).tickets() == old(self).tickets() + tasks@.len(),
            final(self).open_tickets() == old(self).open_tickets() + tasks@.len(),
            !old(self).provider().has_product_pages() ==> tasks@.len() == 0,
            forall|t: int|
                0 <= t < old(self).tickets() ==> final(self).is_open(t) == old(self).is_open(t),
            forall|i: int|
                0 <= i < tasks@.len() ==> (#[trigger] tasks@[i]).ticket == old(self).tickets() + i,
            forall|t: int|
                old(self).tickets() <= t < final(self).tickets() ==> #[trigger] final(self).is_open(t),
            old(self).open_pages() == 0 ==> {
                &&& tasks@.len() == 0
                &&& final(self).open_pages() == 0
                &&& final(self).counts() == old(self).counts()
                &&& final(self).gathered() == old(self).gathered()
                &&& final(self).awaiting() == old(self).awaiting()
            },
            old(self).open_pages() > 0 ==> final(self).open_pages() == old(self).open_pages() - 1,
            old(self).open_pages() > 0 ==> match page_taken(
                old(self).provider(),
                old(self).counts().total,
                slice_text(markup),
            ) {
                None => {
                    &&& tasks@.len() == 0
                    &&& final(self).counts() == old(self).counts().with_error()
                    &&& final(self).gathered() == old(self).gathered()
                    &&& final(self).awaiting() == old(self).awaiting()
                },
                Some(e) => {
                    &&& final(self).counts() == old(self).counts().with_success().with_duplicates(
                        count_of(e.outcomes, ItemOutcome::Duplicate),
                    ).with_pendings(tasks@.len() as nat)
                    &&& forall|i: int|
                        0 <= i < tasks@.len() ==> (#[trigger] tasks@[i]).url@ == e.products[i].url
                    &&& old(self).provider().has_product_pages() ==> {
                        &&& tasks@.len() == e.products.len()
                        &&& final(self).gathered() == old(self).gathered()
                        &&& final(self).awaiting() == old(self).awaiting() + e.products
                    }
                    &&& !old(self).provider().has_product_pages() ==> {
                        &&& tasks@.len() == 0
                        &&& final(self).gathered() == old(self).gathered() + e.products
                        &&& final(self).awaiting() == old(self).awaiting()
                    }
                },
            },
    {
        let read = match markup {
            Some(m) => match self.provider.parse_products(m) {
                Ok(extraction) => Some(extraction),
                Err(_) => None,
            },
            None => None,
        };
        match read {
            Some(extraction) => self.page_extracted(extraction),
            None => {
                self.page_failed();
                Vec::new()
            },
        }
    }

    /// A product page came back, or did not: `None` is a page that could
    /// not be fetched. A fetched page is read for its specifications, and
    /// the run goes on as `detail_parsed` says: with the code the record is
    /// enriched and the unit succeeded, without it the record is gathered
    /// as it was and the unit failed.
    pub fn detail_fetched(&mut self, ticket: usize, markup: Option<&str>) -> (taken: bool)
        requires
            old(self).wf(),
        ensures
            final(self).wf(),
            taken == old(self).is_open(ticket as int),
            final(self).provider() == old(self).provider(),
            final(self).started() == old(self).started(),
            final(self).pages() == old(self).pages(),
            final(self).open_pages() == old(self).open_pages(),
            final(self).tickets() == old(self).tickets(),
            final(self).awaiting() == old(self).awaiting(),
            forall|t: int| t != ticket ==> final(self).is_open(t) == old(self).is_open(t),
            taken ==> {
                &&& !final(self).is_open(ticket as int)
                &&& final(self).open_tickets() == old(self).open_tickets() - 1
                &&& final(self).gathered() == old(self).gathered().push(
                    enriched(old(self).awaiting()[ticket as int], detail_taken(slice_text(markup))),
                )
                &&& final(self).counts() == if detail_taken(slice_text(markup)) is Some {
                    old(self).counts().with_success()
                } else {
                    old(self).counts().with_error()
                }
            },
            !taken ==> final(self).gathered() == old(self).gathered() && final(self).counts()
                == old(self).counts() && final(self).open_tickets() == old(self).open_tickets(),
    {
        let specs = match markup {
            Some(m) => match crate::providers::bol::parse_product_page(m) {
                Ok(s) => Some(s),
                Err(_) => None,
            },
            None => None,
        };
        self.detail_parsed(ticket, specs)
    }

    /// What the counters show of a consistent run, at every moment: the
    /// total is what is pending, succeeded and failed together; it is the
    /// number of pages plus the number of records sent for enrichment; and
    /// pending is the number of units that have not come back. Once every
    /// unit has come back, nothing is pending, and the total is the number
    /// of pages plus the number of records that were enriched.
    pub proof fn lemma_counters(&self)
        requires
            self.wf(),
        ensures
            self.counts().balanced(),
            self.counts().total == self.pages() + self.tickets(),
            self.counts().pending == self.open_pages() + self.open_tickets(),
            self.open_pages() <= self.pages(),
            self.open_tickets() <= self.tickets(),
            self.tickets() == self.awaiting().len(),
            self.complete() ==> self.counts().pending == 0 && self.counts().total
                == self.counts().success + self.counts().errored,
            self.provider().has_product_pages() ==> self.gathered().len() + self.open_tickets()
                == self.tickets(),
            !self.provider().has_product_pages() ==> self.tickets() == 0,
            self.complete() && self.provider().has_product_pages() ==> self.counts().total
                == self.pages() + self.gathered().len(),
            self.complete() && !self.provider().has_product_pages() ==> self.counts().total
                == self.pages(),
    {
        lemma_set_count_bound(self.open@);
    }

    /// The gathered records, to read.
    pub fn products(&self) -> (r: &Vec<Product>)
        ensures
            records(r@) == self.gathered(),
    {
        &self.records
    }

    /// The gathered records, at the end of the run.
    pub fn into_products(self) -> (r: Products)
        ensures
            r@ == self.gathered(),
    {
        Products(self.records)
    }
}

/// The tally after the product pages of the first records of a page have
/// come back, in order: each record is gathered, with the code where its
/// page gave one and then counted as succeeded, as it was where its page
/// gave none and then counted as failed.
pub open spec fn after_details(
    tally: Tally,
    products: Seq<ProductView>,
    details: Seq<Option<String>>,
) -> Tally
    decreases details.len(),
{
    if details.len() == 0 {
        tally
    } else {
        let before = after_details(tally, products, details.drop_last());
        let specs = detail_taken(owned_text(details.last()));
        Tally {
            gathered: before.gathered.push(enriched(products[details.len() - 1], specs)),
            counts: if specs is Some {
                before.counts.with_success()
            } else {
                before.counts.with_error()
            },
        }
    }
}

/// The tally after one more round: a page from which nothing is taken
/// failed and adds nothing; any other page succeeded and its duplicates are
/// counted. Where the source has no product pages its records are
/// gathered; where it has them, each record counts as one more unit and is
/// gathered as its product page comes back.
pub open spec fn after_round(provider: Provider, before: Tally, round: Round) -> Tally {
    match page_taken(provider, before.counts.total, owned_text(round.page)) {
        None => Tally { gathered: before.gathered, counts: before.counts.with_error() },
        Some(e) => {
            let settled = before.counts.with_success().with_duplicates(
                count_of(e.outcomes, ItemOutcome::Duplicate),
            );
            if provider.has_product_pages() {
                after_details(
                    Tally {
                        gathered: before.gathered,
                        counts: settled.with_pendings(e.products.len()),
                    },
                    e.products,
                    round.details,
                )
            } else {
                Tally { gathered: before.gathered + e.products, counts: settled }
            }
        },
    }
}

/// The tally of a run of `pages` pages after these rounds, in order: all
/// pages were dispatched at the start.
pub open spec fn after_rounds(provider: Provider, pages: nat, rounds: Seq<Round>) -> Tally
    decreases rounds.len(),
{
    if rounds.len() == 0 {
        Tally { gathered: Seq::empty(), counts: Counts::zero().with_pendings(pages) }
    } else {
        after_round(provider, after_rounds(provider, pages, rounds.drop_last()), rounds.last())
    }
}

/// Whether `answer` is what `fetch` answered when it was asked for the
/// address.
pub open spec fn answered<G: Fn(&str) -> Option<String>>(
    fetch: G,
    address: Seq<char>,
    answer: Option<String>,
) -> bool {
    exists|asked: &str| asked@ == address && call_ensures(fetch, (asked,), answer)
}

/// Whether a round holds what `fetch` answered: for the page at `address`,
/// and, where the source has product pages and the page was taken, for the
/// address of each of its records, and for no other product page.
pub open spec fn round_answered<G: Fn(&str) -> Option<String>>(
    fetch: G,
    provider: Provider,
    before: Tally,
    address: Seq<char>,
    round: Round,
) -> bool {
    &&& answered(fetch, address, round.page)
    &&& round.details.len() == round_products(provider, before, round.page).len()
    &&& forall|j: int|
        0 <= j < round.details.len() ==> answered(
            fetch,
            round_products(provider, before, round.page)[j].url,
            #[trigger] round.details[j],
        )
}

/// The records of a round whose product pages are asked for.
pub open spec fn round_products(provider: Provider, before: Tally, page: Option<String>) -> Seq<
    ProductView,
> {
    match page_taken(provider, before.counts.total, owned_text(page)) {
        Some(e) => if provider.has_product_pages() {
            e.products
        } else {
            Seq::empty()
        },
        None => Seq::empty(),
    }
}

/// Runs a listing to its end, one fetch after the other: every page from
/// one to `pages` is asked of `fetch`, which answers with the page's markup
/// or with `None` where the page cannot be had, and where the source has
/// product pages every record's page is asked of it too, before the next
/// page. A page or a product page that fails stops nothing. The run that
/// comes back is complete, and its records and counters are those that the
/// answers of `fetch` give, round by round. The pages must be no more than
/// the total can count.
#[verifier::rlimit(40)]
pub fn run<F: Fn(&QueryStatus), G: Fn(&str) -> Option<String>>(
    url: &str,
    pages: usize,
    provider: Provider,
    fetch: G,
    on_update: F,
) -> (r: Run<F>)
    requires
        pages <= u32::MAX,
        forall|q: &QueryStatus| call_requires(on_update, (q,)),
        forall|u: &str| call_requires(fetch, (u,)),
    ensures
        r.wf(),
        r.complete(),
        r.pages() == pages,
        r.provider() == provider,
        r.counts().total == pages + r.tickets(),
        r.counts().pending == 0,
        !provider.has_product_pages() ==> r.tickets() == 0,
        provider.has_product_pages() ==> r.gathered().len() == r.tickets(),
        pages == 0 ==> r.gathered() == Seq::<ProductView>::empty() && r.counts() == Counts::zero(),
        exists|rounds: Seq<Round>|
            {
                &&& rounds.len() == pages
                &&& forall|i: int|
                    0 <= i < pages ==> round_answered(
                        fetch,
                        provider,
                        after_rounds(provider, pages as nat, rounds.take(i)),
                        paginated(url@, (i + 1) as nat),
                        #[trigger] rounds[i],
                    )
                &&& r.gathered() == after_rounds(provider, pages as nat, rounds).gathered
                &&& r.counts() == after_rounds(provider, pages as nat, rounds).counts
            },
{
    let mut run = Run::new(provider, on_update);
    let tasks = run.start(url, pages);
    proof {
        lemma_advanced_step(0, 0);
    }
    let ghost mut rounds: Seq<Round> = Seq::empty();
    let mut i: usize = 0;
    while i < tasks.len()
        invariant
            i <= tasks@.len(),
            tasks@.len() == pages,
            run.wf(),
            run.started(),
            run.provider() == provider,
            run.pages() == pages,
            run.open_pages() == pages - i,
            run.open_tickets() == 0,
            pages == 0 ==> run.gathered() == Seq::<ProductView>::empty() && run.counts()
                == Counts::zero(),
            forall|j: int|
                0 <= j < tasks@.len() ==> (#[trigger] tasks@[j]).url@ == paginated(
                    url@,
                    (j + 1) as nat,
                ),
            rounds.len() == i,
            forall|j: int|
                0 <= j < i ==> round_answered(
                    fetch,
                    provider,
                    after_rounds(provider, pages as nat, rounds.take(j)),
                    paginated(url@, (j + 1) as nat),
                    #[trigger] rounds[j],
                ),
            run.gathered() == after_rounds(provider, pages as nat, rounds).gathered,
            run.counts() == after_rounds(provider, pages as nat, rounds).counts,
            forall|u: &str| call_requires(fetch, (u,)),
        decreases tasks@.len() - i,
    {
        let address = tasks[i].url.as_str();
        let markup = fetch(address);
        let ghost first = run.tickets();
        let ghost seen = rounds;
        let ghost before = after_rounds(provider, pages as nat, seen);
        let ghost products = round_products(provider, before, markup);
        let ghost waiting = run.awaiting();
        proof {
            run.lemma_counters();
            assert(answered(fetch, paginated(url@, (i + 1) as nat), markup));
            assert forall|x: u32| #[trigger] crate::status::advanced(x, 0) == x by {
                lemma_advanced_step(x, 0);
            }
        }
        let details = match &markup {
            Some(m) => run.page_fetched(Some(m.as_str())),
            None => run.page_fetched(None),
        };
        let ghost landed = Tally { gathered: run.gathered(), counts: run.counts() };
        let ghost mut answers: Seq<Option<String>> = Seq::empty();
        proof {
            run.lemma_counters();
            assert(details@.len() == products.len());
            assert(after_round(provider, before, Round { page: markup, details: answers })
                == after_details(landed, products, answers));
        }
        let mut k: usize = 0;
        while k < details.len()
            invariant
                k <= details@.len(),
                run.wf(),
                run.started(),
                run.provider() == provider,
                run.pages() == pages,
                pages > 0,
                run.open_pages() == pages - i - 1,
                run.open_tickets() == details@.len() - k,
                run.tickets() == first + details@.len(),
                forall|j: int|
                    0 <= j < details@.len() ==> (#[trigger] details@[j]).ticket == first + j,
                forall|t: int|
                    first + k <= t < first + details@.len() ==> #[trigger] run.is_open(t),
                details@.len() == products.len(),
                forall|j: int|
                    0 <= j < details@.len() ==> (#[trigger] details@[j]).url@ == products[j].url,
                run.awaiting() == waiting + products,
                waiting.len() == first,
                answers.len() == k,
                forall|j: int|
                    0 <= j < k ==> answered(fetch, products[j].url, #[trigger] answers[j]),
                run.gathered() == after_details(landed, products, answers).gathered,
                run.counts() == after_details(landed, products, answers).counts,
                forall|u: &str| call_requires(fetch, (u,)),
            decreases details@.len() - k,
        {
            let asked = details[k].url.as_str();
            let page = fetch(asked);
            let ticket = details[k].ticket;
            let ghost earlier = run;
            let ghost given = answers;
            match &page {
                Some(m) => {
                    run.detail_fetched(ticket, Some(m.as_str()));
                },
                None => {
                    run.detail_fetched(ticket, None);
                },
            }
            proof {
                answers = given.push(page);
                assert(answers.drop_last() =~= given);
                assert(earlier.awaiting()[ticket as int] == products[k as int]);
                assert(answered(fetch, products[k as int].url, page));
                assert forall|j: int| 0 <= j < k + 1 implies answered(
                    fetch,
                    products[j].url,
                    #[trigger] answers[j],
                ) by {
                    if j < k {
                        assert(answers[j] == given[j]);
                    }
                }
                assert forall|t: int| first + k < t < first + details@.len() implies #[trigger] run.is_open(
                    t,
                ) by {
                    assert(earlier.is_open(t));
                }
            }
            k += 1;
        }
        proof {
            let round = Round { page: markup, details: answers };
            rounds = seen.push(round);
            assert(rounds.drop_last() =~= seen);
            assert(after_round(provider, before, round) == after_details(
                landed,
                products,
                answers,
            ));
            assert forall|j: int| 0 <= j < i + 1 implies round_answered(
                fetch,
                provider,
                after_rounds(provider, pages as nat, rounds.take(j)),
                paginated(url@, (j + 1) as nat),
                #[trigger] rounds[j],
            ) by {
                assert(rounds.take(j) =~= seen.take(j));
                if j < i {
                    assert(rounds[j] == seen[j]);
                } else {
                    assert(seen.take(j) =~= seen);
                }
            }
        }
        i += 1;
    }
    proof {
        run.lemma_counters();
        assert(rounds.take(pages as int) =~= rounds);
    }
    run
}

} // verus!
