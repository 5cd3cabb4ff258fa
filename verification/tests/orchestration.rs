use bol_scraper_empire::orchestrator::{run, with_specifications, Run};
use bol_scraper_empire::providers::bol::Specifications;
use bol_scraper_empire::providers::item::{Extraction, ItemOutcome};
use bol_scraper_empire::providers::{Product, Provider};
use bol_scraper_empire::status::QueryStatus;

fn values(q: &QueryStatus) -> (u32, u32, u32, u32, u32) {
    (q.total.load(), q.pending.load(), q.success.load(), q.errored.load(), q.duplicates.load())
}

fn amazon_page(page: usize, items: usize) -> String {
    let mut body = String::new();
    for i in 0..items {
        body.push_str(&format!(
            "<div data-component-type=\"s-search-result\"><img class=\"s-image\" src=\"img-{0}-{1}.jpg\">\
             <div class=\"s-title-instructions-style\"><a href=\"/dp/{0}-{1}\"><span>Item {0}.{1}</span></a></div>\
             <span class=\"a-price-whole\">{1}</span><span class=\"a-price-fraction\">50</span></div>",
            page, i
        ));
    }
    format!("<div class=\"s-main-slot s-result-list s-search-results\">{}</div>", body)
}

fn bol_page(page: usize, items: usize) -> String {
    let mut body = String::new();
    for i in 0..items {
        body.push_str(&format!(
            "<li><img src=\"a.jpg\" data-src=\"b.jpg\"><a class=\"product-title\" href=\"/p/{0}-{1}\">Item {0}.{1}</a>\
             <meta itemprop=\"price\" content=\"{1}.25\"></li>",
            page, i
        ));
    }
    format!("<ul class=\"list-view product-list js_multiple_basket_buttons_page\">{}</ul>", body)
}

fn detail_page(ean: u64) -> String {
    format!(
        "<section data-group-name=\"ProductSpecification\"><div class=\"js_show-more-specifications\">\
         <div class=\"js_show-more-content\"><div class=\"specs\"><dl class=\"specs__list\">\
         <div><dt class=\"specs__title\">EAN</dt><dd class=\"specs__value\">{}</dd></div></dl></div></div></div></section>",
        ean
    )
}

fn product(url: &str) -> Product {
    Product {
        title: "t".to_string(),
        image: "i".to_string(),
        url: url.to_string(),
        price: "1.0".to_string(),
        ean: None,
    }
}

#[test]
fn two_pages_of_five_items_give_ten_records() {
    let fetch = |url: &str| -> Option<String> {
        if url.ends_with("page=1") {
            Some(amazon_page(1, 5))
        } else if url.ends_with("page=2") {
            Some(amazon_page(2, 5))
        } else {
            None
        }
    };
    let done = run("https://www.amazon.nl/s?k=x", 2, Provider::Amazon, fetch, |_q: &QueryStatus| {});
    assert!(done.is_complete());
    assert_eq!(values(done.queries()), (2, 0, 2, 0, 0));
    let records = done.into_products().0;
    assert_eq!(records.len(), 10);
    let mut urls: Vec<String> = records.iter().map(|p| p.url.clone()).collect();
    urls.sort();
    urls.dedup();
    assert_eq!(urls.len(), 10);
    assert!(urls.contains(&"https://amazon.nl/dp/1-0".to_string()));
    assert!(urls.contains(&"https://amazon.nl/dp/2-4".to_string()));
}

#[test]
fn total_is_pages_plus_enriched_records() {
    for pages in 1..5usize {
        let asked = std::cell::RefCell::new(Vec::new());
        let fetch = |url: &str| -> Option<String> {
            asked.borrow_mut().push(url.to_string());
            if url.contains("/p/") {
                Some(detail_page(1000))
            } else {
                Some(bol_page(asked.borrow().len(), 3))
            }
        };
        let done = run("https://www.bol.com/nl/s/?q=x", pages, Provider::Bol, fetch, |q: &QueryStatus| {
            assert_eq!(q.total.load(), q.pending.load() + q.success.load() + q.errored.load());
        });
        assert!(done.is_complete());
        let (total, pending, success, errored, duplicates) = values(done.queries());
        assert_eq!(total as usize, pages + done.products().len());
        assert_eq!(total as usize, pages + 3 * pages);
        assert_eq!(pending, 0);
        assert_eq!(success, total);
        assert_eq!(errored, 0);
        assert_eq!(duplicates, 0);
        let listings = asked.borrow().iter().filter(|u| !u.contains("/p/")).count();
        assert_eq!(listings, pages);
        assert!(done.products().iter().all(|p| p.ean == Some(1000)));
    }
}

#[test]
fn failed_pages_do_not_stop_the_others() {
    let fetch = |url: &str| -> Option<String> {
        if url.ends_with("page=2") {
            None
        } else if url.ends_with("page=3") {
            Some("<html><body>another layout</body></html>".to_string())
        } else {
            Some(amazon_page(1, 2))
        }
    };
    let done = run("https://www.amazon.nl/s?k=x&page=1", 3, Provider::Amazon, fetch, |_q: &QueryStatus| {});
    assert!(done.is_complete());
    assert_eq!(values(done.queries()), (3, 0, 1, 2, 0));
    assert_eq!(done.products().len(), 2);
}

#[test]
fn failed_enrichment_keeps_the_record() {
    let fetch = |url: &str| -> Option<String> {
        if url.ends_with("/p/1-0") {
            Some(detail_page(11))
        } else if url.ends_with("/p/1-1") {
            None
        } else if url.ends_with("/p/1-2") {
            Some("<html>no block</html>".to_string())
        } else {
            Some(bol_page(1, 3))
        }
    };
    let done = run("https://www.bol.com/nl/s/", 1, Provider::Bol, fetch, |_q: &QueryStatus| {});
    assert!(done.is_complete());
    assert_eq!(values(done.queries()), (4, 0, 2, 2, 0));
    let records = done.into_products().0;
    assert_eq!(records.len(), 3);
    assert_eq!(records[0].url, "https://bol.com/p/1-0");
    assert_eq!(records[0].ean, Some(11));
    assert_eq!(records[1].url, "https://bol.com/p/1-1");
    assert_eq!(records[1].ean, None);
    assert_eq!(records[1].title, "Item 1.1");
    assert_eq!(records[1].price, "1.25");
    assert_eq!(records[2].url, "https://bol.com/p/1-2");
    assert_eq!(records[2].ean, None);
}

#[test]
fn pages_are_not_compared_with_each_other() {
    let fetch = |_url: &str| -> Option<String> { Some(amazon_page(1, 2)) };
    let done = run("https://www.amazon.nl/s", 2, Provider::Amazon, fetch, |_q: &QueryStatus| {});
    assert_eq!(values(done.queries()), (2, 0, 2, 0, 0));
    assert_eq!(done.products().len(), 4);
}

#[test]
fn no_pages_is_a_complete_run() {
    let fetch = |_url: &str| -> Option<String> { None };
    let done = run("https://www.amazon.nl/s", 0, Provider::Amazon, fetch, |_q: &QueryStatus| {});
    assert!(done.is_complete());
    assert_eq!(values(done.queries()), (0, 0, 0, 0, 0));
    assert_eq!(done.products().len(), 0);
}

#[test]
fn events_out_of_turn_change_nothing() {
    let mut state = Run::new(Provider::Bol, |_q: &QueryStatus| {});
    assert!(!state.is_complete());
    assert!(!state.page_failed());
    assert_eq!(state.page_fetched(None).len(), 0);
    assert!(!state.detail_parsed(0, Some(Specifications { ean: 1 })));
    assert_eq!(values(state.queries()), (0, 0, 0, 0, 0));

    let tasks = state.start("https://www.bol.com/s", 1);
    assert_eq!(tasks.len(), 1);
    assert_eq!(tasks[0].url, "https://www.bol.com/s?page=1");
    assert_eq!(state.start("https://www.bol.com/s", 5).len(), 0);
    assert_eq!(values(state.queries()), (1, 1, 0, 0, 0));

    let details = state.page_extracted(Extraction {
        products: vec![product("https://bol.com/a"), product("https://bol.com/b")],
        outcomes: vec![ItemOutcome::Accepted, ItemOutcome::Duplicate, ItemOutcome::Accepted],
    });
    assert_eq!(details.len(), 2);
    assert_eq!((details[0].ticket, details[0].url.as_str()), (0, "https://bol.com/a"));
    assert_eq!((details[1].ticket, details[1].url.as_str()), (1, "https://bol.com/b"));
    assert_eq!(values(state.queries()), (3, 2, 1, 0, 1));
    assert!(!state.is_complete());

    // A second page result has no page to belong to.
    assert!(!state.page_failed());
    assert_eq!(state.page_extracted(Extraction { products: vec![product("x")], outcomes: vec![] }).len(), 0);
    assert_eq!(values(state.queries()), (3, 2, 1, 0, 1));

    assert!(state.detail_parsed(1, None));
    assert!(!state.detail_parsed(1, None));
    assert!(!state.detail_parsed(2, None));
    assert_eq!(values(state.queries()), (3, 1, 1, 1, 1));
    assert!(state.detail_fetched(0, Some(&detail_page(77))));
    assert_eq!(values(state.queries()), (3, 0, 2, 1, 1));
    assert!(state.is_complete());
    let records = state.into_products().0;
    assert_eq!(records.len(), 2);
    assert_eq!((records[0].url.as_str(), records[0].ean), ("https://bol.com/b", None));
    assert_eq!((records[1].url.as_str(), records[1].ean), ("https://bol.com/a", Some(77)));
}

#[test]
fn specifications_are_added_to_a_copy() {
    let enriched = with_specifications(product("u"), Some(Specifications { ean: 5 }));
    assert_eq!(enriched.ean, Some(5));
    assert_eq!((enriched.title.as_str(), enriched.url.as_str()), ("t", "u"));
    let same = with_specifications(product("u"), None);
    assert_eq!(same.ean, None);
    assert_eq!((same.title.as_str(), same.image.as_str(), same.price.as_str()), ("t", "i", "1.0"));
}

#[test]
fn more_pages_than_the_total_counts_are_not_dispatched() {
    let mut state = Run::new(Provider::Amazon, |_q: &QueryStatus| {});
    assert_eq!(state.start("https://www.amazon.nl/s", u32::MAX as usize + 1).len(), 0);
    assert!(!state.is_complete());
    assert_eq!(values(state.queries()), (0, 0, 0, 0, 0));
    assert_eq!(state.start("https://www.amazon.nl/s", 2).len(), 2);
    assert_eq!(values(state.queries()), (2, 2, 0, 0, 0));
}

#[test]
fn fetched_page_counts_by_what_it_holds() {
    let mut state = Run::new(Provider::Amazon, |_q: &QueryStatus| {});
    state.start("https://www.amazon.nl/s", 3);
    assert_eq!(state.page_fetched(Some(&amazon_page(1, 2))).len(), 0);
    assert_eq!(values(state.queries()), (3, 2, 1, 0, 0));
    assert_eq!(state.products().len(), 2);
    assert_eq!(state.page_fetched(Some("<html>other</html>")).len(), 0);
    assert_eq!(values(state.queries()), (3, 1, 1, 1, 0));
    assert_eq!(state.page_fetched(None).len(), 0);
    assert_eq!(values(state.queries()), (3, 0, 1, 2, 0));
    assert_eq!(state.products().len(), 2);
    assert!(state.is_complete());

    let mut state = Run::new(Provider::Bol, |_q: &QueryStatus| {});
    state.start("https://www.bol.com/s", 1);
    let details = state.page_fetched(Some(&bol_page(1, 2)));
    assert_eq!(details.len(), 2);
    assert_eq!(details[0].url, "https://bol.com/p/1-0");
    assert_eq!(details[1].url, "https://bol.com/p/1-1");
    assert_eq!(values(state.queries()), (3, 2, 1, 0, 0));
    assert!(state.detail_fetched(0, Some("<html>no block</html>")));
    assert_eq!(values(state.queries()), (3, 1, 1, 1, 0));
    assert!(state.detail_fetched(1, Some(&detail_page(9))));
    assert_eq!(values(state.queries()), (3, 0, 2, 1, 0));
    let records = state.into_products().0;
    assert_eq!((records[0].url.as_str(), records[0].ean), ("https://bol.com/p/1-0", None));
    assert_eq!((records[1].url.as_str(), records[1].ean), ("https://bol.com/p/1-1", Some(9)));
}
