use bol_scraper_empire::providers::item::{
    accept, extract, ItemAnchors, ItemDefect, ItemOutcome, PageError,
};
use bol_scraper_empire::providers::amazon::PriceAnchor;
use bol_scraper_empire::providers::{amazon, bol, Product, Provider};

fn anchors(image: Option<&str>, title: Option<&str>, link: Option<&str>, price: Option<&str>) -> ItemAnchors {
    ItemAnchors {
        image: image.map(String::from),
        title: title.map(String::from),
        link: link.map(String::from),
        price: price.map(String::from),
    }
}

fn fields(p: &Product) -> (String, String, String, String, Option<u64>) {
    (p.title.clone(), p.image.clone(), p.url.clone(), p.price.clone(), p.ean)
}

fn bol_item(image: &str, title: &str, link: &str, price: Option<&str>) -> String {
    let price = match price {
        Some(p) => format!("<meta itemprop=\"price\" content=\"{}\">", p),
        None => String::new(),
    };
    format!(
        "<li><img src=\"{0}\" data-src=\"lazy-{0}\"><a class=\"product-title\" href=\"{2}\">{1}</a>{3}</li>",
        image, title, link, price
    )
}

fn bol_page(items: &[String]) -> String {
    format!(
        "<html><body><ul class=\"list-view product-list js_multiple_basket_buttons_page\">{}</ul></body></html>",
        items.concat()
    )
}

fn amazon_item(image: &str, title: &str, link: &str, whole: &str, fraction: &str) -> String {
    format!(
        "<div data-component-type=\"s-search-result\"><img class=\"s-image\" src=\"{}\">\
         <div class=\"s-title-instructions-style\"><a href=\"{}\"><span>{}</span></a></div>\
         <span class=\"a-price\"><span class=\"a-price-whole\">{}<span class=\"a-price-decimal\">,</span></span>\
         <span class=\"a-price-fraction\">{}</span></span></div>",
        image, link, title, whole, fraction
    )
}

fn amazon_page(items: &[String]) -> String {
    format!(
        "<html><body><div class=\"s-main-slot s-result-list s-search-results\">{}</div></body></html>",
        items.concat()
    )
}

#[test]
fn well_formed_items_become_records() {
    let page = bol_page(&[
        bol_item("a.jpg", "First", "/nl/p/first/1/", Some("19.99")),
        bol_item("b.jpg", "Second", "/nl/p/second/2/", Some("5")),
    ]);
    let e = bol::parse_products(&page).unwrap();
    assert_eq!(e.outcomes, vec![ItemOutcome::Accepted, ItemOutcome::Accepted]);
    assert_eq!(e.products.len(), 2);
    assert_eq!(
        fields(&e.products[0]),
        (
            "First".to_string(),
            "a.jpg".to_string(),
            "https://bol.com/nl/p/first/1/".to_string(),
            "19.99".to_string(),
            None
        )
    );
    assert_eq!(
        fields(&e.products[1]),
        (
            "Second".to_string(),
            "b.jpg".to_string(),
            "https://bol.com/nl/p/second/2/".to_string(),
            "5".to_string(),
            None
        )
    );
    assert_eq!(e.duplicates(), 0);
}

#[test]
fn extracting_twice_gives_the_same_records() {
    let page = bol_page(&[
        bol_item("a.jpg", "First", "/1", Some("19,99")),
        bol_item("b.jpg", "Broken", "/2", None),
        bol_item("c.jpg", "Again", "/1", Some("3")),
        bol_item("d.jpg", "Last", "/4", Some("7.5")),
    ]);
    let first = bol::parse_products(&page).unwrap();
    let second = bol::parse_products(&page).unwrap();
    assert_eq!(first.outcomes, second.outcomes);
    assert_eq!(first.products.len(), second.products.len());
    for i in 0..first.products.len() {
        assert_eq!(fields(&first.products[i]), fields(&second.products[i]));
    }
    let page = amazon_page(&[
        amazon_item("a.jpg", "First", "/dp/1", "12", "99"),
        amazon_item("b.jpg", "Second", "/dp/2", "1", "05"),
    ]);
    let first = amazon::parse_products(&page).unwrap();
    let second = amazon::parse_products(&page).unwrap();
    assert_eq!(first.outcomes, second.outcomes);
    assert_eq!(first.products.len(), 2);
    for i in 0..first.products.len() {
        assert_eq!(fields(&first.products[i]), fields(&second.products[i]));
    }
}

#[test]
fn same_link_twice_is_kept_once() {
    let page = bol_page(&[
        bol_item("a.jpg", "First", "/nl/p/same/1/", Some("19.99")),
        bol_item("b.jpg", "Second", "/nl/p/same/1/", Some("18.99")),
    ]);
    let e = bol::parse_products(&page).unwrap();
    assert_eq!(e.products.len(), 1);
    assert_eq!(e.products[0].title, "First");
    assert_eq!(e.outcomes, vec![ItemOutcome::Accepted, ItemOutcome::Duplicate]);
    assert_eq!(e.duplicates(), 1);

    let page = amazon_page(&[
        amazon_item("a.jpg", "First", "/dp/1", "12", "99"),
        amazon_item("b.jpg", "Second", "/dp/1", "11", "99"),
    ]);
    let e = amazon::parse_products(&page).unwrap();
    assert_eq!(e.products.len(), 1);
    assert_eq!(e.products[0].title, "First");
    assert_eq!(e.duplicates(), 1);
}

#[test]
fn item_without_price_is_left_out() {
    let page = bol_page(&[
        bol_item("a.jpg", "First", "/1", Some("19.99")),
        bol_item("b.jpg", "Second", "/2", None),
        bol_item("c.jpg", "Third", "/3", Some("1.50")),
    ]);
    let e = bol::parse_products(&page).unwrap();
    assert_eq!(e.products.len(), 2);
    assert_eq!(e.products[0].title, "First");
    assert_eq!(e.products[1].title, "Third");
    assert_eq!(
        e.outcomes,
        vec![
            ItemOutcome::Accepted,
            ItemOutcome::Malformed(ItemDefect::Price),
            ItemOutcome::Accepted
        ]
    );
    assert_eq!(e.duplicates(), 0);
}

#[test]
fn page_without_container_is_a_mismatch() {
    assert_eq!(
        bol::parse_products("<html><body><ul class=\"list-view\"></ul></body></html>").err(),
        Some(PageError::StructuralMismatch)
    );
    assert_eq!(amazon::parse_products("").err(), Some(PageError::StructuralMismatch));
    assert_eq!(
        Provider::Bol.parse_products(&amazon_page(&[])).err(),
        Some(PageError::StructuralMismatch)
    );
    assert_eq!(
        Provider::Amazon.parse_products(&bol_page(&[])).err(),
        Some(PageError::StructuralMismatch)
    );
}

#[test]
fn empty_container_gives_no_records() {
    let e = bol::parse_products(&bol_page(&[])).unwrap();
    assert_eq!(e.products.len(), 0);
    assert_eq!(e.outcomes.len(), 0);
    let e = Provider::Amazon.parse_products(&amazon_page(&[])).unwrap();
    assert_eq!(e.products.len(), 0);
}

#[test]
fn bol_reads_the_reduced_from_price() {
    let item = "<li><img src=\"a.jpg\" data-src=\"b.jpg\"><a class=\"product-title\" href=\"/1\">T</a>\
                <del data-test=\"from-price\">24,95</del><meta itemprop=\"price\" content=\"19.99\"></li>"
        .to_string();
    let e = bol::parse_products(&bol_page(&[item])).unwrap();
    assert_eq!(e.products.len(), 1);
    assert_eq!(e.products[0].price, "24.95");
}

#[test]
fn bol_image_needs_the_lazy_source() {
    let plain_only =
        "<li><img src=\"a.jpg\"><a class=\"product-title\" href=\"/1\">T</a><meta itemprop=\"price\" content=\"1\"></li>"
            .to_string();
    let lazy_only =
        "<li><img data-src=\"b.jpg\"><a class=\"product-title\" href=\"/2\">T</a><meta itemprop=\"price\" content=\"1\"></li>"
            .to_string();
    let none =
        "<li><a class=\"product-title\" href=\"/3\">T</a><meta itemprop=\"price\" content=\"1\"></li>"
            .to_string();
    let e = bol::parse_products(&bol_page(&[plain_only, lazy_only, none])).unwrap();
    assert_eq!(
        e.outcomes,
        vec![
            ItemOutcome::Malformed(ItemDefect::Image),
            ItemOutcome::Accepted,
            ItemOutcome::Malformed(ItemDefect::Image)
        ]
    );
    assert_eq!(e.products[0].image, "b.jpg");
    assert_eq!(bol::image_reference(Some("a".into()), Some("b".into())), Some("a".to_string()));
    assert_eq!(bol::image_reference(None, Some("b".into())), Some("b".to_string()));
    assert_eq!(bol::image_reference(Some("a".into()), None), None);
    assert_eq!(bol::image_reference(None, None), None);
}

#[test]
fn bol_item_defects_are_told_apart() {
    let no_title = "<li><img src=\"a\" data-src=\"b\"><meta itemprop=\"price\" content=\"1\"></li>".to_string();
    let no_link =
        "<li><img src=\"a\" data-src=\"b\"><a class=\"product-title\">T</a><meta itemprop=\"price\" content=\"1\"></li>"
            .to_string();
    let no_content =
        "<li><img src=\"a\" data-src=\"b\"><a class=\"product-title\" href=\"/1\">T</a><meta itemprop=\"price\"></li>"
            .to_string();
    let bad_price =
        "<li><img src=\"a\" data-src=\"b\"><a class=\"product-title\" href=\"/2\">T</a><meta itemprop=\"price\" content=\"1.299,00\"></li>"
            .to_string();
    let e = bol::parse_products(&bol_page(&[no_title, no_link, no_content, bad_price])).unwrap();
    assert_eq!(
        e.outcomes,
        vec![
            ItemOutcome::Malformed(ItemDefect::Title),
            ItemOutcome::Malformed(ItemDefect::Link),
            ItemOutcome::Malformed(ItemDefect::Price),
            ItemOutcome::Malformed(ItemDefect::PriceText)
        ]
    );
    assert_eq!(e.products.len(), 0);
}

#[test]
fn amazon_reads_price_in_two_parts() {
    let e = amazon::parse_products(&amazon_page(&[amazon_item(
        "https://img/a.jpg",
        "A title",
        "/dp/B0001",
        "1234",
        "05",
    )]))
    .unwrap();
    assert_eq!(e.outcomes, vec![ItemOutcome::Accepted]);
    assert_eq!(
        fields(&e.products[0]),
        (
            "A title".to_string(),
            "https://img/a.jpg".to_string(),
            "https://amazon.nl/dp/B0001".to_string(),
            "1234.05".to_string(),
            None
        )
    );
}

#[test]
fn amazon_reads_the_reduced_from_price() {
    let item = "<div data-component-type=\"s-search-result\"><img class=\"s-image\" src=\"a.jpg\">\
                <div class=\"s-title-instructions-style\"><a href=\"/dp/1\"><span>T</span></a></div>\
                <span class=\"a-price\"><span class=\"a-price-whole\">12</span><span class=\"a-price-fraction\">99</span></span>\
                <span class=\"a-price a-text-price\"><span class=\"a-offscreen\">\u{20ac}15,00</span><span>\u{20ac}15,49</span></span></div>"
        .to_string();
    let e = amazon::parse_products(&amazon_page(&[item])).unwrap();
    assert_eq!(e.outcomes, vec![ItemOutcome::Accepted]);
    assert_eq!(e.products[0].price, "15.49");
}

#[test]
fn amazon_reduced_price_must_be_in_euros_and_in_second_place() {
    let dollars = "<div data-component-type=\"s-search-result\"><img class=\"s-image\" src=\"a.jpg\">\
                   <div class=\"s-title-instructions-style\"><a href=\"/dp/1\"><span>T</span></a></div>\
                   <span class=\"a-price a-text-price\"><span>$15,00</span><span>$15,00</span></span></div>"
        .to_string();
    let alone = "<div data-component-type=\"s-search-result\"><img class=\"s-image\" src=\"a.jpg\">\
                 <div class=\"s-title-instructions-style\"><a href=\"/dp/2\"><span>T</span></a></div>\
                 <span class=\"a-price a-text-price\"><span>\u{20ac}15,00</span></span></div>"
        .to_string();
    let e = amazon::parse_products(&amazon_page(&[dollars, alone])).unwrap();
    assert_eq!(
        e.outcomes,
        vec![ItemOutcome::Malformed(ItemDefect::Price), ItemOutcome::Malformed(ItemDefect::Price)]
    );
}

#[test]
fn amazon_leaves_advertisements_out() {
    let page = amazon_page(&[
        amazon_item("a.jpg", "Gesponsord: koop dit", "/dp/1", "1", "00"),
        amazon_item("b.jpg", "Gewoon", "/dp/2", "2", "00"),
        amazon_item("c.jpg", "gesponsord in kleine letters", "/dp/3", "3", "00"),
    ]);
    let e = amazon::parse_products(&page).unwrap();
    assert_eq!(
        e.outcomes,
        vec![ItemOutcome::Sponsored, ItemOutcome::Accepted, ItemOutcome::Accepted]
    );
    assert_eq!(e.products.len(), 2);
    assert_eq!(e.products[0].title, "Gewoon");
    assert_eq!(e.duplicates(), 0);
}

#[test]
fn amazon_takes_search_results_only() {
    let page = amazon_page(&[
        "<div data-component-type=\"s-messaging-widget\"><img class=\"s-image\" src=\"x\"></div>".to_string(),
        amazon_item("a.jpg", "One", "/dp/1", "1", "00"),
        "<div><span>no component type</span></div>".to_string(),
    ]);
    let e = amazon::parse_products(&page).unwrap();
    assert_eq!(e.outcomes, vec![ItemOutcome::Accepted]);
    assert_eq!(e.products.len(), 1);
    assert!(amazon::search_result(&Some("s-search-result".to_string())));
    assert!(!amazon::search_result(&Some("s-search-results".to_string())));
    assert!(!amazon::search_result(&None));
}

#[test]
fn amazon_price_text_rules() {
    assert_eq!(
        amazon::price_text(&PriceAnchor::Reduced { amount: Some("\u{20ac}15,00".into()) }),
        Some("15,00".to_string())
    );
    assert_eq!(amazon::price_text(&PriceAnchor::Reduced { amount: Some("15,00".into()) }), None);
    assert_eq!(amazon::price_text(&PriceAnchor::Reduced { amount: None }), None);
    assert_eq!(
        amazon::price_text(&PriceAnchor::Listed { whole: Some("12".into()), fraction: Some("99".into()) }),
        Some("12,99".to_string())
    );
    assert_eq!(
        amazon::price_text(&PriceAnchor::Listed { whole: None, fraction: Some("99".into()) }),
        None
    );
    assert_eq!(
        amazon::price_text(&PriceAnchor::Listed { whole: Some("12".into()), fraction: None }),
        None
    );
}

#[test]
fn rules_apply_in_order() {
    let mut buffer: Vec<Product> = Vec::new();
    assert_eq!(
        accept(&anchors(Some("i"), Some("t"), Some("/1"), Some("1,5")), Provider::Bol, &mut buffer),
        ItemOutcome::Accepted
    );
    assert_eq!(buffer.len(), 1);
    assert_eq!(buffer[0].price, "1.5");
    assert_eq!(buffer[0].url, "https://bol.com/1");
    // A missing image is seen before a repeated link.
    assert_eq!(
        accept(&anchors(None, Some("t"), Some("/1"), Some("1")), Provider::Bol, &mut buffer),
        ItemOutcome::Malformed(ItemDefect::Image)
    );
    // A repeated link is seen before a missing price.
    assert_eq!(
        accept(&anchors(Some("i"), Some("t"), Some("/1"), None), Provider::Bol, &mut buffer),
        ItemOutcome::Duplicate
    );
    // An advertisement is seen before a missing link, at the source that has them.
    assert_eq!(
        accept(&anchors(Some("i"), Some("Gesponsord"), None, None), Provider::Amazon, &mut buffer),
        ItemOutcome::Sponsored
    );
    assert_eq!(
        accept(&anchors(Some("i"), Some("Gesponsord"), None, None), Provider::Bol, &mut buffer),
        ItemOutcome::Malformed(ItemDefect::Link)
    );
    // The same link at another source is another address.
    assert_eq!(
        accept(&anchors(Some("i"), Some("t"), Some("/1"), Some("2")), Provider::Amazon, &mut buffer),
        ItemOutcome::Accepted
    );
    assert_eq!(buffer.len(), 2);
    assert_eq!(buffer[1].url, "https://amazon.nl/1");
}

#[test]
fn extraction_counts_every_candidate() {
    let items = vec![
        anchors(Some("i"), Some("a"), Some("/1"), Some("1")),
        anchors(Some("i"), Some("b"), Some("/1"), Some("2")),
        anchors(Some("i"), Some("c"), Some("/2"), Some("x")),
        anchors(Some("i"), Some("d"), Some("/1"), Some("3")),
        anchors(Some("i"), Some("e"), Some("/3"), Some("inf")),
    ];
    let e = extract(&items, Provider::Bol);
    assert_eq!(
        e.outcomes,
        vec![
            ItemOutcome::Accepted,
            ItemOutcome::Duplicate,
            ItemOutcome::Malformed(ItemDefect::PriceText),
            ItemOutcome::Duplicate,
            ItemOutcome::Accepted
        ]
    );
    assert_eq!(e.duplicates(), 2);
    assert_eq!(e.products.len(), 2);
    assert_eq!(e.products[0].title, "a");
    assert_eq!(e.products[1].title, "e");
}
