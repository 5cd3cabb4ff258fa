use bol_scraper_empire::providers::bol::{
    find_specifications, parse_product_page, DetailError, SpecRow, SpecSection, Specifications,
};

fn page(sections: &str) -> String {
    format!(
        "<html><body><section data-group-name=\"ProductSpecification\"><div class=\"js_show-more-specifications\">\
         <div class=\"js_show-more-content\">{}</div></div></section></body></html>",
        sections
    )
}

fn row(title: &str, value: &str) -> String {
    format!(
        "<div class=\"specs__row\"><dt class=\"specs__title\">{}</dt><dd class=\"specs__value\">{}</dd></div>",
        title, value
    )
}

fn section(rows: &str) -> String {
    format!("<div class=\"specs\"><h3>Kop</h3><dl class=\"specs__list\">{}</dl></div>", rows)
}

#[test]
fn code_is_read_from_its_row() {
    let markup = page(&section(&[row("Merk", "Iets"), row("\n  EAN  ", "\n 9789059564169\n")].concat()));
    assert_eq!(parse_product_page(&markup), Ok(Specifications { ean: 9789059564169 }));
}

#[test]
fn code_is_found_in_a_later_section() {
    let markup = page(&[section(&row("Merk", "Iets")), section(&row("EAN", "42"))].concat());
    assert_eq!(parse_product_page(&markup), Ok(Specifications { ean: 42 }));
}

#[test]
fn page_without_block_gives_nothing() {
    assert_eq!(parse_product_page("<html></html>"), Err(DetailError::NoSpecifications));
    assert_eq!(parse_product_page(""), Err(DetailError::NoSpecifications));
}

#[test]
fn page_without_code_gives_nothing() {
    assert_eq!(parse_product_page(&page("")), Err(DetailError::NoCode));
    assert_eq!(parse_product_page(&page(&section(&row("Merk", "Iets")))), Err(DetailError::NoCode));
    // The title is compared as it is written.
    assert_eq!(parse_product_page(&page(&section(&row("ean", "42")))), Err(DetailError::NoCode));
}

#[test]
fn sections_of_another_class_are_passed_over() {
    let other = "<div class=\"specs extra\"><dl class=\"specs__list\"><div><dt class=\"specs__title\">EAN</dt>\
                 <dd class=\"specs__value\">1</dd></div></dl></div>";
    let markup = page(&[other.to_string(), section(&row("EAN", "2"))].concat());
    assert_eq!(parse_product_page(&markup), Ok(Specifications { ean: 2 }));
    let unclassed = "<div><p>tekst</p></div>";
    assert_eq!(parse_product_page(&page(unclassed)), Err(DetailError::NoCode));
}

#[test]
fn malformed_block_before_the_code_fails() {
    assert_eq!(
        parse_product_page(&page("<div class=\"specs\"><p>geen lijst</p></div>")),
        Err(DetailError::NoList)
    );
    let no_title = "<div><dd class=\"specs__value\">1</dd></div>";
    assert_eq!(
        parse_product_page(&page(&section(&[no_title.to_string(), row("EAN", "2")].concat()))),
        Err(DetailError::NoTitle)
    );
    let no_value = "<div><dt class=\"specs__title\">Merk</dt></div>";
    assert_eq!(
        parse_product_page(&page(&section(&[no_value.to_string(), row("EAN", "2")].concat()))),
        Err(DetailError::NoValue)
    );
}

#[test]
fn what_follows_the_code_is_not_read() {
    let no_title = "<div><dd class=\"specs__value\">1</dd></div>";
    let markup = page(
        &[
            section(&[row("EAN", "7"), no_title.to_string()].concat()),
            "<div class=\"specs\"><p>geen lijst</p></div>".to_string(),
        ]
        .concat(),
    );
    assert_eq!(parse_product_page(&markup), Ok(Specifications { ean: 7 }));
}

#[test]
fn code_must_be_a_number_that_fits() {
    assert_eq!(parse_product_page(&page(&section(&row("EAN", "12a")))), Err(DetailError::InvalidCode));
    assert_eq!(parse_product_page(&page(&section(&row("EAN", "")))), Err(DetailError::InvalidCode));
    assert_eq!(parse_product_page(&page(&section(&row("EAN", "-1")))), Err(DetailError::InvalidCode));
    assert_eq!(parse_product_page(&page(&section(&row("EAN", "1 2")))), Err(DetailError::InvalidCode));
    assert_eq!(
        parse_product_page(&page(&section(&row("EAN", "18446744073709551616")))),
        Err(DetailError::InvalidCode)
    );
    assert_eq!(
        parse_product_page(&page(&section(&row("EAN", "18446744073709551615")))),
        Ok(Specifications { ean: u64::MAX })
    );
    assert_eq!(parse_product_page(&page(&section(&row("EAN", "+0017")))), Ok(Specifications { ean: 17 }));
}

#[test]
fn first_code_row_decides() {
    let sections = vec![
        SpecSection { class: Some("other".into()), rows: None },
        SpecSection {
            class: Some("specs".into()),
            rows: Some(vec![
                SpecRow { title: Some("Merk".into()), value: Some("x".into()) },
                SpecRow { title: Some(" EAN\t".into()), value: Some("\u{a0}5 ".into()) },
                SpecRow { title: Some("EAN".into()), value: Some("6".into()) },
            ]),
        },
    ];
    assert_eq!(find_specifications(&sections), Ok(Specifications { ean: 5 }));
    assert_eq!(find_specifications(&Vec::new()), Err(DetailError::NoCode));
    let sections = vec![SpecSection { class: Some("specs".into()), rows: None }];
    assert_eq!(find_specifications(&sections), Err(DetailError::NoList));
    let sections = vec![SpecSection { class: None, rows: None }];
    assert_eq!(find_specifications(&sections), Err(DetailError::NoCode));
}
