use bol_scraper_empire::providers::{Product, Products};
use bol_scraper_empire::sheet::{as_cells, Cell, CellValue};

fn product(title: &str, price: &str, ean: Option<u64>) -> Product {
    Product {
        title: title.to_string(),
        image: format!("{}.jpg", title),
        url: format!("https://bol.com/{}", title),
        price: price.to_string(),
        ean,
    }
}

fn shown(cell: &Cell) -> (u32, u16, String) {
    let value = match &cell.value {
        CellValue::Text(t) => format!("text {}", t),
        CellValue::Number(t) => format!("number {}", t),
        CellValue::Integer(n) => format!("integer {}", n),
    };
    (cell.row, cell.col, value)
}

#[test]
fn empty_sheet_has_the_head_row() {
    let cells = as_cells(&Vec::new()).unwrap();
    let shown: Vec<(u32, u16, String)> = cells.iter().map(shown).collect();
    assert_eq!(
        shown,
        vec![
            (0, 0, "text title".to_string()),
            (0, 1, "text image".to_string()),
            (0, 2, "text url".to_string()),
            (0, 3, "text price".to_string()),
            (0, 4, "text ean".to_string()),
        ]
    );
}

#[test]
fn every_record_has_its_row() {
    let products = Products::from(vec![product("a", "1.5", Some(42)), product("b", "2", None)]);
    assert_eq!(products.len(), 2);
    let cells = products.as_cells().unwrap();
    let shown: Vec<(u32, u16, String)> = cells.iter().skip(5).map(shown).collect();
    assert_eq!(
        shown,
        vec![
            (1, 0, "text a".to_string()),
            (1, 1, "text a.jpg".to_string()),
            (1, 2, "text https://bol.com/a".to_string()),
            (1, 3, "number 1.5".to_string()),
            (1, 4, "integer 42".to_string()),
            (2, 0, "text b".to_string()),
            (2, 1, "text b.jpg".to_string()),
            (2, 2, "text https://bol.com/b".to_string()),
            (2, 3, "number 2".to_string()),
        ]
    );
}
