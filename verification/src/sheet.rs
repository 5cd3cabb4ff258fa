//! The records of a run laid out as the cells of a sheet.

use vstd::prelude::*;
use vstd::string::StringExecFns;
use crate::providers::{records, Product, ProductView};

verus! {

/// What a cell holds: a text, a number written as a floating-point
/// literal, or a whole number.
#[derive(Debug)]
pub enum CellValue {
    Text(String),
    Number(String),
    Integer(u64),
}

/// One cell of a sheet, by row and column from zero on.
#[derive(Debug)]
pub struct Cell {
    pub row: u32,
    pub col: u16,
    pub value: CellValue,
}

/// What a cell value says.
pub enum CellValueView {
    Text(Seq<char>),
    Number(Seq<char>),
    Integer(u64),
}

/// What a cell says.
pub struct CellView {
    pub row: int,
    pub col: int,
    pub value: CellValueView,
}

impl View for Cell {
    type V = CellView;

    open spec fn view(&self) -> CellView {
        CellView {
            row: self.row as int,
            col: self.col as int,
            value: match self.value {
                CellValue::Text(t) => CellValueView::Text(t@),
                CellValue::Number(t) => CellValueView::Number(t@),
                CellValue::Integer(n) => CellValueView::Integer(n),
            },
        }
    }
}

/// What the cells say, in order.
pub open spec fn cell_views(v: Seq<Cell>) -> Seq<CellView> {
    Seq::new(v.len(), |i: int| v[i]@)
}

/// The names of the columns, in their order.
pub open spec fn column_names() -> Seq<Seq<char>> {
    seq!["title"@, "image"@, "url"@, "price"@, "ean"@]
}

/// The head row: the name of each column in its column.
pub open spec fn head_cells() -> Seq<CellView> {
    Seq::new(
        5,
        |c: int| CellView { row: 0, col: c, value: CellValueView::Text(column_names()[c]) },
    )
}

/// The cells of one record in the row `row`: title, image, address and
/// price, and the product code where the record has one.
pub open spec fn record_cells(p: ProductView, row: int) -> Seq<CellView> {
    let always = seq![
        CellView { row, col: 0, value: CellValueView::Text(p.title) },
        CellView { row, col: 1, value: CellValueView::Text(p.image) },
        CellView { row, col: 2, value: CellValueView::Text(p.url) },
        CellView { row, col: 3, value: CellValueView::Number(p.price) },
    ];
    match p.ean {
        Some(ean) => always.push(CellView { row, col: 4, value: CellValueView::Integer(ean) }),
        None => always,
    }
}

/// The cells of the head row and of the first `n` records, each record in
/// the row after the one before it.
pub open spec fn sheet_cells(products: Seq<ProductView>, n: int) -> Seq<CellView>
    decreases n,
{
    if n <= 0 {
        head_cells()
    } else {
        sheet_cells(products, n - 1) + record_cells(products[n - 1], n)
    }
}

/// The records are more than a sheet has rows to number.
#[derive(Clone, Copy, Debug, PartialEq, Eq, Structural)]
pub struct TooManyRows;

fn text_cell(row: u32, col: u16, text: &str) -> (c: Cell)
    ensures
        c@ == (CellView { row: row as int, col: col as int, value: CellValueView::Text(text@) }),
{
    Cell { row, col, value: CellValue::Text(String::from_str(text)) }
}

/// The cells of a sheet of the records: the head row, then one row for each
/// record, in order. `Err` exactly where the rows cannot be numbered in 32
/// bits.
pub fn as_cells(products: &Vec<Product>) -> (r: Result<Vec<Cell>, TooManyRows>)
    ensures
        match r {
            Ok(cells) => products@.len() < u32::MAX && cell_views(cells@) == sheet_cells(
                records(products@),
                products@.len() as int,
            ),
            Err(_) => products@.len() >= u32::MAX,
        },
{
    if products.len() >= u32::MAX as usize {
        return Err(TooManyRows);
    }
    let mut cells: Vec<Cell> = Vec::new();
    cells.push(text_cell(0, 0, "title"));
    cells.push(text_cell(0, 1, "image"));
    cells.push(text_cell(0, 2, "url"));
    cells.push(text_cell(0, 3, "price"));
    cells.push(text_cell(0, 4, "ean"));
    assert(cell_views(cells@) =~= head_cells());
    let mut i: usize = 0;
    while i < products.len()
        invariant
            i <= products@.len(),
            products@.len() < u32::MAX,
            cell_views(cells@) == sheet_cells(records(products@), i as int),
        decreases products@.len() - i,
    {
        let p = &products[i];
        let row: u32 = (i + 1) as u32;
        let ghost before = cell_views(cells@);
        assert(records(products@)[i as int] == p@);
        cells.push(text_cell(row, 0, p.title.as_str()));
        cells.push(text_cell(row, 1, p.image.as_str()));
        cells.push(text_cell(row, 2, p.url.as_str()));
        cells.push(Cell { row, col: 3, value: CellValue::Number(p.price.clone()) });
        match p.ean {
            Some(ean) => {
                cells.push(Cell { row, col: 4, value: CellValue::Integer(ean) });
            },
            None => {},
        }
        assert(cell_views(cells@) =~= before + record_cells(p@, row as int));
        i += 1;
    }
    Ok(cells)
}

} // verus!
