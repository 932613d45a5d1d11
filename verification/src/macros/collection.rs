//! The `collection!` and `cell_collection!` macros: storage names, grid
//! cells and grid dimensions, and the generated collection type.

use vstd::prelude::*;

verus! {

/// The decimal digit for `d` (`0 <= d < 10`)
pub open spec fn digit_char(d: int) -> char {
    if d == 0 {
        '0'
    } else if d == 1 {
        '1'
    } else if d == 2 {
        '2'
    } else if d == 3 {
        '3'
    } else if d == 4 {
        '4'
    } else if d == 5 {
        '5'
    } else if d == 6 {
        '6'
    } else if d == 7 {
        '7'
    } else if d == 8 {
        '8'
    } else {
        '9'
    }
}

/// Decimal representation of `n`, without leading zeros
pub open spec fn decimal(n: nat) -> Seq<char>
    decreases n,
{
    if n < 10 {
        seq![digit_char(n as int)]
    } else {
        decimal(n / 10).push(digit_char((n % 10) as int))
    }
}

proof fn lemma_digit_char_injective(a: int, b: int)
    requires
        0 <= a < 10,
        0 <= b < 10,
        digit_char(a) == digit_char(b),
    ensures
        a == b,
{
}

proof fn lemma_decimal_len(n: nat)
    ensures
        decimal(n).len() >= 1,
        n >= 10 ==> decimal(n).len() >= 2,
    decreases n,
{
    if n >= 10 {
        lemma_decimal_len(n / 10);
    }
}

/// Distinct numbers have distinct decimal representations
pub proof fn lemma_decimal_injective(a: nat, b: nat)
    requires
        decimal(a) == decimal(b),
    ensures
        a == b,
    decreases a,
{
    lemma_decimal_len(a);
    lemma_decimal_len(b);
    let da = decimal(a);
    let db = decimal(b);
    if a < 10 {
        if b >= 10 {
            assert(da.len() == 1);
        } else {
            assert(da[0] == db[0]);
            lemma_digit_char_injective(a as int, b as int);
        }
    } else {
        if b < 10 {
            assert(db.len() == 1);
        } else {
            assert(da.last() == db.last());
            lemma_digit_char_injective((a % 10) as int, (b % 10) as int);
            assert(decimal(a / 10) =~= da.drop_last());
            assert(decimal(b / 10) =~= db.drop_last());
            lemma_decimal_injective(a / 10, b / 10);
        }
    }
}

/// The text of digit `d`
fn digit_str(d: usize) -> (r: &'static str)
    requires
        d < 10,
    ensures
        r@ == seq![digit_char(d as int)],
{
    proof {
        reveal_strlit("0");
        reveal_strlit("1");
        reveal_strlit("2");
        reveal_strlit("3");
        reveal_strlit("4");
        reveal_strlit("5");
        reveal_strlit("6");
        reveal_strlit("7");
        reveal_strlit("8");
        reveal_strlit("9");
    }
    if d == 0 {
        "0"
    } else if d == 1 {
        "1"
    } else if d == 2 {
        "2"
    } else if d == 3 {
        "3"
    } else if d == 4 {
        "4"
    } else if d == 5 {
        "5"
    } else if d == 6 {
        "6"
    } else if d == 7 {
        "7"
    } else if d == 8 {
        "8"
    } else {
        "9"
    }
}

/// Append the decimal representation of `n` to `out`
pub fn push_decimal(out: &mut String, n: usize)
    ensures
        final(out)@ == old(out)@ + decimal(n as nat),
    decreases n,
{
    if n >= 10 {
        push_decimal(out, n / 10);
    }
    out.append(digit_str(n % 10));
    proof {
        if n >= 10 {
            assert(decimal(n as nat) == decimal((n / 10) as nat).push(digit_char((n % 10) as int)));
        }
    }
}

/// A `usize` literal
pub open spec fn usize_lit(n: int) -> Seq<char> {
    decimal(n as nat) + "usize"@
}

/// A `u32` literal
pub open spec fn u32_lit(n: int) -> Seq<char> {
    decimal(n as nat) + "u32"@
}

/// Append a `usize` literal
pub fn push_usize_lit(out: &mut String, n: usize)
    ensures
        final(out)@ == old(out)@ + usize_lit(n as int),
{
    push_decimal(out, n);
    out.append("usize");
    proof {
        assert(final(out)@ =~= old(out)@ + usize_lit(n as int));
    }
}

/// Append a `u32` literal
pub fn push_u32_lit(out: &mut String, n: u32)
    ensures
        final(out)@ == old(out)@ + u32_lit(n as int),
{
    push_decimal(out, n as usize);
    out.append("u32");
    proof {
        assert(final(out)@ =~= old(out)@ + u32_lit(n as int));
    }
}

/// The name of the `n`-th storage field
pub open spec fn stor_name(n: nat) -> Seq<char> {
    "_stor"@ + decimal(n)
}

/// Generator of storage field names: `_stor0`, `_stor1`, ...
#[derive(Debug, Default)]
pub struct NameGenerator(pub usize);

impl NameGenerator {
    /// The next name
    pub fn next(&mut self) -> (name: String)
        requires
            old(self).0 < usize::MAX,
        ensures
            name@ == stor_name(old(self).0 as nat),
            final(self).0 == old(self).0 + 1,
    {
        let mut name = String::from_str("_stor");
        push_decimal(&mut name, self.0);
        self.0 += 1;
        name
    }
}

/// Names generated for different counts differ.
pub proof fn law_names_distinct(a: nat, b: nat)
    requires
        a != b,
    ensures
        stor_name(a) != stor_name(b),
{
    if stor_name(a) == stor_name(b) {
        reveal_strlit("_stor");
        assert(decimal(a) =~= stor_name(a).skip(5));
        assert(decimal(b) =~= stor_name(b).skip(5));
        lemma_decimal_injective(a, b);
    }
}

/// Position and span of a grid cell (inclusive bounds)
#[derive(Copy, Clone, Debug, PartialEq, Eq, Structural)]
pub struct CellInfo {
    pub col: u32,
    pub last_col: u32,
    pub row: u32,
    pub last_row: u32,
}

impl CellInfo {
    /// A cell covering a single column and row
    pub fn new(col: u32, row: u32) -> (r: Self)
        ensures
            r == (CellInfo { col, last_col: col, row, last_row: row }),
    {
        CellInfo { col, last_col: col, row, last_row: row }
    }
}

/// The end of a cell's column (or row) range as written after its start
#[derive(Copy, Clone, Debug, PartialEq, Eq, Structural)]
pub enum CellEnd {
    /// Nothing: a single column
    Single,
    /// `..=n`: up to and including `n`
    Inclusive(u32),
    /// `..n`: up to but excluding `n`
    Exclusive(u32),
    /// `..+n`: `n` columns
    Count(u32),
}

/// An invalid cell range
#[derive(Copy, Clone, Debug, PartialEq, Eq, Structural)]
pub enum CellError {
    /// `..=n` needs `n >= start` (the value is `start`)
    ExpectedAtLeast(u32),
    /// `..n` needs `n > start`, `..+n` needs `n > 0` (the value is `start`)
    ExpectedAbove(u32),
}

/// The last column (or row) of a cell starting at `start`
pub fn parse_last(start: u32, end: CellEnd) -> (r: Result<u32, CellError>)
    requires
        end matches CellEnd::Count(n) ==> start + n <= u32::MAX,
    ensures
        r == match end {
            CellEnd::Single => Ok(start),
            CellEnd::Inclusive(n) => if n >= start {
                Ok(n)
            } else {
                Err(CellError::ExpectedAtLeast(start))
            },
            CellEnd::Exclusive(n) => if n > start {
                Ok((n - 1) as u32)
            } else {
                Err(CellError::ExpectedAbove(start))
            },
            CellEnd::Count(n) => if n > 0 {
                Ok((start + n - 1) as u32)
            } else {
                Err(CellError::ExpectedAbove(start))
            },
        },
        r matches Ok(last) ==> start <= last,
{
    match end {
        CellEnd::Single => Ok(start),
        CellEnd::Inclusive(n) => {
            if n >= start {
                Ok(n)
            } else {
                Err(CellError::ExpectedAtLeast(start))
            }
        },
        CellEnd::Exclusive(n) => {
            if n > start {
                Ok(n - 1)
            } else {
                Err(CellError::ExpectedAbove(start))
            }
        },
        CellEnd::Count(n) => {
            if n > 0 {
                Ok(start + n - 1)
            } else {
                Err(CellError::ExpectedAbove(start))
            }
        },
    }
}

/// A cell `(col [end], row [end])`
pub fn parse_cell(col: u32, col_end: CellEnd, row: u32, row_end: CellEnd) -> (r: Result<CellInfo, CellError>)
    requires
        col_end matches CellEnd::Count(n) ==> col + n <= u32::MAX,
        row_end matches CellEnd::Count(n) ==> row + n <= u32::MAX,
    ensures
        match (parse_last_spec(col, col_end), parse_last_spec(row, row_end)) {
            (Ok(lc), Ok(lr)) => r == Ok::<CellInfo, CellError>(
                CellInfo { col, last_col: lc, row, last_row: lr },
            ),
            (Err(e), _) => r == Err::<CellInfo, CellError>(e),
            (Ok(_), Err(e)) => r == Err::<CellInfo, CellError>(e),
        },
        r matches Ok(c) ==> c.col <= c.last_col && c.row <= c.last_row,
{
    let last_col = match parse_last(col, col_end) {
        Ok(v) => v,
        Err(e) => return Err(e),
    };
    let last_row = match parse_last(row, row_end) {
        Ok(v) => v,
        Err(e) => return Err(e),
    };
    Ok(CellInfo { row, last_row, col, last_col })
}

/// [`parse_last`] as a spec function
pub open spec fn parse_last_spec(start: u32, end: CellEnd) -> Result<u32, CellError> {
    match end {
        CellEnd::Single => Ok(start),
        CellEnd::Inclusive(n) => if n >= start {
            Ok(n)
        } else {
            Err(CellError::ExpectedAtLeast(start))
        },
        CellEnd::Exclusive(n) => if n > start {
            Ok((n - 1) as u32)
        } else {
            Err(CellError::ExpectedAbove(start))
        },
        CellEnd::Count(n) => if n > 0 {
            Ok((start + n - 1) as u32)
        } else {
            Err(CellError::ExpectedAbove(start))
        },
    }
}

/// Dimensions of a grid: columns, rows and the numbers of cells spanning
/// several columns (rows)
#[derive(Copy, Clone, Debug, Default, PartialEq, Eq, Structural)]
pub struct GridDimensions {
    pub cols: u32,
    pub col_spans: u32,
    pub rows: u32,
    pub row_spans: u32,
}

/// `max(a, b)`
pub open spec fn max_u32(a: u32, b: int) -> int {
    if a >= b {
        a as int
    } else {
        b
    }
}

impl GridDimensions {
    /// Include `cell` in the dimensions
    pub fn update(&mut self, cell: &CellInfo)
        requires
            cell.last_col < u32::MAX,
            cell.last_row < u32::MAX,
            cell.last_col > cell.col ==> old(self).col_spans < u32::MAX,
            cell.last_row > cell.row ==> old(self).row_spans < u32::MAX,
        ensures
            final(self).cols == max_u32(old(self).cols, cell.last_col + 1),
            final(self).rows == max_u32(old(self).rows, cell.last_row + 1),
            final(self).col_spans == old(self).col_spans + if cell.last_col > cell.col {
                1int
            } else {
                0
            },
            final(self).row_spans == old(self).row_spans + if cell.last_row > cell.row {
                1int
            } else {
                0
            },
    {
        let c = cell.last_col + 1;
        if c > self.cols {
            self.cols = c;
        }
        if cell.last_col > cell.col {
            self.col_spans += 1;
        }
        let r = cell.last_row + 1;
        if r > self.rows {
            self.rows = r;
        }
        if cell.last_row > cell.row {
            self.row_spans += 1;
        }
    }
}

/// The dimensions of a grid holding `cells`: columns (rows) up to the last
/// covered one, and how many cells span more than one column (row)
pub open spec fn dims_of(cells: Seq<CellInfo>) -> (int, int, int, int)
    decreases cells.len(),
{
    if cells.len() == 0 {
        (0, 0, 0, 0)
    } else {
        let (cols, col_spans, rows, row_spans) = dims_of(cells.drop_last());
        let c = cells.last();
        (
            if cols >= c.last_col + 1 {
                cols
            } else {
                c.last_col + 1
            },
            col_spans + if c.last_col > c.col {
                1int
            } else {
                0
            },
            if rows >= c.last_row + 1 {
                rows
            } else {
                c.last_row + 1
            },
            row_spans + if c.last_row > c.row {
                1int
            } else {
                0
            },
        )
    }
}

proof fn lemma_dims_bounds(cells: Seq<CellInfo>)
    ensures
        0 <= dims_of(cells).1 <= cells.len(),
        0 <= dims_of(cells).3 <= cells.len(),
        dims_of(cells).0 >= 0,
        dims_of(cells).2 >= 0,
        (forall|i: int| 0 <= i < cells.len() ==> #[trigger] cells[i].last_col < u32::MAX) ==> dims_of(
            cells,
        ).0 <= u32::MAX,
        (forall|i: int| 0 <= i < cells.len() ==> #[trigger] cells[i].last_row < u32::MAX) ==> dims_of(
            cells,
        ).2 <= u32::MAX,
    decreases cells.len(),
{
    if cells.len() > 0 {
        lemma_dims_bounds(cells.drop_last());
        assert forall|i: int| 0 <= i < cells.drop_last().len() implies #[trigger] cells.drop_last()[i]
            == cells[i] by {}
    }
}

/// Every cell lies within the grid dimensions computed from a list of
/// cells containing it.
pub proof fn law_cells_within_dimensions(cells: Seq<CellInfo>, i: int)
    requires
        0 <= i < cells.len(),
    ensures
        cells[i].last_col < dims_of(cells).0,
        cells[i].last_row < dims_of(cells).2,
    decreases cells.len(),
{
    if i < cells.len() - 1 {
        assert(cells.drop_last()[i] == cells[i]);
        law_cells_within_dimensions(cells.drop_last(), i);
    }
}

/// The dimensions of a grid holding `cells`
pub fn grid_dimensions(cells: &Vec<CellInfo>) -> (dim: GridDimensions)
    requires
        cells@.len() <= u32::MAX,
        forall|i: int| 0 <= i < cells@.len() ==> #[trigger] cells@[i].last_col < u32::MAX,
        forall|i: int| 0 <= i < cells@.len() ==> #[trigger] cells@[i].last_row < u32::MAX,
    ensures
        (dim.cols as int, dim.col_spans as int, dim.rows as int, dim.row_spans as int) == dims_of(
            cells@,
        ),
{
    let mut dim = GridDimensions { cols: 0, col_spans: 0, rows: 0, row_spans: 0 };
    let mut i: usize = 0;
    while i < cells.len()
        invariant
            i <= cells@.len(),
            cells@.len() <= u32::MAX,
            forall|k: int| 0 <= k < cells@.len() ==> #[trigger] cells@[k].last_col < u32::MAX,
            forall|k: int| 0 <= k < cells@.len() ==> #[trigger] cells@[k].last_row < u32::MAX,
            (dim.cols as int, dim.col_spans as int, dim.rows as int, dim.row_spans as int) == dims_of(
                cells@.take(i as int),
            ),
        decreases cells@.len() - i,
    {
        proof {
            lemma_dims_bounds(cells@.take(i as int));
            assert(cells@.take(i + 1).drop_last() =~= cells@.take(i as int));
        }
        dim.update(&cells[i]);
        i += 1;
    }
    proof {
        assert(cells@.take(cells@.len() as int) =~= cells@);
    }
    dim
}

/// The cells of an aligned layout: item `c` of line `l` is in column `c`
/// and row `l`, or in column `l` and row `c` when `transpose`
pub open spec fn aligned_cell(line: int, index: int, transpose: bool) -> CellInfo {
    if transpose {
        CellInfo { col: line as u32, last_col: line as u32, row: index as u32, last_row: index as u32 }
    } else {
        CellInfo { col: index as u32, last_col: index as u32, row: line as u32, last_row: line as u32 }
    }
}

/// The cells of an aligned layout whose lines hold `line_lens` items
pub open spec fn aligned_cells_spec(line_lens: Seq<usize>, transpose: bool) -> Seq<CellInfo>
    decreases line_lens.len(),
{
    if line_lens.len() == 0 {
        Seq::empty()
    } else {
        let l = line_lens.len() - 1;
        aligned_cells_spec(line_lens.drop_last(), transpose) + Seq::new(
            line_lens.last() as nat,
            |c: int| aligned_cell(l, c, transpose),
        )
    }
}

/// The cells of `aligned_column!`/`aligned_row!` layouts: `line_lens` gives
/// the number of items of each row (column when `transpose`)
pub fn aligned_cells(line_lens: &Vec<usize>, transpose: bool) -> (cells: Vec<CellInfo>)
    requires
        line_lens@.len() <= u32::MAX,
        forall|i: int| 0 <= i < line_lens@.len() ==> #[trigger] line_lens@[i] <= u32::MAX,
    ensures
        cells@ == aligned_cells_spec(line_lens@, transpose),
{
    let mut cells: Vec<CellInfo> = Vec::new();
    let mut line: usize = 0;
    while line < line_lens.len()
        invariant
            line <= line_lens@.len(),
            line_lens@.len() <= u32::MAX,
            forall|i: int| 0 <= i < line_lens@.len() ==> #[trigger] line_lens@[i] <= u32::MAX,
            cells@ == aligned_cells_spec(line_lens@.take(line as int), transpose),
        decreases line_lens@.len() - line,
    {
        let n = line_lens[line];
        let ghost before = cells@;
        let mut index: usize = 0;
        while index < n
            invariant
                index <= n,
                n <= u32::MAX,
                line < line_lens@.len() <= u32::MAX,
                cells@ == before + Seq::new(index as nat, |c: int| aligned_cell(line as int, c, transpose)),
            decreases n - index,
        {
            let (a, b) = if transpose {
                (line as u32, index as u32)
            } else {
                (index as u32, line as u32)
            };
            cells.push(CellInfo::new(a, b));
            proof {
                assert(cells@ =~= before + Seq::new(
                    (index + 1) as nat,
                    |c: int| aligned_cell(line as int, c, transpose),
                ));
            }
            index += 1;
        }
        proof {
            assert(line_lens@.take(line + 1).drop_last() =~= line_lens@.take(line as int));
            assert(line_lens@.take(line + 1).last() == n);
        }
        line += 1;
    }
    proof {
        assert(line_lens@.take(line_lens@.len() as int) =~= line_lens@);
    }
    cells
}

/// An item of a collection
#[derive(Debug, Clone, PartialEq, Eq)]
pub enum CollectionItem {
    /// A label: storage name, type and definition (source text)
    Label(String, String, String),
    /// A widget: storage name and expression (source text)
    Widget(String, String),
}

/// How a label item is adapted: `.align(hints)`, `.pack(hints)` or not
#[derive(Debug, Clone, PartialEq, Eq)]
pub enum LabelAdapt {
    Plain,
    Align(String),
    Pack(String),
}

/// The type of a label item
pub open spec fn label_ty(adapt: LabelAdapt) -> Seq<char> {
    let base = "::kas::widgets::Label<&'static str>"@;
    match adapt {
        LabelAdapt::Plain => base,
        LabelAdapt::Align(_) => "::kas::widgets::adapt::Align<"@ + base + ">"@,
        LabelAdapt::Pack(_) => "::kas::widgets::adapt::Pack<"@ + base + ">"@,
    }
}

/// The definition of a label item with literal `text`
pub open spec fn label_def(text: Seq<char>, adapt: LabelAdapt) -> Seq<char> {
    let base = "::kas::widgets::Label::new("@ + text + ")"@;
    match adapt {
        LabelAdapt::Plain => base,
        LabelAdapt::Align(h) => "::kas::widgets::adapt::Align::new("@ + base + ", "@ + h@ + ")"@,
        LabelAdapt::Pack(h) => "::kas::widgets::adapt::Pack::new("@ + base + ", "@ + h@ + ")"@,
    }
}

/// A label item stored as `stor`, showing the string literal `text`
pub fn label_item(stor: String, text: &str, adapt: &LabelAdapt) -> (item: CollectionItem)
    ensures
        item matches CollectionItem::Label(s, ty, def) && s@ == stor@ && ty@ == label_ty(*adapt)
            && def@ == label_def(text@, *adapt),
{
    let mut def = String::from_str("::kas::widgets::Label::new(");
    def.append(text);
    def.append(")");
    let base = "::kas::widgets::Label<&'static str>";
    match adapt {
        LabelAdapt::Plain => CollectionItem::Label(stor, String::from_str(base), def),
        LabelAdapt::Align(h) => {
            let mut ty = String::from_str("::kas::widgets::adapt::Align<");
            ty.append(base);
            ty.append(">");
            let mut d = String::from_str("::kas::widgets::adapt::Align::new(");
            d.append(def.as_str());
            d.append(", ");
            d.append(h.as_str());
            d.append(")");
            CollectionItem::Label(stor, ty, d)
        },
        LabelAdapt::Pack(h) => {
            let mut ty = String::from_str("::kas::widgets::adapt::Pack<");
            ty.append(base);
            ty.append(">");
            let mut d = String::from_str("::kas::widgets::adapt::Pack::new(");
            d.append(def.as_str());
            d.append(", ");
            d.append(h.as_str());
            d.append(")");
            CollectionItem::Label(stor, ty, d)
        },
    }
}

/// Index of the first widget item at or after `k`
pub open spec fn first_widget_from(items: Seq<CollectionItem>, k: int) -> Option<int>
    decreases items.len() - k,
{
    if k < 0 || k >= items.len() {
        None
    } else if items[k] is Widget {
        Some(k)
    } else {
        first_widget_from(items, k + 1)
    }
}

/// The type parameter of the widget item at `index`
pub open spec fn widget_ty(index: int) -> Seq<char> {
    "_W"@ + decimal(index as nat)
}

/// The collection's input data type: that of its first widget, if any
pub open spec fn data_ty(items: Seq<CollectionItem>) -> Option<Seq<char>> {
    match first_widget_from(items, 0) {
        Some(w) => Some("<"@ + widget_ty(w) + " as ::kas::Widget>::Data"@),
        None => None,
    }
}

/// The collection's input data type as written
pub open spec fn data_ty_text(items: Seq<CollectionItem>) -> Seq<char> {
    match data_ty(items) {
        Some(d) => d,
        None => "()"@,
    }
}

proof fn lemma_no_widget_from(items: Seq<CollectionItem>, k: int)
    requires
        forall|i: int| 0 <= i < items.len() ==> #[trigger] items[i] is Label,
    ensures
        first_widget_from(items, k) is None,
    decreases items.len() - k,
{
    if 0 <= k < items.len() {
        lemma_no_widget_from(items, k + 1);
    }
}

/// A collection whose items are all labels takes no input data: its data
/// type is `()`.
pub proof fn law_labels_only_unit_data(items: Seq<CollectionItem>)
    requires
        forall|i: int| 0 <= i < items.len() ==> #[trigger] items[i] is Label,
    ensures
        data_ty_text(items) == "()"@,
{
    lemma_no_widget_from(items, 0);
}

/// A column (row) range written as a start and a count, an exclusive end or
/// an inclusive end selects the same cells: `s..+n` = `s..(s+n)` =
/// `s..=(s+n-1)`, a single index is a count of one, and a count of zero is
/// refused as `s..s` is.
pub proof fn law_range_forms_agree(start: u32, n: u32)
    requires
        1 <= n,
        start + n <= u32::MAX,
    ensures
        parse_last_spec(start, CellEnd::Count(n)) == parse_last_spec(start, CellEnd::Exclusive((start + n) as u32)),
        parse_last_spec(start, CellEnd::Count(n)) == parse_last_spec(
            start,
            CellEnd::Inclusive((start + n - 1) as u32),
        ),
        parse_last_spec(start, CellEnd::Single) == parse_last_spec(start, CellEnd::Count(1)),
        parse_last_spec(start, CellEnd::Count(n)) == Ok::<u32, CellError>((start + n - 1) as u32),
        parse_last_spec(start, CellEnd::Count(0)) == parse_last_spec(start, CellEnd::Exclusive(start)),
        parse_last_spec(start, CellEnd::Count(0)) == Err::<u32, CellError>(CellError::ExpectedAbove(start)),
{
}

/// Concatenation of `f(item, index)` over the items
pub open spec fn concat_pieces(
    items: Seq<CollectionItem>,
    f: spec_fn(CollectionItem, int) -> Seq<char>,
) -> Seq<char>
    decreases items.len(),
{
    if items.len() == 0 {
        Seq::empty()
    } else {
        concat_pieces(items.drop_last(), f) + f(items.last(), items.len() - 1)
    }
}

/// Storage field of an item
pub open spec fn stor_ty_piece(item: CollectionItem, index: int, d: Option<Seq<char>>) -> Seq<char> {
    match item {
        CollectionItem::Label(stor, ty, _) => match d {
            Some(d) => stor@ + ": ::kas::widgets::adapt::MapAny<"@ + d + ", "@ + ty@ + ">, "@,
            None => stor@ + ": "@ + ty@ + ", "@,
        },
        CollectionItem::Widget(stor, _) => stor@ + ": "@ + widget_ty(index) + ", "@,
    }
}

/// Initializer of an item's storage field
pub open spec fn stor_def_piece(item: CollectionItem, d: Option<Seq<char>>) -> Seq<char> {
    match item {
        CollectionItem::Label(stor, _, def) => match d {
            Some(_) => stor@ + ": ::kas::widgets::adapt::MapAny::new("@ + def@ + "), "@,
            None => stor@ + ": "@ + def@ + ", "@,
        },
        CollectionItem::Widget(stor, expr) => stor@ + ": Box::new("@ + expr@ + "), "@,
    }
}

/// Storage name of an item
pub open spec fn stor_of(item: CollectionItem) -> Seq<char> {
    match item {
        CollectionItem::Label(stor, _, _) => stor@,
        CollectionItem::Widget(stor, _) => stor@,
    }
}

/// Match arm of `get_tile` for an item
pub open spec fn get_tile_piece(item: CollectionItem, index: int) -> Seq<char> {
    decimal(index as nat) + "usize => Some(&self."@ + stor_of(item) + "), "@
}

/// Match arm of `get_mut_tile` for an item
pub open spec fn get_mut_tile_piece(item: CollectionItem, index: int) -> Seq<char> {
    decimal(index as nat) + "usize => Some(&mut self."@ + stor_of(item) + "), "@
}

/// Match arm of `child_node` for an item
pub open spec fn child_node_piece(item: CollectionItem, index: int) -> Seq<char> {
    decimal(index as nat) + "usize => Some(self."@ + stor_of(item) + ".as_node(data)), "@
}

/// Bound on the type parameter of a widget item: the first widget fixes
/// the input data type, which the others must share
pub open spec fn bound_piece(item: CollectionItem, index: int, first: Option<int>, d: Seq<char>) -> Seq<char> {
    match item {
        CollectionItem::Label(..) => Seq::empty(),
        CollectionItem::Widget(..) => if first == Some(index) {
            widget_ty(index) + ": ::kas::Widget, "@
        } else {
            widget_ty(index) + ": ::kas::Widget<Data = "@ + d + ">, "@
        },
    }
}

/// Type parameter of a widget item in the list of type arguments
pub open spec fn ty_arg_piece(item: CollectionItem, index: int, first: Option<int>) -> Seq<char> {
    match item {
        CollectionItem::Label(..) => Seq::empty(),
        CollectionItem::Widget(..) => if first == Some(index) {
            widget_ty(index)
        } else {
            ", "@ + widget_ty(index)
        },
    }
}

/// The parts of a generated collection type: impl generics, type
/// generics, storage fields, their initializers and the `Collection` items
pub open spec fn impl_parts_spec(items: Seq<CollectionItem>) -> (
    Seq<char>,
    Seq<char>,
    Seq<char>,
    Seq<char>,
    Seq<char>,
) {
    let d = data_ty(items);
    let dt = data_ty_text(items);
    let first = first_widget_from(items, 0);
    let bounds = concat_pieces(items, |it: CollectionItem, i: int| bound_piece(it, i, first, dt));
    let args = concat_pieces(items, |it: CollectionItem, i: int| ty_arg_piece(it, i, first));
    let (ig, tg) = if first is None {
        (Seq::<char>::empty(), Seq::<char>::empty())
    } else {
        ("<"@ + bounds + ">"@, "<"@ + args + ">"@)
    };
    let stor_ty = concat_pieces(items, |it: CollectionItem, i: int| stor_ty_piece(it, i, d));
    let stor_def = concat_pieces(items, |it: CollectionItem, i: int| stor_def_piece(it, d));
    let gt = concat_pieces(items, |it: CollectionItem, i: int| get_tile_piece(it, i));
    let gmt = concat_pieces(items, |it: CollectionItem, i: int| get_mut_tile_piece(it, i));
    let cn = concat_pieces(items, |it: CollectionItem, i: int| child_node_piece(it, i));
    let collection = collection_items_spec(dt, items.len(), gt, gmt, cn);
    (ig, tg, stor_ty, stor_def, collection)
}

proof fn lemma_concat_step(
    items: Seq<CollectionItem>,
    i: int,
    f: spec_fn(CollectionItem, int) -> Seq<char>,
)
    requires
        0 <= i < items.len(),
    ensures
        concat_pieces(items.take(i + 1), f) == concat_pieces(items.take(i), f) + f(items[i], i),
{
    assert(items.take(i + 1).drop_last() =~= items.take(i));
}

proof fn lemma_first_widget_skip(items: Seq<CollectionItem>, k: int)
    requires
        0 <= k < items.len(),
        items[k] is Label,
    ensures
        first_widget_from(items, k) == first_widget_from(items, k + 1),
{
}

/// Append the storage field and initializer of `item` (at `index`)
fn push_stor(
    stor_ty: &mut String,
    stor_def: &mut String,
    item: &CollectionItem,
    index: usize,
    data: Option<&str>,
)
    ensures
        final(stor_ty)@ == old(stor_ty)@ + stor_ty_piece(
            *item,
            index as int,
            match data {
                Some(d) => Some(d@),
                None => None,
            },
        ),
        final(stor_def)@ == old(stor_def)@ + stor_def_piece(
            *item,
            match data {
                Some(d) => Some(d@),
                None => None,
            },
        ),
{
    let ghost t0 = stor_ty@;
    let ghost d0 = stor_def@;
    match item {
        CollectionItem::Label(stor, ty, def) => {
            match data {
                Some(dt) => {
                    stor_ty.append(stor.as_str());
                    stor_ty.append(": ::kas::widgets::adapt::MapAny<");
                    stor_ty.append(dt);
                    stor_ty.append(", ");
                    stor_ty.append(ty.as_str());
                    stor_ty.append(">, ");
                    stor_def.append(stor.as_str());
                    stor_def.append(": ::kas::widgets::adapt::MapAny::new(");
                    stor_def.append(def.as_str());
                    stor_def.append("), ");
                    assert(stor_ty@ =~= t0 + (stor@ + ": ::kas::widgets::adapt::MapAny<"@ + dt@ + ", "@
                        + ty@ + ">, "@));
                    assert(stor_def@ =~= d0 + (stor@ + ": ::kas::widgets::adapt::MapAny::new("@ + def@
                        + "), "@));
                },
                None => {
                    stor_ty.append(stor.as_str());
                    stor_ty.append(": ");
                    stor_ty.append(ty.as_str());
                    stor_ty.append(", ");
                    stor_def.append(stor.as_str());
                    stor_def.append(": ");
                    stor_def.append(def.as_str());
                    stor_def.append(", ");
                    assert(stor_ty@ =~= t0 + (stor@ + ": "@ + ty@ + ", "@));
                    assert(stor_def@ =~= d0 + (stor@ + ": "@ + def@ + ", "@));
                },
            }
        },
        CollectionItem::Widget(stor, expr) => {
            stor_ty.append(stor.as_str());
            stor_ty.append(": ");
            stor_ty.append("_W");
            push_decimal(stor_ty, index);
            stor_ty.append(", ");
            stor_def.append(stor.as_str());
            stor_def.append(": Box::new(");
            stor_def.append(expr.as_str());
            stor_def.append("), ");
            assert(stor_ty@ =~= t0 + (stor@ + ": "@ + ("_W"@ + decimal(index as nat)) + ", "@));
            assert(stor_def@ =~= d0 + (stor@ + ": Box::new("@ + expr@ + "), "@));
        },
    }
}

/// Append the generic bound and type argument of `item` (at `index`)
fn push_generics(
    bounds: &mut String,
    args: &mut String,
    item: &CollectionItem,
    index: usize,
    first: Option<usize>,
    dt: &str,
)
    ensures
        final(bounds)@ == old(bounds)@ + bound_piece(
            *item,
            index as int,
            match first {
                Some(w) => Some(w as int),
                None => None,
            },
            dt@,
        ),
        final(args)@ == old(args)@ + ty_arg_piece(
            *item,
            index as int,
            match first {
                Some(w) => Some(w as int),
                None => None,
            },
        ),
{
    let ghost b0 = bounds@;
    let ghost a0 = args@;
    let is_first = match first {
        Some(w) => w == index,
        None => false,
    };
    match item {
        CollectionItem::Label(..) => {
            assert(bounds@ =~= b0 + Seq::<char>::empty());
            assert(args@ =~= a0 + Seq::<char>::empty());
        },
        CollectionItem::Widget(..) => {
            bounds.append("_W");
            push_decimal(bounds, index);
            if is_first {
                bounds.append(": ::kas::Widget, ");
                args.append("_W");
                push_decimal(args, index);
                assert(bounds@ =~= b0 + (("_W"@ + decimal(index as nat)) + ": ::kas::Widget, "@));
                assert(args@ =~= a0 + ("_W"@ + decimal(index as nat)));
            } else {
                bounds.append(": ::kas::Widget<Data = ");
                bounds.append(dt);
                bounds.append(">, ");
                args.append(", ");
                args.append("_W");
                push_decimal(args, index);
                assert(bounds@ =~= b0 + (("_W"@ + decimal(index as nat)) + ": ::kas::Widget<Data = "@
                    + dt@ + ">, "@));
                assert(args@ =~= a0 + (", "@ + ("_W"@ + decimal(index as nat))));
            }
        },
    }
}

/// Append the match arms of the item stored as `stor` (at `index`)
fn push_rules(gt: &mut String, gmt: &mut String, cn: &mut String, item: &CollectionItem, index: usize)
    ensures
        final(gt)@ == old(gt)@ + get_tile_piece(*item, index as int),
        final(gmt)@ == old(gmt)@ + get_mut_tile_piece(*item, index as int),
        final(cn)@ == old(cn)@ + child_node_piece(*item, index as int),
{
    let stor = match item {
        CollectionItem::Label(stor, _, _) => stor,
        CollectionItem::Widget(stor, _) => stor,
    };
    let ghost g0 = gt@;
    let ghost m0 = gmt@;
    let ghost c0 = cn@;
    push_decimal(gt, index);
    gt.append("usize => Some(&self.");
    gt.append(stor.as_str());
    gt.append("), ");
    push_decimal(gmt, index);
    gmt.append("usize => Some(&mut self.");
    gmt.append(stor.as_str());
    gmt.append("), ");
    push_decimal(cn, index);
    cn.append("usize => Some(self.");
    cn.append(stor.as_str());
    cn.append(".as_node(data)), ");
    assert(gt@ =~= g0 + (decimal(index as nat) + "usize => Some(&self."@ + stor@ + "), "@));
    assert(gmt@ =~= m0 + (decimal(index as nat) + "usize => Some(&mut self."@ + stor@ + "), "@));
    assert(cn@ =~= c0 + (decimal(index as nat) + "usize => Some(self."@ + stor@
        + ".as_node(data)), "@));
}

proof fn lemma_first_widget_range(items: Seq<CollectionItem>, k: int)
    requires
        0 <= k,
    ensures
        first_widget_from(items, k) matches Some(w) ==> k <= w < items.len() && items[w] is Widget,
    decreases items.len() - k,
{
    if k < items.len() && !(items[k] is Widget) {
        lemma_first_widget_range(items, k + 1);
    }
}

/// Index of the first widget item
fn first_widget(items: &Vec<CollectionItem>) -> (r: Option<usize>)
    ensures
        match r {
            Some(w) => Some(w as int),
            None => None,
        } == first_widget_from(items@, 0),
{
    proof {
        lemma_first_widget_range(items@, 0);
    }
    let mut i: usize = 0;
    while i < items.len()
        invariant
            i <= items@.len(),
            first_widget_from(items@, 0) == first_widget_from(items@, i as int),
        decreases items@.len() - i,
    {
        match &items[i] {
            CollectionItem::Widget(..) => {
                return Some(i);
            },
            CollectionItem::Label(..) => {
                proof {
                    lemma_first_widget_skip(items@, i as int);
                }
            },
        }
        i += 1;
    }
    None
}

/// The parts of the generated collection type for `items`: impl generics,
/// type generics, storage fields, their initializers and the items of the
/// `Collection` implementation
pub fn impl_parts(items: &Vec<CollectionItem>) -> (r: (String, String, String, String, String))
    ensures
        (r.0@, r.1@, r.2@, r.3@, r.4@) == impl_parts_spec(items@),
{
    let first = first_widget(items);
    let ghost fw = first_widget_from(items@, 0);
    let mut dt = String::new();
    let has_data = match first {
        Some(w) => {
            dt.append("<");
            dt.append("_W");
            push_decimal(&mut dt, w);
            dt.append(" as ::kas::Widget>::Data");
            assert(dt@ =~= "<"@ + ("_W"@ + decimal(w as nat)) + " as ::kas::Widget>::Data"@);
            true
        },
        None => {
            dt.append("()");
            assert(dt@ =~= "()"@);
            false
        },
    };
    let ghost d = data_ty(items@);
    let data: Option<&str> = if has_data {
        Some(dt.as_str())
    } else {
        None
    };
    assert(match data {
        Some(x) => Some(x@),
        None => None,
    } == d);
    let ghost f_bound = |it: CollectionItem, i: int| bound_piece(it, i, fw, dt@);
    let ghost f_args = |it: CollectionItem, i: int| ty_arg_piece(it, i, fw);
    let ghost f_ty = |it: CollectionItem, i: int| stor_ty_piece(it, i, d);
    let ghost f_def = |it: CollectionItem, i: int| stor_def_piece(it, d);
    let ghost f_gt = |it: CollectionItem, i: int| get_tile_piece(it, i);
    let ghost f_gmt = |it: CollectionItem, i: int| get_mut_tile_piece(it, i);
    let ghost f_cn = |it: CollectionItem, i: int| child_node_piece(it, i);

    let mut bounds = String::new();
    let mut args = String::new();
    let mut stor_ty = String::new();
    let mut stor_def = String::new();
    let mut gt = String::new();
    let mut gmt = String::new();
    let mut cn = String::new();
    let mut i: usize = 0;
    while i < items.len()
        invariant
            i <= items@.len(),
            match first {
                Some(w) => Some(w as int),
                None => None,
            } == fw,
            match data {
                Some(x) => Some(x@),
                None => None,
            } == d,
            f_bound == (|it: CollectionItem, i: int| bound_piece(it, i, fw, dt@)),
            f_args == (|it: CollectionItem, i: int| ty_arg_piece(it, i, fw)),
            f_ty == (|it: CollectionItem, i: int| stor_ty_piece(it, i, d)),
            f_def == (|it: CollectionItem, i: int| stor_def_piece(it, d)),
            f_gt == (|it: CollectionItem, i: int| get_tile_piece(it, i)),
            f_gmt == (|it: CollectionItem, i: int| get_mut_tile_piece(it, i)),
            f_cn == (|it: CollectionItem, i: int| child_node_piece(it, i)),
            bounds@ == concat_pieces(items@.take(i as int), f_bound),
            args@ == concat_pieces(items@.take(i as int), f_args),
            stor_ty@ == concat_pieces(items@.take(i as int), f_ty),
            stor_def@ == concat_pieces(items@.take(i as int), f_def),
            gt@ == concat_pieces(items@.take(i as int), f_gt),
            gmt@ == concat_pieces(items@.take(i as int), f_gmt),
            cn@ == concat_pieces(items@.take(i as int), f_cn),
        decreases items@.len() - i,
    {
        proof {
            lemma_concat_step(items@, i as int, f_bound);
            lemma_concat_step(items@, i as int, f_args);
            lemma_concat_step(items@, i as int, f_ty);
            lemma_concat_step(items@, i as int, f_def);
            lemma_concat_step(items@, i as int, f_gt);
            lemma_concat_step(items@, i as int, f_gmt);
            lemma_concat_step(items@, i as int, f_cn);
        }
        push_stor(&mut stor_ty, &mut stor_def, &items[i], i, data);
        push_generics(&mut bounds, &mut args, &items[i], i, first, dt.as_str());
        push_rules(&mut gt, &mut gmt, &mut cn, &items[i], i);
        i += 1;
    }
    proof {
        assert(items@.take(items@.len() as int) =~= items@);
    }
    let (ig, tg) = if has_data {
        let mut ig = String::from_str("<");
        ig.append(bounds.as_str());
        ig.append(">");
        let mut tg = String::from_str("<");
        tg.append(args.as_str());
        tg.append(">");
        (ig, tg)
    } else {
        (String::new(), String::new())
    };
    let collection = collection_items(dt.as_str(), items.len(), gt.as_str(), gmt.as_str(), cn.as_str());
    (ig, tg, stor_ty, stor_def, collection)
}

/// The items of the `Collection` implementation
pub open spec fn collection_items_spec(
    dt: Seq<char>,
    len: nat,
    gt: Seq<char>,
    gmt: Seq<char>,
    cn: Seq<char>,
) -> Seq<char> {
    "type Data = "@ + dt + "; fn is_empty(&self) -> bool { "@ + (if len == 0 {
        "true"@
    } else {
        "false"@
    }) + " } fn len(&self) -> usize { "@ + decimal(len) + "usize } "@
        + "fn get_tile(&self, index: usize) -> Option<&dyn ::kas::Tile> { match index { "@ + gt
        + "_ => None, } } "@
        + "fn get_mut_tile(&mut self, index: usize) -> Option<&mut dyn ::kas::Tile> { match index { "@
        + gmt + "_ => None, } } "@
        + "#[inline] fn child_node<'__n>(&'__n mut self, data: &'__n Self::Data, index: usize) -> Option<::kas::Node<'__n>> { use ::kas::Widget; match index { "@
        + cn + "_ => None, } }"@
}

fn collection_items(dt: &str, len: usize, gt: &str, gmt: &str, cn: &str) -> (r: String)
    ensures
        r@ == collection_items_spec(dt@, len as nat, gt@, gmt@, cn@),
{
    let mut collection = String::from_str("type Data = ");
    collection.append(dt);
    collection.append("; fn is_empty(&self) -> bool { ");
    collection.append(
        if len == 0 {
            "true"
        } else {
            "false"
        },
    );
    collection.append(" } fn len(&self) -> usize { ");
    push_decimal(&mut collection, len);
    collection.append("usize } ");
    collection.append("fn get_tile(&self, index: usize) -> Option<&dyn ::kas::Tile> { match index { ");
    collection.append(gt);
    collection.append("_ => None, } } ");
    collection.append(
        "fn get_mut_tile(&mut self, index: usize) -> Option<&mut dyn ::kas::Tile> { match index { ",
    );
    collection.append(gmt);
    collection.append("_ => None, } } ");
    collection.append(
        "#[inline] fn child_node<'__n>(&'__n mut self, data: &'__n Self::Data, index: usize) -> Option<::kas::Node<'__n>> { use ::kas::Widget; match index { ",
    );
    collection.append(cn);
    collection.append("_ => None, } }");
    collection
}

/// Source text of a grid cell
pub open spec fn cell_text(c: CellInfo) -> Seq<char> {
    "::kas::layout::GridCellInfo { col: "@ + decimal(c.col as nat) + "u32, last_col: "@ + decimal(
        c.last_col as nat,
    ) + "u32, row: "@ + decimal(c.row as nat) + "u32, last_row: "@ + decimal(c.last_row as nat)
        + "u32, }"@
}

/// Source text of grid dimensions
pub open spec fn dims_text(d: GridDimensions) -> Seq<char> {
    "::kas::layout::GridDimensions { cols: "@ + decimal(d.cols as nat) + "u32, col_spans: "@ + decimal(
        d.col_spans as nat,
    ) + "u32, rows: "@ + decimal(d.rows as nat) + "u32, row_spans: "@ + decimal(d.row_spans as nat)
        + "u32, }"@
}

impl CellInfo {
    /// Source text of this cell, as a `GridCellInfo` value
    pub fn to_text(&self) -> (r: String)
        ensures
            r@ == cell_text(*self),
    {
        let mut t = String::from_str("::kas::layout::GridCellInfo { col: ");
        push_decimal(&mut t, self.col as usize);
        t.append("u32, last_col: ");
        push_decimal(&mut t, self.last_col as usize);
        t.append("u32, row: ");
        push_decimal(&mut t, self.row as usize);
        t.append("u32, last_row: ");
        push_decimal(&mut t, self.last_row as usize);
        t.append("u32, }");
        t
    }
}

impl GridDimensions {
    /// Source text of these dimensions, as a `GridDimensions` value
    pub fn to_text(&self) -> (r: String)
        ensures
            r@ == dims_text(*self),
    {
        let mut t = String::from_str("::kas::layout::GridDimensions { cols: ");
        push_decimal(&mut t, self.cols as usize);
        t.append("u32, col_spans: ");
        push_decimal(&mut t, self.col_spans as usize);
        t.append("u32, rows: ");
        push_decimal(&mut t, self.rows as usize);
        t.append("u32, row_spans: ");
        push_decimal(&mut t, self.row_spans as usize);
        t.append("u32, }");
        t
    }
}

/// The block defining and constructing a collection of `items`
pub open spec fn collection_expand_spec(items: Seq<CollectionItem>) -> Seq<char> {
    let (ig, tg, stor_ty, stor_def, collection) = impl_parts_spec(items);
    "{ struct _Collection "@ + ig + " { "@ + stor_ty + " } impl "@ + ig
        + " ::kas::Collection for _Collection "@ + tg + " { "@ + collection + " } _Collection { "@
        + stor_def + " } }"@
}

proof fn lemma_collection_items_split(dt: Seq<char>, len: nat, gt: Seq<char>, gmt: Seq<char>, cn: Seq<char>) -> (rest:
    Seq<char>)
    ensures
        collection_items_spec(dt, len, gt, gmt, cn) == "type Data = "@ + dt + "; fn is_empty(&self) -> bool { "@ + (if len
            == 0 {
            "true"@
        } else {
            "false"@
        }) + " } fn len(&self) -> usize { "@ + decimal(len) + "usize } "@ + rest,
{
    let rest = "fn get_tile(&self, index: usize) -> Option<&dyn ::kas::Tile> { match index { "@ + gt
        + "_ => None, } } "@
        + "fn get_mut_tile(&mut self, index: usize) -> Option<&mut dyn ::kas::Tile> { match index { "@
        + gmt + "_ => None, } } "@
        + "#[inline] fn child_node<'__n>(&'__n mut self, data: &'__n Self::Data, index: usize) -> Option<::kas::Node<'__n>> { use ::kas::Widget; match index { "@
        + cn + "_ => None, } }"@;
    let b = if len == 0 {
        "true"@
    } else {
        "false"@
    };
    assert(collection_items_spec(dt, len, gt, gmt, cn) =~= "type Data = "@ + dt + "; fn is_empty(&self) -> bool { "@
        + b + " } fn len(&self) -> usize { "@ + decimal(len) + "usize } "@ + rest);
    rest
}

/// The generated `Collection` implementation reports emptiness consistently
/// with its length: its `is_empty` returns `true` exactly when there are no
/// items, and its `len` returns the number of items
#[verifier::rlimit(40)]
#[verifier::spinoff_prover]
pub proof fn law_collection_is_empty_agrees_with_len(items: Seq<CollectionItem>) -> (parts: (
    Seq<char>,
    Seq<char>,
))
    ensures
        ({
            let (pre, post) = parts;
            collection_expand_spec(items) == pre + "; fn is_empty(&self) -> bool { "@ + (if items.len() == 0 {
                "true"@
            } else {
                "false"@
            }) + " } fn len(&self) -> usize { "@ + decimal(items.len()) + "usize } "@ + post
        }),
{
    let (ig, tg, stor_ty, stor_def, collection) = impl_parts_spec(items);
    let dt = data_ty_text(items);
    let gt = concat_pieces(items, |it: CollectionItem, i: int| get_tile_piece(it, i));
    let gmt = concat_pieces(items, |it: CollectionItem, i: int| get_mut_tile_piece(it, i));
    let cn = concat_pieces(items, |it: CollectionItem, i: int| child_node_piece(it, i));
    assert(collection == collection_items_spec(dt, items.len(), gt, gmt, cn));
    let rest = lemma_collection_items_split(dt, items.len(), gt, gmt, cn);
    let b = if items.len() == 0 {
        "true"@
    } else {
        "false"@
    };
    let head = "{ struct _Collection "@ + ig + " { "@ + stor_ty + " } impl "@ + ig
        + " ::kas::Collection for _Collection "@ + tg + " { "@;
    let tail = " } _Collection { "@ + stor_def + " } }"@;
    assert(collection_expand_spec(items) == head + collection + tail);
    let pre = head + ("type Data = "@ + dt);
    let post = rest + tail;
    assert(head + collection + tail =~= pre + "; fn is_empty(&self) -> bool { "@ + b
        + " } fn len(&self) -> usize { "@ + decimal(items.len()) + "usize } "@ + post);
    (pre, post)
}

/// Expansion of `collection!`: a block defining and constructing a
/// collection of `items`
/// A collection of widgets (and labels) of the `collection!` macro
pub struct Collection(pub Vec<CollectionItem>);

/// A collection of widgets placed in grid cells (`cell_collection!`)
pub struct CellCollection(pub Vec<CellInfo>, pub Collection);

impl Collection {
    /// The block defining and constructing the collection
    pub fn expand(&self) -> (r: String)
        ensures
            r@ == collection_expand_spec(self.0@),
    {
        let items = &self.0;
        let (ig, tg, stor_ty, stor_def, collection) = impl_parts(items);
        let mut t = String::from_str("{ struct _Collection ");
        t.append(ig.as_str());
        t.append(" { ");
        t.append(stor_ty.as_str());
        t.append(" } impl ");
        t.append(ig.as_str());
        t.append(" ::kas::Collection for _Collection ");
        t.append(tg.as_str());
        t.append(" { ");
        t.append(collection.as_str());
        t.append(" } _Collection { ");
        t.append(stor_def.as_str());
        t.append(" } }");
        t
    }
    }

/// Match arms of `cell_info` for the cells
pub open spec fn cell_rules(cells: Seq<CellInfo>) -> Seq<char>
    decreases cells.len(),
{
    if cells.len() == 0 {
        Seq::empty()
    } else {
        cell_rules(cells.drop_last()) + (decimal((cells.len() - 1) as nat) + "usize => Some("@
            + cell_text(cells.last()) + "), "@)
    }
    }

/// The block defining and constructing a cell collection
pub open spec fn cell_collection_expand_spec(
    cells: Seq<CellInfo>,
    items: Seq<CollectionItem>,
    dim: GridDimensions,
) -> Seq<char> {
    let (ig, tg, stor_ty, stor_def, collection) = impl_parts_spec(items);
    "{ struct _Collection "@ + ig + " { "@ + stor_ty + " } impl "@ + ig
        + " ::kas::Collection for _Collection "@ + tg + " { "@ + collection + " } impl "@ + ig
        + " ::kas::CellCollection for _Collection "@ + tg
        + " { fn cell_info(&self, index: usize) -> Option<::kas::layout::GridCellInfo> { match index { "@
        + cell_rules(cells) + "_ => None, } } "@
        + "fn grid_dimensions(&self) -> ::kas::layout::GridDimensions { "@ + dims_text(dim)
        + " } } _Collection { "@ + stor_def + " } }"@
    }

fn push_cell_rules(cells: &Vec<CellInfo>) -> (r: String)
    ensures
        r@ == cell_rules(cells@),
{
    let mut rules = String::new();
    let mut i: usize = 0;
    while i < cells.len()
        invariant
            i <= cells@.len(),
            rules@ == cell_rules(cells@.take(i as int)),
        decreases cells@.len() - i,
    {
        let ghost r0 = rules@;
        push_decimal(&mut rules, i);
        rules.append("usize => Some(");
        let text = cells[i].to_text();
        rules.append(text.as_str());
        rules.append("), ");
        proof {
            assert(cells@.take(i + 1).drop_last() =~= cells@.take(i as int));
            assert(rules@ =~= r0 + (decimal(i as nat) + "usize => Some("@ + cell_text(cells@[i as int])
                + "), "@));
        }
        i += 1;
    }
    proof {
        assert(cells@.take(cells@.len() as int) =~= cells@);
    }
    rules
    }

/// Expansion of `cell_collection!`: a block defining and constructing a
/// collection of `items` placed in the grid `cells`
impl CellCollection {
    /// The block defining and constructing the cell collection
    pub fn expand(&self) -> (r: String)
        requires
            self.0@.len() <= u32::MAX,
            forall|i: int| 0 <= i < self.0@.len() ==> #[trigger] self.0@[i].last_col < u32::MAX,
            forall|i: int| 0 <= i < self.0@.len() ==> #[trigger] self.0@[i].last_row < u32::MAX,
        ensures
            exists|dim: GridDimensions|
                (dim.cols as int, dim.col_spans as int, dim.rows as int, dim.row_spans as int) == dims_of(
                    self.0@,
                ) && r@ == cell_collection_expand_spec(self.0@, self.1.0@, dim),
    {
        let cells = &self.0;
        let items = &self.1.0;
        let (ig, tg, stor_ty, stor_def, collection) = impl_parts(items);
        let rules = push_cell_rules(cells);
        let dim = grid_dimensions(cells);
        let dim_text = dim.to_text();
        let mut t = String::from_str("{ struct _Collection ");
        t.append(ig.as_str());
        t.append(" { ");
        t.append(stor_ty.as_str());
        t.append(" } impl ");
        t.append(ig.as_str());
        t.append(" ::kas::Collection for _Collection ");
        t.append(tg.as_str());
        t.append(" { ");
        t.append(collection.as_str());
        t.append(" } impl ");
        t.append(ig.as_str());
        t.append(" ::kas::CellCollection for _Collection ");
        t.append(tg.as_str());
        t.append(
            " { fn cell_info(&self, index: usize) -> Option<::kas::layout::GridCellInfo> { match index { ",
        );
        t.append(rules.as_str());
        t.append("_ => None, } } ");
        t.append("fn grid_dimensions(&self) -> ::kas::layout::GridDimensions { ");
        t.append(dim_text.as_str());
        t.append(" } } _Collection { ");
        t.append(stor_def.as_str());
        t.append(" } }");
        assert(t@ == cell_collection_expand_spec(cells@, items@, dim));
        t
    }
    }

} // verus!
