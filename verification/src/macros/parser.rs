//! Parsing a grid written with mixed entries: whole columns `column![..]`,
//! whole rows `row![..]` (an entry `_` leaves its cell empty) and single
//! cells `cell => item`. A column is placed after the columns used so far,
//! a row below the rows used so far.

use crate::macros::collection::{dims_of, grid_dimensions, CellInfo, CollectionItem, GridDimensions, NameGenerator};
use crate::macros::collection_parse::{
    cell_spec, grid_item_spec, is_joint, item_spec, item_text, joint, lemma_cell_advances, lemma_grid_item_advances,
    lemma_item_advances, opens, opens_exec, parse_grid_item, texts, ParseError,
};
use crate::macros::parse::{find_close, group_close, lemma_close_from_range};
use crate::macros::tokens::{is_ident, is_ident_spec, is_punct, is_punct_spec, Tok};
use vstd::prelude::*;

verus! {

/// The cell of entry `i` of a line at index `fixed`: in a column, row `i`
/// of column `fixed`; in a row, column `i` of row `fixed`
pub open spec fn line_cell(fixed: int, i: int, is_column: bool) -> CellInfo {
    if is_column {
        CellInfo { col: fixed as u32, last_col: fixed as u32, row: i as u32, last_row: i as u32 }
    } else {
        CellInfo { col: i as u32, last_col: i as u32, row: fixed as u32, last_row: fixed as u32 }
    }
}

/// The entries of a line from `pos` to `end` (inside its brackets), `_` or
/// an item, separated by commas, the first having index `i` and its first
/// item stored as the `n`-th name: the indices of the items and their
/// texts. When `ok` is false the line has no room in the grid, and its
/// first item is an overflow of the line starting at `at`.
pub open spec fn grid_line_spec(toks: Seq<Tok>, pos: int, end: int, n: nat, i: int, ok: bool, at: int) -> Result<
    (Seq<int>, Seq<(bool, Seq<char>, Seq<char>, Seq<char>)>),
    ParseError,
>
    decreases end - pos,
{
    if !(0 <= pos < end && end <= toks.len()) {
        Ok((Seq::empty(), Seq::empty()))
    } else if is_ident_spec(toks[pos], "_"@) {
        if pos + 1 >= end {
            Ok((Seq::empty(), Seq::empty()))
        } else if is_punct_spec(toks[pos + 1], ","@) {
            grid_line_spec(toks, pos + 2, end, n, i + 1, ok, at)
        } else {
            Err(ParseError::ExpectedComma((pos + 1) as usize))
        }
    } else {
        proof {
            lemma_item_advances(toks, pos, end, n);
        }
        match item_spec(toks, pos, end, n) {
            Err(e) => Err(e),
            Ok((it, k)) => if !ok {
                Err(ParseError::Overflow(at as usize))
            } else if k >= end {
                Ok((seq![i], seq![it]))
            } else if !is_punct_spec(toks[k], ","@) {
                Err(ParseError::ExpectedComma(k as usize))
            } else {
                match grid_line_spec(toks, k + 1, end, n + 1, i + 1, ok, at) {
                    Err(e) => Err(e),
                    Ok((is, its)) => Ok((seq![i] + is, seq![it] + its)),
                }
            },
        }
    }
}

/// The cells and item texts of a grid from `pos` to `end`, after the cells
/// `before`, the first item stored as the `n`-th name: entries separated by
/// commas (optional after a braced item), each `column![..]` (at the column
/// after those used so far), `row![..]` (at the row below those used so
/// far) or `cell => item`. A cell reaching index `u32::MAX` overflows the
/// grid's size.
pub open spec fn mixed_grid_spec(toks: Seq<Tok>, pos: int, end: int, n: nat, before: Seq<CellInfo>) -> Result<
    (Seq<CellInfo>, Seq<(bool, Seq<char>, Seq<char>, Seq<char>)>),
    ParseError,
>
    decreases end - pos,
{
    if !(0 <= pos < end && end <= toks.len()) {
        Ok((Seq::empty(), Seq::empty()))
    } else if pos + 1 < end && is_punct_spec(toks[pos + 1], "!"@) {
        let is_column = is_ident_spec(toks[pos], "column"@);
        if !is_column && !is_ident_spec(toks[pos], "row"@) {
            Err(ParseError::ExpectedKeyword(pos as usize))
        } else if !(pos + 2 < end && opens(toks[pos + 2], "["@)) {
            Err(ParseError::ExpectedBrackets((pos + 2) as usize))
        } else {
            proof {
                lemma_close_from_range(toks, pos + 3, end, 1);
            }
            match group_close(toks, pos + 2, end) {
                None => Err(ParseError::Unclosed((pos + 2) as usize)),
                Some(c) => {
                    let fixed = if is_column {
                        dims_of(before).0
                    } else {
                        dims_of(before).2
                    };
                    match grid_line_spec(toks, pos + 3, c, n, 0, fixed < u32::MAX, pos) {
                        Err(e) => Err(e),
                        Ok((idx, its)) => {
                            let cs = idx.map_values(|i: int| line_cell(fixed, i, is_column));
                            if c + 1 >= end {
                                Ok((cs, its))
                            } else if !is_punct_spec(toks[c + 1], ","@) {
                                Err(ParseError::ExpectedComma((c + 1) as usize))
                            } else {
                                match mixed_grid_spec(toks, c + 2, end, n + its.len(), before + cs) {
                                    Err(e) => Err(e),
                                    Ok((cs2, its2)) => Ok((cs + cs2, its + its2)),
                                }
                            }
                        },
                    }
                },
            }
        }
    } else {
        proof {
            lemma_cell_advances(toks, pos, end);
        }
        match cell_spec(toks, pos, end) {
            Err(e) => Err(e),
            Ok((cell, p)) => if cell.last_col == u32::MAX || cell.last_row == u32::MAX {
                Err(ParseError::Overflow(pos as usize))
            } else if !(p + 1 < end && is_joint(toks[p], "="@) && is_punct_spec(toks[p + 1], ">"@)) {
                Err(ParseError::ExpectedArrow(p as usize))
            } else {
                proof {
                    lemma_grid_item_advances(toks, p + 2, end, n);
                }
                match grid_item_spec(toks, p + 2, end, n) {
                    Err(e) => Err(e),
                    Ok((it, k, braced)) => if k >= end {
                        Ok((seq![cell], seq![it]))
                    } else if is_punct_spec(toks[k], ","@) || braced {
                        let next = if is_punct_spec(toks[k], ","@) {
                            k + 1
                        } else {
                            k
                        };
                        match mixed_grid_spec(toks, next, end, n + 1, before.push(cell)) {
                            Err(e) => Err(e),
                            Ok((cs2, its2)) => Ok((seq![cell] + cs2, seq![it] + its2)),
                        }
                    } else {
                        Err(ParseError::ExpectedComma(k as usize))
                    },
                }
            },
        }
    }
}

/// Cells which fit the grid's size arithmetic
pub open spec fn cells_fit(cells: Seq<CellInfo>) -> bool {
    forall|j: int| 0 <= j < cells.len() ==> (#[trigger] cells[j]).last_col < u32::MAX && cells[j].last_row < u32::MAX
}

/// Parse the entries of a line from `pos` to `end`, appending their cells
/// (at index `fixed` of the line's direction) and items
fn parse_line_into(
    toks: &Vec<Tok>,
    pos: usize,
    end: usize,
    i: usize,
    fixed: u32,
    is_column: bool,
    ok: bool,
    at: usize,
    names: &mut NameGenerator,
    cells: &mut Vec<CellInfo>,
    items: &mut Vec<CollectionItem>,
) -> (r: Result<(), ParseError>)
    requires
        pos <= end <= toks@.len(),
        toks@.len() <= u32::MAX,
        i <= pos,
        old(names).0 <= pos,
        old(cells)@.len() <= pos,
        ok ==> fixed < u32::MAX,
        cells_fit(old(cells)@),
    ensures
        match grid_line_spec(toks@, pos as int, end as int, old(names).0 as nat, i as int, ok, at as int) {
            Ok((idx, its)) => r is Ok && final(cells)@ == old(cells)@ + idx.map_values(
                |j: int| line_cell(fixed as int, j, is_column),
            ) && texts(final(items)@) == texts(old(items)@) + its && final(names).0 == old(names).0 + its.len()
                && final(cells)@.len() <= end && cells_fit(final(cells)@) && final(names).0 <= end,
            Err(e) => r == Err::<(), ParseError>(e),
        },
    decreases end - pos,
{
    let ghost cells0 = cells@;
    let ghost items0 = items@;
    let ghost n0 = names.0;
    if pos >= end {
        assert(cells@ + Seq::<int>::empty().map_values(|j: int| line_cell(fixed as int, j, is_column)) =~= cells@);
        assert(texts(items@) + Seq::empty() =~= texts(items@));
        return Ok(());
    }
    if is_ident(&toks[pos], "_") {
        if end - pos <= 1 {
            assert(cells@ + Seq::<int>::empty().map_values(|j: int| line_cell(fixed as int, j, is_column))
                =~= cells@);
            assert(texts(items@) + Seq::empty() =~= texts(items@));
            return Ok(());
        }
        if !is_punct(&toks[pos + 1], ",") {
            return Err(ParseError::ExpectedComma(pos + 1));
        }
        return parse_line_into(toks, pos + 2, end, i + 1, fixed, is_column, ok, at, names, cells, items);
    }
    proof {
        lemma_item_advances(toks@, pos as int, end as int, names.0 as nat);
    }
    let (item, k) = match CollectionItem::parse(toks, pos, end, names) {
        Ok(x) => x,
        Err(e) => return Err(e),
    };
    if !ok {
        return Err(ParseError::Overflow(at));
    }
    let cell = if is_column {
        CellInfo::new(fixed, i as u32)
    } else {
        CellInfo::new(i as u32, fixed)
    };
    assert(cell == line_cell(fixed as int, i as int, is_column));
    cells.push(cell);
    items.push(item);
    assert(texts(items@) =~= texts(items0) + seq![item_text(item)]);
    assert(cells_fit(cells@)) by {
        assert forall|j: int| 0 <= j < cells@.len() implies (#[trigger] cells@[j]).last_col < u32::MAX
            && cells@[j].last_row < u32::MAX by {
            if j < cells0.len() {
                assert(cells@[j] == cells0[j]);
            }
        }
    }
    if k >= end {
        assert(seq![i as int].map_values(|j: int| line_cell(fixed as int, j, is_column)) =~= seq![cell]);
        return Ok(());
    }
    if !is_punct(&toks[k], ",") {
        return Err(ParseError::ExpectedComma(k));
    }
    let ghost cells1 = cells@;
    let ghost items1 = items@;
    let r = parse_line_into(toks, k + 1, end, i + 1, fixed, is_column, ok, at, names, cells, items);
    proof {
        match grid_line_spec(toks@, k + 1, end as int, (n0 + 1) as nat, i + 1, ok, at as int) {
            Ok((is, its)) => {
                let f = |j: int| line_cell(fixed as int, j, is_column);
                assert((seq![i as int] + is).map_values(f) =~= seq![cell] + is.map_values(f));
                assert(cells@ =~= cells0 + (seq![i as int] + is).map_values(f));
                assert(texts(items@) =~= texts(items0) + (seq![item_text(item)] + its));
            },
            Err(_) => {},
        }
    }
    r
}

/// Parse the grid entries from `pos` to `end`, appending their cells and
/// items
#[verifier::rlimit(60)]
#[verifier::spinoff_prover]
fn parse_mixed_into(
    toks: &Vec<Tok>,
    pos: usize,
    end: usize,
    names: &mut NameGenerator,
    cells: &mut Vec<CellInfo>,
    items: &mut Vec<CollectionItem>,
) -> (r: Result<(), ParseError>)
    requires
        pos <= end <= toks@.len(),
        toks@.len() <= u32::MAX,
        old(names).0 <= pos,
        old(cells)@.len() <= pos,
        cells_fit(old(cells)@),
    ensures
        match mixed_grid_spec(toks@, pos as int, end as int, old(names).0 as nat, old(cells)@) {
            Ok((cs, its)) => r is Ok && final(cells)@ == old(cells)@ + cs && texts(final(items)@) == texts(
                old(items)@,
            ) + its && cells_fit(final(cells)@) && final(cells)@.len() <= end,
            Err(e) => r == Err::<(), ParseError>(e),
        },
    decreases end - pos,
{
    let ghost cells0 = cells@;
    let ghost items0 = items@;
    let ghost n0 = names.0;
    if pos >= end {
        assert(cells@ + Seq::empty() =~= cells@);
        assert(texts(items@) + Seq::empty() =~= texts(items@));
        return Ok(());
    }
    if end - pos > 1 && is_punct(&toks[pos + 1], "!") {
        let is_column = is_ident(&toks[pos], "column");
        if !is_column && !is_ident(&toks[pos], "row") {
            return Err(ParseError::ExpectedKeyword(pos));
        }
        if !(end - pos > 2 && opens_exec(&toks[pos + 2], "[")) {
            return Err(ParseError::ExpectedBrackets(pos + 2));
        }
        proof {
            lemma_close_from_range(toks@, pos + 3, end as int, 1);
        }
        let c = match find_close(toks, pos + 2, end) {
            Some(c) => c,
            None => return Err(ParseError::Unclosed(pos + 2)),
        };
        let dim = grid_dimensions(cells);
        let fixed = if is_column {
            dim.cols
        } else {
            dim.rows
        };
        let ok = fixed < u32::MAX;
        let r = parse_line_into(toks, pos + 3, c, 0, fixed, is_column, ok, pos, names, cells, items);
        match r {
            Ok(()) => {},
            Err(e) => return Err(e),
        }
        let ghost line = grid_line_spec(toks@, pos + 3, c as int, n0 as nat, 0, ok, pos as int)->Ok_0;
        let ghost cs = line.0.map_values(|i: int| line_cell(fixed as int, i, is_column));
        assert(cs == line.0.map_values(
            |i: int| line_cell(if is_column { dims_of(cells0).0 } else { dims_of(cells0).2 }, i, is_column),
        ));
        if end - c <= 1 {
            return Ok(());
        }
        if !is_punct(&toks[c + 1], ",") {
            return Err(ParseError::ExpectedComma(c + 1));
        }
        let r2 = parse_mixed_into(toks, c + 2, end, names, cells, items);
        proof {
            match mixed_grid_spec(toks@, c + 2, end as int, (n0 + line.1.len()) as nat, cells0 + cs) {
                Ok((cs2, its2)) => {
                    assert(cells@ =~= cells0 + (cs + cs2));
                    assert(texts(items@) =~= texts(items0) + (line.1 + its2));
                },
                Err(_) => {},
            }
        }
        return r2;
    }
    proof {
        lemma_cell_advances(toks@, pos as int, end as int);
    }
    let (cell, p) = match CellInfo::parse(toks, pos, end) {
        Ok(x) => x,
        Err(e) => return Err(e),
    };
    if cell.last_col == u32::MAX || cell.last_row == u32::MAX {
        return Err(ParseError::Overflow(pos));
    }
    if !(end - p > 1 && joint(&toks[p], "=") && is_punct(&toks[p + 1], ">")) {
        return Err(ParseError::ExpectedArrow(p));
    }
    proof {
        lemma_grid_item_advances(toks@, p + 2, end as int, names.0 as nat);
    }
    let (item, k, braced) = match parse_grid_item(toks, p + 2, end, names) {
        Ok(x) => x,
        Err(e) => return Err(e),
    };
    cells.push(cell);
    items.push(item);
    assert(texts(items@) =~= texts(items0) + seq![item_text(item)]);
    assert(cells_fit(cells@)) by {
        assert forall|j: int| 0 <= j < cells@.len() implies (#[trigger] cells@[j]).last_col < u32::MAX
            && cells@[j].last_row < u32::MAX by {
            if j < cells0.len() {
                assert(cells@[j] == cells0[j]);
            }
        }
    }
    if k >= end {
        assert(cells@ =~= cells0 + seq![cell]);
        return Ok(());
    }
    let next = if is_punct(&toks[k], ",") {
        k + 1
    } else if braced {
        k
    } else {
        return Err(ParseError::ExpectedComma(k));
    };
    let r = parse_mixed_into(toks, next, end, names, cells, items);
    proof {
        match mixed_grid_spec(toks@, next as int, end as int, (n0 + 1) as nat, cells0.push(cell)) {
            Ok((cs2, its2)) => {
                assert(cells@ =~= cells0 + (seq![cell] + cs2));
                assert(texts(items@) =~= texts(items0) + (seq![item_text(item)] + its2));
            },
            Err(_) => {},
        }
    }
    r
}

/// Parse a grid of mixed entries (see [`mixed_grid_spec`]): its
/// dimensions, the cells and the items, in order, or the first error
pub fn parse_grid(toks: &Vec<Tok>) -> (r: Result<(GridDimensions, Vec<CellInfo>, Vec<CollectionItem>), ParseError>)
    requires
        toks@.len() <= u32::MAX,
    ensures
        match mixed_grid_spec(toks@, 0, toks@.len() as int, 0, Seq::empty()) {
            Ok((cs, its)) => r matches Ok((dim, cells, items)) && cells@ == cs && texts(items@) == its && (
            dim.cols as int,
            dim.col_spans as int,
            dim.rows as int,
            dim.row_spans as int,
            ) == dims_of(cs),
            Err(e) => r == Err::<(GridDimensions, Vec<CellInfo>, Vec<CollectionItem>), ParseError>(e),
        },
{
    let mut names = NameGenerator(0);
    let mut cells: Vec<CellInfo> = Vec::new();
    let mut items: Vec<CollectionItem> = Vec::new();
    assert(texts(items@) =~= Seq::empty());
    match parse_mixed_into(toks, 0, toks.len(), &mut names, &mut cells, &mut items) {
        Ok(()) => {
            proof {
                match mixed_grid_spec(toks@, 0, toks@.len() as int, 0, Seq::empty()) {
                    Ok((cs, its)) => {
                        assert(Seq::<CellInfo>::empty() + cs =~= cs);
                        assert(Seq::<(bool, Seq<char>, Seq<char>, Seq<char>)>::empty() + its =~= its);
                    },
                    Err(_) => {},
                }
            }
            let dim = grid_dimensions(&cells);
            Ok((dim, cells, items))
        },
        Err(e) => Err(e),
    }
}

} // verus!
