use kas_verified::macros::collection::{
    parse_last, CellCollection, CellEnd, CellError, CellInfo, Collection, CollectionItem,
};
use kas_verified::macros::collection::GridDimensions;
use kas_verified::macros::collection_parse::ParseError;
use kas_verified::macros::parser::parse_grid;
use kas_verified::macros::tokens::Tok;

/// Tokens of `src`, written with spaces between tokens; a run of punctuation
/// characters is joined
fn lex(src: &str) -> Vec<Tok> {
    let mut toks = Vec::new();
    for word in src.split_whitespace() {
        let first = word.chars().next().unwrap();
        if first == '"' || first.is_ascii_digit() {
            toks.push(Tok::Literal(word.to_string()));
        } else if "([{".contains(first) {
            toks.push(Tok::Open(word.to_string()));
        } else if ")]}".contains(first) {
            toks.push(Tok::Close(word.to_string()));
        } else if first.is_alphanumeric() || first == '_' {
            toks.push(Tok::Ident(word.to_string()));
        } else {
            let n = word.chars().count();
            for (i, c) in word.chars().enumerate() {
                toks.push(Tok::Punct(c.to_string(), i + 1 < n));
            }
        }
    }
    toks
}

fn cell(col: u32, last_col: u32, row: u32, last_row: u32) -> CellInfo {
    CellInfo { col, last_col, row, last_row }
}

#[test]
fn collection_parses_labels_and_widgets() {
    let c = Collection::parse(&lex(r#""Hello" , "World" . align ( hints ) , "x" . pack ( p ) , make ( 1 , 2 ) ,"#))
        .unwrap();
    assert_eq!(c.0.len(), 4);
    assert_eq!(
        c.0[0],
        CollectionItem::Label(
            "_stor0".to_string(),
            "::kas::widgets::Label<&'static str>".to_string(),
            "::kas::widgets::Label::new(\"Hello\")".to_string(),
        )
    );
    assert_eq!(
        c.0[1],
        CollectionItem::Label(
            "_stor1".to_string(),
            "::kas::widgets::adapt::Align<::kas::widgets::Label<&'static str>>".to_string(),
            "::kas::widgets::adapt::Align::new(::kas::widgets::Label::new(\"World\"), hints )".to_string(),
        )
    );
    match &c.0[2] {
        CollectionItem::Label(name, ty, _) => {
            assert_eq!(name, "_stor2");
            assert!(ty.starts_with("::kas::widgets::adapt::Pack<"));
        }
        other => panic!("unexpected {other:?}"),
    }
    assert_eq!(c.0[3], CollectionItem::Widget("_stor3".to_string(), "make ( 1 , 2 ) ".to_string()));
}

#[test]
fn collection_parse_errors() {
    assert_eq!(Collection::parse(&lex(r#""a" "b""#)).err(), Some(ParseError::ExpectedComma(1)));
    assert_eq!(Collection::parse(&lex(r#""a" . align hints"#)).err(), Some(ParseError::ExpectedParens(3)));
    assert_eq!(Collection::parse(&lex(", x")).err(), Some(ParseError::ExpectedExpression(0)));
    assert_eq!(Collection::parse(&lex(r#""a" . pack ( )"#)).err(), Some(ParseError::ExpectedExpression(4)));
    assert_eq!(Collection::parse(&lex(r#""a" . pack ( x"#)).err(), Some(ParseError::Unclosed(3)));
    assert!(Collection::parse(&lex("")).unwrap().0.is_empty());
}

#[test]
fn cell_collection_grid() {
    let src = r#"( 0 , 1 ) => "a" , ( 1 ..+ 2 , 1 ) => { edit ( ) } ( 0 ..= 1 , 2 .. 4 ) => "c""#;
    let cc = CellCollection::parse(&lex(src)).unwrap();
    assert_eq!(cc.0, vec![cell(0, 0, 1, 1), cell(1, 2, 1, 1), cell(0, 1, 2, 3)]);
    assert_eq!(cc.1 .0.len(), 3);
    assert_eq!(cc.1 .0[1], CollectionItem::Widget("_stor1".to_string(), "edit ( ) ".to_string()));
}

#[test]
fn cell_collection_grid_errors() {
    assert_eq!(CellCollection::parse(&lex(r#"( 0 , 1 ) "a""#)).err(), Some(ParseError::ExpectedArrow(5)));
    assert_eq!(
        CellCollection::parse(&lex(r#"( 2 ..= 1 , 0 ) => "a""#)).err(),
        Some(ParseError::BadRange(CellError::ExpectedAtLeast(2)))
    );
    assert_eq!(
        CellCollection::parse(&lex(r#"( 2 .. 2 , 0 ) => "a""#)).err(),
        Some(ParseError::BadRange(CellError::ExpectedAbove(2)))
    );
    assert_eq!(CellCollection::parse(&lex(r#"( 0 1 ) => "a""#)).err(), Some(ParseError::ExpectedComma(2)));
    assert_eq!(CellCollection::parse(&lex(r#"( x , 1 ) => "a""#)).err(), Some(ParseError::ExpectedInteger(1)));
    assert_eq!(CellCollection::parse(&lex(r#""a""#)).err(), Some(ParseError::ExpectedParens(0)));
    assert_eq!(
        CellCollection::parse(&lex(r#"( 0 , 0 ) => { "a" x }"#)).err(),
        Some(ParseError::Unexpected(9))
    );
    assert_eq!(
        CellCollection::parse(&lex(r#"( 0 , 0 ) => "a" ( 1 , 0 ) => "b""#)).err(),
        Some(ParseError::ExpectedComma(8))
    );
    // `s..+0` is `s..s`: no cell
    assert_eq!(
        CellCollection::parse(&lex("( 0 ..+ 0 , 0 ) => x")).err(),
        Some(ParseError::BadRange(CellError::ExpectedAbove(0)))
    );
    assert_eq!(
        CellCollection::parse(&lex("( 0 , 4294967295 ..+ 1 ) => x")).err(),
        Some(ParseError::Overflow(0))
    );
    assert_eq!(
        CellCollection::parse(&lex("( 3 ..+ 0 , 0 ) => x")).err(),
        Some(ParseError::BadRange(CellError::ExpectedAbove(3)))
    );
    assert_eq!(
        CellCollection::parse(&lex("( 5 , 3 ..+ 0 ) => x")).err(),
        Some(ParseError::BadRange(CellError::ExpectedAbove(3)))
    );
}

#[test]
fn cell_collection_aligned() {
    let cc = CellCollection::parse(&lex(r#"aligned_column row ! [ "a" , "b" ] , row ! [ "c" , ]"#)).unwrap();
    assert_eq!(cc.0, vec![cell(0, 0, 0, 0), cell(1, 1, 0, 0), cell(0, 0, 1, 1)]);
    assert_eq!(cc.1 .0.len(), 3);
    let cc = CellCollection::parse(&lex(r#"aligned_row column ! [ "a" , "b" ] , column ! [ "c" ]"#)).unwrap();
    assert_eq!(cc.0, vec![cell(0, 0, 0, 0), cell(0, 0, 1, 1), cell(1, 1, 0, 0)]);
    match &cc.1 .0[2] {
        CollectionItem::Label(name, _, _) => assert_eq!(name, "_stor2"),
        other => panic!("unexpected {other:?}"),
    }
}

#[test]
fn cell_collection_aligned_errors() {
    assert_eq!(
        CellCollection::parse(&lex("aligned_column column ! [ ]")).err(),
        Some(ParseError::ExpectedKeyword(1))
    );
    assert_eq!(CellCollection::parse(&lex("aligned_column row [ ]")).err(), Some(ParseError::ExpectedKeyword(2)));
    assert_eq!(CellCollection::parse(&lex("aligned_column row ! ( )")).err(), Some(ParseError::ExpectedBrackets(3)));
    assert_eq!(
        CellCollection::parse(&lex(r#"aligned_column row ! [ "a" ] row ! [ ]"#)).err(),
        Some(ParseError::ExpectedComma(6))
    );
    assert_eq!(CellCollection::parse(&lex(r#"aligned_row column ! [ "a" "#)).err(), Some(ParseError::Unclosed(3)));
}

#[test]
fn range_forms_agree() {
    // `2` = `2..+1` = `2..3` = `2..=2` while `5..+2` = `5..7` = `5..=6`
    for src in ["( 2 , 0 )", "( 2 ..+ 1 , 0 )", "( 2 .. 3 , 0 )", "( 2 ..= 2 , 0 )"] {
        let cc = CellCollection::parse(&lex(&format!("{src} => x"))).unwrap();
        assert_eq!(cc.0, vec![cell(2, 2, 0, 0)]);
    }
    for src in ["( 5 ..+ 2 , 0 )", "( 5 .. 7 , 0 )", "( 5 ..= 6 , 0 )"] {
        let cc = CellCollection::parse(&lex(&format!("{src} => x"))).unwrap();
        assert_eq!(cc.0, vec![cell(5, 6, 0, 0)]);
    }
    assert_eq!(parse_last(5, CellEnd::Count(2)), Ok(6));
    assert_eq!(parse_last(5, CellEnd::Exclusive(7)), Ok(6));
    assert_eq!(parse_last(5, CellEnd::Inclusive(6)), Ok(6));
    assert_eq!(parse_last(5, CellEnd::Single), Ok(5));
    assert_eq!(parse_last(5, CellEnd::Count(0)), Err(CellError::ExpectedAbove(5)));
    assert_eq!(parse_last(5, CellEnd::Exclusive(5)), Err(CellError::ExpectedAbove(5)));
}

#[test]
fn labels_only_collection_takes_unit_data() {
    let c = Collection::parse(&lex(r#""a" , "b" . align ( h )"#)).unwrap();
    assert!(c.expand().contains("type Data = ();"));
    let c = Collection::parse(&lex(r#""a" , w"#)).unwrap();
    assert!(c.expand().contains("type Data = <_W1 as ::kas::Widget>::Data;"));
}

#[test]
fn mixed_grid_places_columns_and_rows_after_used_cells() {
    let src = r#"column ! [ "a" , _ , "b" ] , row ! [ _ , "c" ] , ( 5 , 0 ) => x"#;
    let (dim, cells, items) = parse_grid(&lex(src)).unwrap();
    assert_eq!(cells, vec![cell(0, 0, 0, 0), cell(0, 0, 2, 2), cell(1, 1, 3, 3), cell(5, 5, 0, 0)]);
    assert_eq!(dim, GridDimensions { cols: 6, col_spans: 0, rows: 4, row_spans: 0 });
    assert_eq!(items.len(), 4);
    assert_eq!(items[3], CollectionItem::Widget("_stor3".to_string(), "x ".to_string()));
    // a braced item needs no comma after it; a trailing comma is accepted
    let (dim2, cells2, items2) = parse_grid(&lex("( 0 , 0 ) => { a } row ! [ b , ] ,")).unwrap();
    assert_eq!(cells2, vec![cell(0, 0, 0, 0), cell(0, 0, 1, 1)]);
    assert_eq!(dim2, GridDimensions { cols: 1, col_spans: 0, rows: 2, row_spans: 0 });
    assert_eq!(items2.len(), 2);
    let (dim3, cells3, items3) = parse_grid(&lex("")).unwrap();
    assert_eq!((dim3, cells3.len(), items3.len()), (GridDimensions::default(), 0, 0));
}

#[test]
fn mixed_grid_errors() {
    assert_eq!(parse_grid(&lex("foo ! [ x ]")).err(), Some(ParseError::ExpectedKeyword(0)));
    assert_eq!(parse_grid(&lex("column ! x")).err(), Some(ParseError::ExpectedBrackets(2)));
    assert_eq!(parse_grid(&lex("column ! [ x")).err(), Some(ParseError::Unclosed(2)));
    assert_eq!(parse_grid(&lex("column ! [ _ x ]")).err(), Some(ParseError::ExpectedComma(4)));
    assert_eq!(parse_grid(&lex("column ! [ a ] x")).err(), Some(ParseError::ExpectedComma(5)));
    assert_eq!(parse_grid(&lex("( 4294967295 , 0 ) => a")).err(), Some(ParseError::Overflow(0)));
    // a column after the last usable one has no room for an item
    let full = "( 4294967294 , 0 ) => a , column ! [ b ]";
    assert_eq!(parse_grid(&lex(full)).err(), Some(ParseError::Overflow(9)));
    let (dim, cells, _) = parse_grid(&lex("( 4294967294 , 0 ) => a , column ! [ _ ]")).unwrap();
    assert_eq!(dim.cols, u32::MAX);
    assert_eq!(cells.len(), 1);
}
