use kas_verified::macros::autoimpl::Member;
use kas_verified::macros::collection::{CellInfo, GridDimensions};
use kas_verified::macros::collection_parse::ParseError;
use kas_verified::macros::make_layout::{Layout, LayoutDir, Tree};
use kas_verified::macros::tokens::Tok;
use kas_verified::macros::widget::{Child, ChildIdent};

/// Tokens of `src`, written with spaces between tokens; a run of punctuation
/// characters is joined
fn lex(src: &str) -> Vec<Tok> {
    let mut toks = Vec::new();
    for word in src.split_whitespace() {
        let first = word.chars().next().unwrap();
        if first == '"' || first.is_ascii_digit() {
            toks.push(Tok::Literal(word.to_string()));
        } else if "([{".contains(first) {
            toks.push(Tok::Open(word.to_string()));
        } else if ")]}".contains(first) {
            toks.push(Tok::Close(word.to_string()));
        } else if first.is_alphanumeric() || first == '_' {
            toks.push(Tok::Ident(word.to_string()));
        } else {
            let n = word.chars().count();
            for (i, c) in word.chars().enumerate() {
                toks.push(Tok::Punct(c.to_string(), i + 1 < n));
            }
        }
    }
    toks
}

fn ident(s: &str) -> Tok {
    Tok::Ident(s.to_string())
}

fn label(stor: &str, text: &str) -> Layout {
    Layout::Label(stor.to_string(), format!("\"{text}\""))
}

fn same(a: &Layout, b: &Layout) -> bool {
    format!("{a:?}") == format!("{b:?}")
}

fn norm(s: &str) -> String {
    s.split_whitespace().collect::<Vec<_>>().join(" ")
}

#[test]
fn parse_row_with_frame_and_label() {
    let src = r#"row ! [ self . a , frame ! ( button ) . with_style ( style ) . with_background ( bg ) , "Hi" ]"#;
    let tree = Tree::parse(&lex(src)).unwrap();
    let expected = Layout::List(
        "_stor0".to_string(),
        LayoutDir::Right,
        vec![
            Layout::Single(Member::Named("a".to_string())),
            Layout::Frame(
                "_stor1".to_string(),
                Box::new(Layout::Widget("_stor2".to_string(), vec![ident("button")])),
                vec![ident("style")],
                vec![ident("bg")],
            ),
            label("_stor3", "Hi"),
        ],
    );
    assert!(same(&tree.0, &expected));
    let mut children = vec![Child { ident: ChildIdent::Field(Member::Named("a".to_string())), binding: None }];
    let (ty, _) = tree.storage_fields(&mut children);
    assert_eq!(
        ty,
        "_stor0: ::kas::layout::FixedRowStorage<3usize>, _stor1: ::kas::layout::FrameStorage, \
         _stor2: Box<dyn ::kas::Widget<Data = ()>>, _stor3: ::kas::hidden::StrLabel, "
    );
}

#[test]
fn parse_frame_defaults() {
    let tree = Tree::parse(&lex(r#"frame ! ( "x" )"#)).unwrap();
    let draw = norm(&tree.draw("self.core"));
    assert!(draw.contains(
        "draw.frame(self.core._stor0.rect, :: kas :: theme :: FrameStyle :: Frame , :: kas :: theme :: Background :: Default );"
    ));
    match &tree.0 {
        Layout::Frame(stor, inner, _, _) => {
            assert_eq!(stor, "_stor0");
            assert!(same(inner, &label("_stor1", "x")));
        }
        other => panic!("unexpected {other:?}"),
    }
}

#[test]
fn parse_align_pack_list_float() {
    let tree = Tree::parse(&lex(r#""a" . align ( hints ) . pack ( p )"#)).unwrap();
    let expected = Layout::Pack(
        Box::new(Layout::Align(Box::new(label("_stor0", "a")), vec![ident("hints")])),
        vec![ident("p")],
        "_stor1".to_string(),
    );
    assert!(same(&tree.0, &expected));

    let tree = Tree::parse(&lex("list ! [ x , y , ] . with_direction ( dir )")).unwrap();
    let expected = Layout::List(
        "_stor0".to_string(),
        LayoutDir::Expr(vec![ident("dir")]),
        vec![
            Layout::Widget("_stor1".to_string(), vec![ident("x")]),
            Layout::Widget("_stor2".to_string(), vec![ident("y")]),
        ],
    );
    assert!(same(&tree.0, &expected));

    let tree = Tree::parse(&lex(r#"float ! [ "a" , "b" ]"#)).unwrap();
    assert!(same(&tree.0, &Layout::Float(vec![label("_stor0", "a"), label("_stor1", "b")])));

    let tree = Tree::parse(&lex("column ! [ self . 0 ]")).unwrap();
    let expected = Layout::List("_stor0".to_string(), LayoutDir::Down, vec![Layout::Single(Member::Unnamed(0))]);
    assert!(same(&tree.0, &expected));

    // a trailing `.` ends the layout
    let tree = Tree::parse(&lex(r#""a" ."#)).unwrap();
    assert!(same(&tree.0, &label("_stor0", "a")));
}

#[test]
fn parse_grids() {
    let tree = Tree::parse(&lex(r#"aligned_column ! [ row ! [ "a" , "b" ] , row ! [ "c" ] ]"#)).unwrap();
    let cell = |col, row| CellInfo { col, last_col: col, row, last_row: row };
    let expected = Layout::Grid(
        "_stor0".to_string(),
        GridDimensions { cols: 2, col_spans: 0, rows: 2, row_spans: 0 },
        vec![
            (cell(0, 0), label("_stor1", "a")),
            (cell(1, 0), label("_stor2", "b")),
            (cell(0, 1), label("_stor3", "c")),
        ],
    );
    assert!(same(&tree.0, &expected));

    let tree = Tree::parse(&lex(r#"aligned_row ! [ column ! [ "a" , "b" ] ]"#)).unwrap();
    match &tree.0 {
        Layout::Grid(_, dim, items) => {
            assert_eq!(*dim, GridDimensions { cols: 1, col_spans: 0, rows: 2, row_spans: 0 });
            assert_eq!(items[1].0, cell(0, 1));
        }
        other => panic!("unexpected {other:?}"),
    }

    let src = r#"grid ! { ( 0 , 0 ) => "a" , ( 1 ..= 2 , 0 ) => { self . b } ( 0 , 1 ) => x }"#;
    let tree = Tree::parse(&lex(src)).unwrap();
    let expected = Layout::Grid(
        "_stor0".to_string(),
        GridDimensions { cols: 3, col_spans: 1, rows: 2, row_spans: 0 },
        vec![
            (cell(0, 0), label("_stor1", "a")),
            (CellInfo { col: 1, last_col: 2, row: 0, last_row: 0 }, Layout::Single(Member::Named("b".to_string()))),
            (cell(0, 1), Layout::Widget("_stor2".to_string(), vec![ident("x")])),
        ],
    );
    assert!(same(&tree.0, &expected));
}

#[test]
fn parse_layout_errors() {
    let err = |src: &str| Tree::parse(&lex(src)).err();
    assert_eq!(err(""), Some(ParseError::ExpectedExpression(0)));
    assert_eq!(err(r#""a" . foo ( )"#), Some(ParseError::UnsupportedMethod(2)));
    assert_eq!(err("frame ! x"), Some(ParseError::ExpectedParens(2)));
    assert_eq!(err("list ! [ x ]"), Some(ParseError::ExpectedDirection(5)));
    assert_eq!(err("self x"), Some(ParseError::ExpectedMember(1)));
    assert_eq!(err("self . ,"), Some(ParseError::ExpectedMember(2)));
    assert_eq!(err(r#"row ! [ "a" "b" ]"#), Some(ParseError::ExpectedComma(4)));
    assert_eq!(err(r#"frame ! ( "a" "b" )"#), Some(ParseError::Unexpected(4)));
    assert_eq!(err("grid ! ( )"), Some(ParseError::ExpectedBraces(2)));
    assert_eq!(err(r#""a" "b""#), Some(ParseError::Unexpected(1)));
    assert_eq!(err("aligned_row ! [ row ! [ ] ]"), Some(ParseError::ExpectedKeyword(3)));
    assert_eq!(err("row !"), Some(ParseError::ExpectedBrackets(2)));
    assert_eq!(err(r#"grid ! { ( 0 , 0 ) "a" }"#), Some(ParseError::ExpectedArrow(8)));
    assert_eq!(err(r#""a" . align ( )"#), Some(ParseError::ExpectedExpression(4)));
    // a grid cell ending at `u32::MAX` leaves no room for the grid's size
    assert_eq!(err("grid ! { ( 4294967295 , 0 ) => x }"), Some(ParseError::Overflow(3)));
    // such a literal elsewhere is no cell
    assert!(Tree::parse(&lex("column ! [ f ( 4294967295 ) ]")).is_ok());
}
