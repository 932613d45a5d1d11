use kas_verified::macros::autoimpl::{autoimpl_struct, parse, Fields, StructDesc};
use kas_verified::macros::tokens::Tok;

fn ident(s: &str) -> Tok {
    Tok::Ident(s.to_string())
}

fn punct(s: &str) -> Tok {
    Tok::Punct(s.to_string(), false)
}

fn norm(s: &str) -> String {
    s.split_whitespace().collect::<Vec<_>>().join(" ")
}

fn struct_desc(name: &str, impl_generics: &str, ty_generics: &str, fields: Fields) -> StructDesc {
    StructDesc {
        ident: name.to_string(),
        impl_generics: impl_generics.to_string(),
        ty_generics: ty_generics.to_string(),
        where_clause: None,
        fields,
    }
}

// #[autoimpl(Clone, Debug where T: trait)]
// struct Wrapper<T>(pub T);
#[test]
fn wrapper() {
    let attr = parse(&vec![
        ident("Clone"),
        punct(","),
        ident("Debug"),
        ident("where"),
        ident("T"),
        punct(":"),
        ident("trait"),
    ])
    .unwrap();
    let item = struct_desc("Wrapper", "<T>", "<T>", Fields::Unnamed(vec!["T".to_string()]));
    let out = autoimpl_struct(&attr, &item);
    assert!(out.not_fields.is_empty());
    assert_eq!(
        norm(&out.text),
        norm(
            "impl<T> std::clone::Clone for Wrapper<T> where T : std::clone::Clone \
             { fn clone(&self) -> Self { Self( self.0.clone(), ) } } \
             impl<T> std::fmt::Debug for Wrapper<T> where T : std::fmt::Debug \
             { fn fmt(&self, f: &mut std::fmt::Formatter) -> std::fmt::Result \
             { f.debug_tuple(\"Wrapper\").field(&self.0).finish() } }"
        )
    );
}

// #[autoimpl(Clone, Default where A: trait, B: trait)]
// #[autoimpl(Debug where A: Debug)]
// struct X<A, B: Debug, C> { a: A, b: B, c: PhantomData<C> }
#[test]
fn x() {
    let fields = Fields::Named(vec![
        ("a".to_string(), "A".to_string()),
        ("b".to_string(), "B".to_string()),
        ("c".to_string(), "PhantomData<C>".to_string()),
    ]);
    let item = struct_desc("X", "<A, B: Debug, C>", "<A, B, C>", fields);

    let first = parse(&vec![
        ident("Clone"),
        punct(","),
        ident("Default"),
        ident("where"),
        ident("A"),
        punct(":"),
        ident("trait"),
        punct(","),
        ident("B"),
        punct(":"),
        ident("trait"),
    ])
    .unwrap();
    let out = autoimpl_struct(&first, &item);
    assert!(out.not_fields.is_empty());
    assert_eq!(
        norm(&out.text),
        norm(
            "impl<A, B: Debug, C> std::clone::Clone for X<A, B, C> \
             where A : std::clone::Clone , B : std::clone::Clone \
             { fn clone(&self) -> Self { Self { a: self.a.clone(), b: self.b.clone(), \
             c: self.c.clone(), } } } \
             impl<A, B: Debug, C> std::default::Default for X<A, B, C> \
             where A : std::default::Default , B : std::default::Default \
             { fn default() -> Self { X { a: Default::default(), b: Default::default(), \
             c: Default::default(), } } }"
        )
    );

    let second = parse(&vec![
        ident("Debug"),
        ident("where"),
        ident("A"),
        punct(":"),
        ident("Debug"),
    ])
    .unwrap();
    let out = autoimpl_struct(&second, &item);
    assert_eq!(
        norm(&out.text),
        norm(
            "impl<A, B: Debug, C> std::fmt::Debug for X<A, B, C> where A : Debug \
             { fn fmt(&self, f: &mut std::fmt::Formatter) -> std::fmt::Result \
             { f.debug_struct(\"X\").field(\"a\", &self.a).field(\"b\", &self.b)\
             .field(\"c\", &self.c).finish() } }"
        )
    );
}

// #[autoimpl(Deref, DerefMut on self.t)]
// struct Y<S, T> { _s: S, t: T }
#[test]
fn y() {
    let attr = parse(&vec![
        ident("Deref"),
        punct(","),
        ident("DerefMut"),
        ident("on"),
        ident("self"),
        punct("."),
        ident("t"),
    ])
    .unwrap();
    let fields = Fields::Named(vec![
        ("_s".to_string(), "S".to_string()),
        ("t".to_string(), "T".to_string()),
    ]);
    let item = struct_desc("Y", "<S, T>", "<S, T>", fields);
    let out = autoimpl_struct(&attr, &item);
    assert!(out.not_fields.is_empty());
    // deref_mut reaches field `t`, so writing through it sets `y.t`
    assert_eq!(
        norm(&out.text),
        norm(
            "impl<S, T> std::ops::Deref for Y<S, T> \
             { type Target = T; fn deref(&self) -> &Self::Target { &self.t } } \
             impl<S, T> std::ops::DerefMut for Y<S, T> \
             { fn deref_mut(&mut self) -> &mut Self::Target { &mut self.t } }"
        )
    );
}
