use kas_verified::macros::autoimpl::Member;
use kas_verified::macros::derive::{derive_widget, DeriveError, ItemShape, WidgetAttr, WidgetField};
use kas_verified::macros::scope::{ImplDesc, ImplItem, ItemKind, TraitKind};

fn inner_field(attr: WidgetAttr) -> WidgetField {
    WidgetField { member: Member::Named("inner".to_string()), ty: "W".to_string(), attrs: vec![attr] }
}

#[test]
fn derive_widget_binding_needs_data_type() {
    let fields = vec![inner_field(WidgetAttr::Paren("&self.x".to_string()))];
    let r = derive_widget(ItemShape::Struct, None, &vec![], &fields);
    assert!(matches!(r, Err(DeriveError::MissingData)));

    // given as argument, the data type allows the binding
    let ok = derive_widget(ItemShape::Struct, Some("u32".to_string()), &vec![], &fields).ok().unwrap();
    assert_eq!(ok.data_ty, "u32");
    assert_eq!(ok.data_binding, Some("&self.x".to_string()));

    // or given by `type Data` in a `Widget` impl
    let impls = vec![ImplDesc {
        trait_: TraitKind::Widget,
        items: vec![ImplItem { kind: ItemKind::Type, name: "Data".to_string() }],
        data_ty: Some("String".to_string()),
    }];
    let ok2 = derive_widget(ItemShape::Struct, None, &impls, &fields).ok().unwrap();
    assert_eq!(ok2.data_ty, "String");
}

#[test]
fn derive_widget_plain_field_gives_its_data_type() {
    let fields = vec![inner_field(WidgetAttr::Path)];
    let ok = derive_widget(ItemShape::Struct, None, &vec![], &fields).ok().unwrap();
    assert_eq!(ok.data_ty, "<W as ::kas::Widget>::Data");
    assert_eq!(ok.inner, Member::Named("inner".to_string()));
    assert!(matches!(derive_widget(ItemShape::Struct, None, &vec![], &vec![]), Err(DeriveError::NoInner)));
    assert!(matches!(derive_widget(ItemShape::UnitStruct, None, &vec![], &fields), Err(DeriveError::UnitStruct)));
}
