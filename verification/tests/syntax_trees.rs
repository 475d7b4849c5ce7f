use quote::ToTokens;
use proc_macro2::{Ident, Span};
use substruct::generate::{diagnostic, locate, read_args, read_field_names};
use substruct::{
    expand, parse_sub_struct_args, synthesize, synthesize_with_ident, ArgValue, ListKind,
    Strategy, SubStructAttributes, SubStructError,
};
use syn::parse::Parser;
use syn::punctuated::Punctuated;
use syn::token::Comma;
use syn::{DeriveInput, Field, MetaNameValue};

fn arguments(text: &str) -> Punctuated<MetaNameValue, Comma> {
    Punctuated::<MetaNameValue, Comma>::parse_terminated.parse_str(text).unwrap()
}

fn item(text: &str) -> DeriveInput {
    syn::parse_str::<DeriveInput>(text).unwrap()
}

fn printed(item: &DeriveInput) -> String {
    item.to_token_stream().to_string()
}

fn names(values: &[&str]) -> Vec<String> {
    values.iter().map(|value| value.to_string()).collect()
}

fn fields_of(item: &DeriveInput) -> Punctuated<Field, Comma> {
    match &item.data {
        syn::Data::Struct(data) => match &data.fields {
            syn::Fields::Named(named) => named.named.clone(),
            syn::Fields::Unnamed(unnamed) => unnamed.unnamed.clone(),
            syn::Fields::Unit => Punctuated::new(),
        },
        _ => Punctuated::new(),
    }
}

fn refusal(outcome: Result<DeriveInput, SubStructError>) -> SubStructError {
    match outcome {
        Ok(generated) => panic!("generated {}", printed(&generated)),
        Err(e) => e,
    }
}

fn config(name: &str, strategy: Strategy) -> SubStructAttributes {
    SubStructAttributes { name: name.to_string(), strategy }
}

#[test]
fn arguments_are_read_in_order_with_key_and_value() {
    let read = read_args(&arguments(
        "name = \"B\", remove = [\"x\", \"y\"], retain = [], other = 1, name = b\"B\"",
    ));
    assert_eq!(read.len(), 5);
    assert_eq!(read[0].key, "name");
    assert!(matches!(&read[0].value, ArgValue::Str(text) if text == "B"));
    assert_eq!(read[1].key, "remove");
    assert!(matches!(&read[1].value, ArgValue::Array(items)
        if *items == vec![Some("x".to_string()), Some("y".to_string())]));
    assert_eq!(read[2].key, "retain");
    assert!(matches!(&read[2].value, ArgValue::Array(items) if items.is_empty()));
    assert_eq!(read[3].key, "other");
    assert!(matches!(&read[3].value, ArgValue::Other));
    assert_eq!(read[4].key, "name");
    assert!(matches!(&read[4].value, ArgValue::Other));
}

#[test]
fn an_element_that_is_no_string_literal_is_read_as_none() {
    let read = read_args(&arguments("remove = [\"x\", 1, y, [\"z\"], \"w\"]"));
    assert!(matches!(&read[0].value, ArgValue::Array(items)
        if *items == vec![Some("x".to_string()), None, None, None, Some("w".to_string())]));
}

#[test]
fn a_value_that_is_neither_string_nor_array_is_read_as_other() {
    let read = read_args(&arguments("a = 1, b = x, c = (\"x\"), d = 'c', e = true, f = f()"));
    assert_eq!(read.len(), 6);
    for arg in &read {
        assert!(matches!(&arg.value, ArgValue::Other));
    }
}

#[test]
fn no_tokens_are_no_arguments() {
    assert!(read_args(&arguments("")).is_empty());
}

#[test]
fn a_key_of_more_than_one_segment_is_read_whole() {
    let read = read_args(&arguments("a::name = \"B\""));
    assert_eq!(read[0].key.replace(' ', ""), "a::name");
}

#[test]
fn a_list_of_arguments_parses_to_a_configuration() {
    let parsed =
        parse_sub_struct_args(&arguments("name = \"B\", retain = [\"y\", \"x\"]")).unwrap();
    assert_eq!(parsed.name, "B");
    assert!(matches!(&parsed.strategy, Strategy::Retain(listed) if *listed == names(&["y", "x"])));
    let parsed = parse_sub_struct_args(&arguments("name = \"B\", remove = [\"x\"]")).unwrap();
    assert!(matches!(&parsed.strategy, Strategy::Remove(listed) if *listed == names(&["x"])));
}

#[test]
fn a_list_of_arguments_is_rejected_as_the_arguments_it_holds() {
    assert_eq!(
        parse_sub_struct_args(&arguments("name = 1")).unwrap_err(),
        SubStructError::NameNotString { arg: 0 }
    );
    assert_eq!(
        parse_sub_struct_args(&arguments("name = \"B\", retain = [\"x\", 2]")).unwrap_err(),
        SubStructError::ListNotStrings { list: ListKind::Retain, arg: 1 }
    );
    assert_eq!(
        parse_sub_struct_args(&arguments("name = \"B\", a::name = \"C\"")).unwrap_err().anchor(),
        SubStructError::UnknownKey { key: String::new() }.anchor()
    );
    assert_eq!(
        parse_sub_struct_args(&arguments("remove = [\"x\"]")).unwrap_err(),
        SubStructError::MissingName
    );
    assert_eq!(
        parse_sub_struct_args(&arguments("name = \"B\"")).unwrap_err(),
        SubStructError::StrategyCount
    );
}

#[test]
fn the_names_of_named_fields_are_read_in_declared_order() {
    let read = read_field_names(&fields_of(&item("struct A { b: u8, pub a: u16, r#type: u8 }")));
    assert_eq!(read, Some(names(&["b", "a", "r#type"])));
    assert_eq!(read_field_names(&fields_of(&item("struct A {}"))), Some(vec![]));
}

#[test]
fn a_field_without_a_name_leaves_no_names() {
    assert_eq!(read_field_names(&fields_of(&item("struct A(u8, u16);"))), None);
    let mut mixed = fields_of(&item("struct A { x: u8 }"));
    mixed.push(fields_of(&item("struct B(u16);"))[0].clone());
    assert_eq!(read_field_names(&mixed), None);
}

#[test]
fn the_generated_struct_has_the_target_name_and_the_kept_fields() {
    let source = item("#[derive(Debug)] pub struct A<T> { pub x: T, #[doc = \"y\"] y: u8, z: u16 }");
    let generated =
        synthesize(&config("B", Strategy::Remove(names(&["x"]))), &source).unwrap();
    assert_eq!(
        printed(&generated),
        printed(&item("#[derive(Debug)] pub struct B<T> { #[doc = \"y\"] y: u8, z: u16 }"))
    );
    let generated =
        synthesize(&config("C", Strategy::Retain(names(&["z", "x"]))), &source).unwrap();
    assert_eq!(
        printed(&generated),
        printed(&item("#[derive(Debug)] pub struct C<T> { pub x: T, z: u16 }"))
    );
}

#[test]
fn the_item_itself_is_left_as_it_was() {
    let source = item("struct A { x: u8, y: u8 }");
    let before = printed(&source);
    let _ = synthesize(&config("B", Strategy::Remove(names(&["x"]))), &source).unwrap();
    assert_eq!(printed(&source), before);
}

#[test]
fn an_item_without_named_fields_is_an_unsupported_shape() {
    for source in ["struct A(u8);", "struct A;", "enum A { X { x: u8 } }", "union A { x: u8 }"] {
        let rejected = synthesize(&config("B", Strategy::Remove(names(&["x"]))), &item(source));
        assert_eq!(refusal(rejected), SubStructError::UnsupportedShape);
    }
}

#[test]
fn a_listed_name_that_is_no_field_is_named_in_the_error() {
    let rejected = synthesize(
        &config("B", Strategy::Retain(names(&["q", "x", "p"]))),
        &item("struct A { x: u8, y: u8 }"),
    );
    assert_eq!(
        refusal(rejected),
        SubStructError::InvalidFields { list: ListKind::Retain, names: names(&["q", "p"]) }
    );
}

#[test]
fn a_target_name_must_be_an_identifier_as_it_stands() {
    let source = item("struct A { x: u8, y: u8 }");
    for name in ["a b", "B ", " B", "9", "a-b", "B<T>", "/* c */ B", "", "'a", "\"B\""] {
        let rejected = synthesize(&config(name, Strategy::Remove(names(&["x"]))), &source);
        assert_eq!(
            refusal(rejected),
            SubStructError::InvalidName { name: name.to_string() }
        );
    }
    for name in ["B", "_b", "b9", "r#type", "Größe", "A", "type", "struct", "_"] {
        let generated =
            synthesize(&config(name, Strategy::Remove(names(&["x"]))), &source).unwrap();
        assert_eq!(generated.ident.to_string(), name);
    }
}

#[test]
fn the_identifier_that_was_read_must_be_the_target_name() {
    let source = item("struct A { x: u8, y: u8 }");
    let by_remove = config("B", Strategy::Remove(names(&["x"])));
    let read = Some(Ident::new("B", Span::call_site()));
    let generated = synthesize_with_ident(&by_remove, &source, read).unwrap();
    assert_eq!(printed(&generated), printed(&item("struct B { y: u8 }")));
    let other = Some(Ident::new("C", Span::call_site()));
    assert_eq!(
        refusal(synthesize_with_ident(&by_remove, &source, other)),
        SubStructError::InvalidName { name: "B".to_string() }
    );
    assert_eq!(
        refusal(synthesize_with_ident(&by_remove, &source, None)),
        SubStructError::InvalidName { name: "B".to_string() }
    );
}

#[test]
fn the_item_and_the_fields_come_before_the_identifier() {
    let read = || Some(Ident::new("B", Span::call_site()));
    let by_remove = config("B", Strategy::Remove(names(&["q"])));
    assert_eq!(
        refusal(synthesize_with_ident(&by_remove, &item("enum A { X }"), None)),
        SubStructError::UnsupportedShape
    );
    assert_eq!(
        refusal(synthesize_with_ident(&by_remove, &item("struct A { x: u8 }"), None)),
        SubStructError::InvalidFields { list: ListKind::Remove, names: names(&["q"]) }
    );
    assert_eq!(
        refusal(synthesize_with_ident(&by_remove, &item("struct A { x: u8 }"), read())),
        SubStructError::InvalidFields { list: ListKind::Remove, names: names(&["q"]) }
    );
}

#[test]
fn expanding_parses_the_arguments_and_then_generates() {
    let source = item("struct A { x: u8, y: u8, z: u8 }");
    let generated = expand(&arguments("name = \"B\", retain = [\"z\", \"y\"]"), &source).unwrap();
    assert_eq!(printed(&generated), printed(&item("struct B { y: u8, z: u8 }")));
}

#[test]
fn expanding_reports_the_arguments_before_the_item() {
    let rejected = expand(&arguments("name = \"B\""), &item("enum A { X }"));
    assert_eq!(refusal(rejected), SubStructError::StrategyCount);
    let rejected = expand(&arguments("name = \"B\", remove = [\"x\"]"), &item("enum A { X }"));
    assert_eq!(refusal(rejected), SubStructError::UnsupportedShape);
    let rejected =
        expand(&arguments("name = \"B\", remove = [\"q\"]"), &item("struct A { x: u8 }"));
    assert_eq!(
        refusal(rejected),
        SubStructError::InvalidFields { list: ListKind::Remove, names: names(&["q"]) }
    );
}

#[test]
fn a_diagnostic_carries_the_message_of_the_error() {
    let list = arguments("name = 1, remove = \"x\"");
    let source = item("struct A { x: u8 }");
    let errors = [
        SubStructError::NameNotString { arg: 0 },
        SubStructError::ListNotStrings { list: ListKind::Remove, arg: 1 },
        SubStructError::ListNotStrings { list: ListKind::Remove, arg: 7 },
        SubStructError::UnknownKey { key: "k".to_string() },
        SubStructError::MissingName,
        SubStructError::StrategyCount,
        SubStructError::InvalidFields { list: ListKind::Retain, names: names(&["a", "b"]) },
        SubStructError::UnsupportedShape,
        SubStructError::InvalidName { name: "9".to_string() },
    ];
    for e in &errors {
        assert_eq!(diagnostic(e, &list, &source).to_string(), e.message());
        let located = locate(e, None, Span::call_site(), Span::call_site());
        assert_eq!(located.to_string(), e.message());
        let located = locate(e, Some(Span::call_site()), Span::call_site(), Span::call_site());
        assert_eq!(located.to_string(), e.message());
    }
}
