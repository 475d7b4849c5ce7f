//! The boundary to `syn`, `quote` and `proc_macro2`: the syntax trees that the
//! directive is written in and applied to, and what of them is read and built.
//!
//! Nothing in this file is proved. Each item says what it takes for granted
//! of the code that it calls.

use crate::directive::{Arg, ArgModel, ArgValue};
use proc_macro2::{Ident, Span, TokenStream};
use quote::ToTokens;
use syn::ext::IdentExt;
use syn::punctuated::Punctuated;
use syn::spanned::Spanned;
use syn::token::Comma;
use syn::{DeriveInput, Field, MetaNameValue};
use vstd::prelude::*;

verus! {

/// `proc_macro2::TokenStream`, carried through unread.
#[verifier::external_type_specification]
#[verifier::external_body]
pub struct ExTokenStream(TokenStream);

/// `proc_macro2::Span`, carried through unread.
#[verifier::external_type_specification]
#[verifier::external_body]
pub struct ExSpan(Span);

/// `proc_macro2::Ident`, carried through unread.
#[verifier::external_type_specification]
#[verifier::external_body]
pub struct ExIdent(Ident);

/// `syn::DeriveInput`, carried through unread.
#[verifier::external_type_specification]
#[verifier::external_body]
pub struct ExDeriveInput(DeriveInput);

/// `syn::Field`, carried through unread.
#[verifier::external_type_specification]
#[verifier::external_body]
pub struct ExField(Field);

/// `syn::MetaNameValue`, carried through unread.
#[verifier::external_type_specification]
#[verifier::external_body]
pub struct ExMetaNameValue(MetaNameValue);

/// `syn::token::Comma`, carried through unread.
#[verifier::external_type_specification]
#[verifier::external_body]
pub struct ExComma(Comma);

/// `syn::Error`, carried through unread.
#[verifier::external_type_specification]
#[verifier::external_body]
pub struct ExSynError(syn::Error);

/// `syn::punctuated::Punctuated`, read and filled through the functions below.
#[verifier::external_type_specification]
#[verifier::external_body]
#[verifier::reject_recursive_types(T)]
#[verifier::reject_recursive_types(P)]
pub struct ExPunctuated<T, P>(Punctuated<T, P>);

/// What is read of one field of a struct.
pub struct FieldModel {
    /// The text of the field's identifier, where it has one.
    pub name: Option<Seq<char>>,
    /// The field as it is written: attributes, visibility, name and type.
    pub definition: Seq<char>,
}

/// The arguments that a punctuated list holds, in order, each as the directive
/// reads it: the key is the text of the argument's path, the value the text of
/// a string literal, an array literal by its elements, or anything else.
pub uninterp spec fn arg_models(args: Punctuated<MetaNameValue, Comma>) -> Seq<ArgModel>;

/// The fields that a punctuated list holds, in order.
pub uninterp spec fn field_models(fields: Punctuated<Field, Comma>) -> Seq<FieldModel>;

/// The named fields of an item that is a struct with named fields, in
/// declared order; `None` for any other item.
pub uninterp spec fn struct_fields(item: DeriveInput) -> Option<Seq<FieldModel>>;

/// The text of an identifier.
pub uninterp spec fn ident_name(ident: Ident) -> Seq<char>;

/// The item that has `ident` for its name and `fields` for its named fields
/// and is `item` in everything else.
pub uninterp spec fn struct_with(
    item: DeriveInput,
    ident: Ident,
    fields: Punctuated<Field, Comma>,
) -> DeriveInput;

/// The item that `syn` parses the tokens to, where it parses them.
pub uninterp spec fn parsed_item(input: TokenStream) -> Option<DeriveInput>;

/// The list of `key = value` arguments that `syn` parses the tokens to, where
/// it parses them.
pub uninterp spec fn parsed_args(args: TokenStream) -> Option<Punctuated<MetaNameValue, Comma>>;

/// The tokens of one item followed by those of another.
pub uninterp spec fn pair_tokens(first: DeriveInput, second: DeriveInput) -> TokenStream;

/// The message that an error carries.
pub uninterp spec fn error_message(e: syn::Error) -> Seq<char>;

/// The span that an error was made with.
pub uninterp spec fn error_span(e: syn::Error) -> Span;

/// Whether the tokens are those of a compile-time error with the given
/// message.
pub uninterp spec fn reports(tokens: TokenStream, message: Seq<char>) -> bool;

/// Calls `syn::parse2` for a `DeriveInput`. Of what an error holds nothing is
/// claimed.
#[verifier::external_body]
pub(crate) fn parse_item(input: TokenStream) -> (r: Result<DeriveInput, syn::Error>)
    ensures
        match r {
            Ok(item) => parsed_item(input) == Some(item),
            Err(_) => parsed_item(input) is None,
        },
{
    syn::parse2::<DeriveInput>(input)
}

/// Calls `Punctuated::parse_terminated` on the tokens, through
/// `syn::parse::Parser::parse2`. Of what an error holds nothing is claimed.
#[verifier::external_body]
pub(crate) fn parse_arg_list(args: TokenStream) -> (r: Result<
    Punctuated<MetaNameValue, Comma>,
    syn::Error,
>)
    ensures
        match r {
            Ok(list) => parsed_args(args) == Some(list),
            Err(_) => parsed_args(args) is None,
        },
{
    syn::parse::Parser::parse2(Punctuated::<MetaNameValue, Comma>::parse_terminated, args)
}

/// Calls `Punctuated::len`: the number of arguments that the list holds.
#[verifier::external_body]
pub(crate) fn arg_count(args: &Punctuated<MetaNameValue, Comma>) -> (n: usize)
    ensures
        n == arg_models(*args).len(),
{
    args.len()
}

/// Indexes the list, which panics past its end, and hands the argument out as
/// an [`Arg`]: the key by the tokens of its path, a string literal by
/// `LitStr::value`, an array by its elements, anything else as `Other`.
#[verifier::external_body]
pub(crate) fn arg_at(args: &Punctuated<MetaNameValue, Comma>, i: usize) -> (arg: Arg)
    requires
        i < arg_models(*args).len(),
    ensures
        arg@ == arg_models(*args)[i as int],
{
    let value = match &args[i].value {
        syn::Expr::Lit(syn::ExprLit { lit: syn::Lit::Str(text), .. }) => ArgValue::Str(text.value()),
        syn::Expr::Array(array) => ArgValue::Array(
            array.elems.iter().map(|element| match element {
                syn::Expr::Lit(syn::ExprLit { lit: syn::Lit::Str(text), .. }) => Some(text.value()),
                _ => None,
            }).collect(),
        ),
        _ => ArgValue::Other,
    };
    Arg { key: args[i].path.to_token_stream().to_string(), value }
}

/// Matches on `syn::Data` and `syn::Fields`: the punctuated list of an item
/// that is a struct with named fields, `None` for any other item.
#[verifier::external_body]
pub(crate) fn named_fields(item: &DeriveInput) -> (r: Option<&Punctuated<Field, Comma>>)
    ensures
        match r {
            Some(fields) => struct_fields(*item) == Some(field_models(*fields)),
            None => struct_fields(*item) is None,
        },
{
    match &item.data {
        syn::Data::Struct(data) => match &data.fields {
            syn::Fields::Named(named) => Some(&named.named),
            _ => None,
        },
        _ => None,
    }
}

/// Calls `Punctuated::len`: the number of fields that the list holds.
#[verifier::external_body]
pub(crate) fn field_count(fields: &Punctuated<Field, Comma>) -> (n: usize)
    ensures
        n == field_models(*fields).len(),
{
    fields.len()
}

/// Indexes the list, which panics past its end, and calls `to_string` on the
/// field's identifier, where it has one.
#[verifier::external_body]
pub(crate) fn field_name_at(fields: &Punctuated<Field, Comma>, i: usize) -> (name: Option<String>)
    requires
        i < field_models(*fields).len(),
    ensures
        name.deep_view() == field_models(*fields)[i as int].name,
{
    fields[i].ident.as_ref().map(|ident| ident.to_string())
}

/// Calls `Punctuated::new`: a list that holds nothing.
#[verifier::external_body]
pub(crate) fn new_field_list() -> (fields: Punctuated<Field, Comma>)
    ensures
        field_models(fields) == Seq::<FieldModel>::empty(),
{
    Punctuated::new()
}

/// Calls `Punctuated::push` with a clone of the field at `i` of `from`: the
/// field comes last in `to`, behind what `to` held.
#[verifier::external_body]
pub(crate) fn push_field(
    to: &mut Punctuated<Field, Comma>,
    from: &Punctuated<Field, Comma>,
    i: usize,
)
    requires
        i < field_models(*from).len(),
    ensures
        field_models(*final(to)) == field_models(*old(to)).push(field_models(*from)[i as int]),
{
    to.push(from[i].clone())
}

/// Calls `Ident::parse_any` on the text, through
/// `syn::parse::Parser::parse_str`. How the text is read is left to the
/// process that reads it, so nothing is claimed of the result.
#[verifier::external_body]
pub(crate) fn parse_ident(text: &str) -> (r: Option<Ident>) {
    syn::parse::Parser::parse_str(Ident::parse_any, text).ok()
}

/// Calls `to_string` on the identifier.
#[verifier::external_body]
pub(crate) fn ident_text(ident: &Ident) -> (text: String)
    ensures
        text@ == ident_name(*ident),
{
    ident.to_string()
}

/// Clones the item and puts `ident` in place of its name and `fields` in
/// place of its named fields. The item must be a struct with named fields.
#[verifier::external_body]
pub(crate) fn with_fields(item: &DeriveInput, ident: Ident, fields: Punctuated<Field, Comma>) -> (r:
    DeriveInput)
    requires
        struct_fields(*item) is Some,
    ensures
        r == struct_with(*item, ident, fields),
        struct_fields(r) == Some(field_models(fields)),
{
    let mut generated = item.clone();
    generated.ident = ident;
    if let syn::Data::Struct(syn::DataStruct { fields: syn::Fields::Named(named), .. }) =
        &mut generated.data {
        named.named = fields;
    }
    generated
}

/// Calls `ToTokens::to_tokens` on the first item and then on the second, into
/// one stream.
#[verifier::external_body]
pub(crate) fn emit_pair(first: &DeriveInput, second: &DeriveInput) -> (tokens: TokenStream)
    ensures
        tokens == pair_tokens(*first, *second),
{
    let mut tokens = TokenStream::new();
    first.to_tokens(&mut tokens);
    second.to_tokens(&mut tokens);
    tokens
}

/// Calls `Span::call_site`. Nothing is claimed of the result.
#[verifier::external_body]
pub(crate) fn call_site() -> (span: Span) {
    Span::call_site()
}

/// Indexes the list, which panics past its end, and calls `Spanned::span` on
/// that argument. Nothing is claimed of the result.
#[verifier::external_body]
pub(crate) fn arg_span_at(args: &Punctuated<MetaNameValue, Comma>, i: usize) -> (span: Span)
    requires
        i < arg_models(*args).len(),
{
    args[i].span()
}

/// Calls `Ident::span` on the item's name. Nothing is claimed of the result.
#[verifier::external_body]
pub(crate) fn name_span_of(item: &DeriveInput) -> (span: Span) {
    item.ident.span()
}

/// Calls `syn::Error::new`: the error is made with the span and carries the
/// message.
#[verifier::external_body]
pub(crate) fn error_at(span: Span, message: &str) -> (e: syn::Error)
    ensures
        error_span(e) == span,
        error_message(e) == message@,
{
    syn::Error::new(span, message)
}

/// Calls `syn::Error::to_compile_error`: the tokens of a compile-time error
/// with the error's message.
#[verifier::external_body]
pub(crate) fn diagnostic_tokens(e: &syn::Error) -> (tokens: TokenStream)
    ensures
        reports(tokens, error_message(*e)),
{
    e.to_compile_error()
}

} // verus!
