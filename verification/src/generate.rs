//! From a directive and the item it is attached to, to the generated struct.

use crate::directive::{
    outcome_of, parse_args, parse_spec, Arg, ArgModel, AttributesModel, StrategyModel,
    SubStructAttributes,
};
use crate::error::{anchor_of, message_of, Anchor, ErrorModel, SubStructError};
use crate::selection::{
    kept_at, kept_positions, keeps, lemma_kept_positions, positions, positions_of, select_fields,
    selection,
};
use crate::syntax::{
    arg_at, arg_count, arg_models, arg_span_at, call_site, diagnostic_tokens, emit_pair, error_at,
    error_message, error_span, field_count, field_models, field_name_at, ident_name, ident_text,
    name_span_of, named_fields, new_field_list, pair_tokens, parse_arg_list, parse_ident,
    parse_item, parsed_args, parsed_item, push_field, reports, struct_fields, struct_with,
    with_fields, FieldModel,
};
use proc_macro2::{Ident, Span, TokenStream};
use syn::punctuated::Punctuated;
use syn::token::Comma;
use syn::{DeriveInput, Field, MetaNameValue};
use vstd::prelude::*;

verus! {

/// Whether every field has a name.
pub open spec fn all_named(fields: Seq<FieldModel>) -> bool {
    forall|i: int| 0 <= i < fields.len() ==> (#[trigger] fields[i]).name is Some
}

/// The names of fields that all have one, in declared order.
pub open spec fn names_of(fields: Seq<FieldModel>) -> Seq<Seq<char>> {
    Seq::new(fields.len(), |i: int| fields[i].name->0)
}

/// The test for a field that a strategy keeps.
pub open spec fn keeping_field(strategy: StrategyModel) -> spec_fn(FieldModel) -> bool {
    |field: FieldModel| field.name matches Some(name) && keeps(strategy, name)
}

/// The fields at the given positions, in the order of the positions.
pub open spec fn picked(fields: Seq<FieldModel>, at: Seq<int>) -> Seq<FieldModel> {
    Seq::new(at.len(), |k: int| fields[at[k]])
}

/// The fields that a strategy keeps of an item, given the item's named
/// fields.
///
/// The item must be a struct whose fields all bear a name, and every listed
/// name must be the name of a field. The fields that the strategy keeps are
/// then kept as they are and in their declared order.
pub open spec fn plan(strategy: StrategyModel, fields: Option<Seq<FieldModel>>) -> Result<
    Seq<FieldModel>,
    ErrorModel,
> {
    match fields {
        Some(fields) if all_named(fields) => match selection(strategy, names_of(fields)) {
            Err(e) => Err(e),
            Ok(_) => Ok(fields.filter(keeping_field(strategy))),
        },
        _ => Err(ErrorModel::UnsupportedShape),
    }
}

/// The text of the identifier that was read from the target name, where one
/// was read.
pub open spec fn read_name(ident: Option<Ident>) -> Option<Seq<char>> {
    match ident {
        Some(ident) => Some(ident_name(ident)),
        None => None,
    }
}

/// The fields of the struct that a configuration generates from an item,
/// given the item's named fields and what was read from the target name.
///
/// What is wrong with the item or with the listed names comes first. Then
/// the target name must have been read as one identifier, and that
/// identifier must be the name as it stands.
pub open spec fn synthesis(
    config: AttributesModel,
    fields: Option<Seq<FieldModel>>,
    read: Option<Seq<char>>,
) -> Result<Seq<FieldModel>, ErrorModel> {
    match plan(config.strategy, fields) {
        Err(e) => Err(e),
        Ok(kept) => if read == Some(config.name) {
            Ok(kept)
        } else {
            Err(ErrorModel::InvalidName { name: config.name })
        },
    }
}

/// What a directive with the given arguments asks for from an item, given
/// the item's named fields: the name and the fields of the struct to
/// generate. What is wrong with the arguments comes before what is wrong with
/// the item.
pub open spec fn expansion(args: Seq<ArgModel>, fields: Option<Seq<FieldModel>>) -> Result<
    (Seq<char>, Seq<FieldModel>),
    ErrorModel,
> {
    match parse_spec(args) {
        Err(e) => Err(e),
        Ok(config) => match plan(config.strategy, fields) {
            Err(e) => Err(e),
            Ok(kept) => Ok((config.name, kept)),
        },
    }
}

/// Whether `generated` is `item` under the name `name` and with the named
/// fields `kept`, and like `item` in everything else.
pub open spec fn generated_from(
    generated: DeriveInput,
    item: DeriveInput,
    name: Seq<char>,
    kept: Seq<FieldModel>,
) -> bool {
    &&& struct_fields(generated) == Some(kept)
    &&& exists|ident: Ident, fields: Punctuated<Field, Comma>|
        {
            &&& #[trigger] struct_with(item, ident, fields) == generated
            &&& ident_name(ident) == name
            &&& field_models(fields) == kept
        }
}

/// Whether `outcome` is the struct of the name `name` and the fields `kept`
/// that is generated from `item`, or else the refusal of that name. Which of
/// the two it is rests on how the name is read as an identifier.
pub open spec fn named_or_refused(
    outcome: Result<DeriveInput, SubStructError>,
    item: DeriveInput,
    name: Seq<char>,
    kept: Seq<FieldModel>,
) -> bool {
    match outcome {
        Ok(generated) => generated_from(generated, item, name, kept),
        Err(e) => e@ == (ErrorModel::InvalidName { name }),
    }
}

/// The span that a diagnostic is made with, given where it is anchored: the
/// span of the argument it names, where the list holds that argument, the
/// span of the item's name, or else the span of the directive as a whole.
pub open spec fn place_of(anchor: Anchor, argument: Option<Span>, name: Span, site: Span) -> Span {
    match anchor {
        Anchor::Argument(_) => match argument {
            Some(span) => span,
            None => site,
        },
        Anchor::ItemName => name,
        Anchor::CallSite => site,
    }
}

/// Whether `tokens` are what the directive expands to, given the tokens of
/// its arguments and of the item it is attached to.
///
/// Where both parse and the directive is accepted, they are the tokens of the
/// item as it was parsed, followed by those of the generated struct; or, where
/// the target name is not read as the identifier it stands for, a
/// compile-time error that says so. Where the directive is rejected, they are
/// a compile-time error with the message of the rejection. Where the tokens
/// do not parse, they are a compile-time error.
pub open spec fn expands_to(args: TokenStream, input: TokenStream, tokens: TokenStream) -> bool {
    match (parsed_item(input), parsed_args(args)) {
        (Some(item), Some(list)) => match expansion(arg_models(list), struct_fields(item)) {
            Ok((name, kept)) => {
                ||| exists|generated: DeriveInput|
                    generated_from(generated, item, name, kept) && tokens
                        == #[trigger] pair_tokens(item, generated)
                ||| reports(tokens, message_of(ErrorModel::InvalidName { name }))
            },
            Err(e) => reports(tokens, message_of(e)),
        },
        _ => exists|message: Seq<char>| #[trigger] reports(tokens, message),
    }
}

/// Picking the fields at the kept positions is filtering the fields.
pub proof fn lemma_picked_is_filtered(strategy: StrategyModel, fields: Seq<FieldModel>, n: nat)
    requires
        all_named(fields),
        n <= fields.len(),
    ensures
        picked(fields, positions(n).filter(kept_at(strategy, names_of(fields)))) == fields.take(
            n as int,
        ).filter(keeping_field(strategy)),
    decreases n,
{
    let names = names_of(fields);
    let at = kept_at(strategy, names);
    let test = keeping_field(strategy);
    if n == 0 {
        reveal(Seq::filter);
        assert(positions(0).filter(at) =~= Seq::<int>::empty());
        assert(fields.take(0).filter(test) =~= Seq::<FieldModel>::empty());
        assert(picked(fields, Seq::<int>::empty()) =~= Seq::<FieldModel>::empty());
    } else {
        let m = (n - 1) as nat;
        lemma_picked_is_filtered(strategy, fields, m);
        assert(positions(n) == positions(m).push(m as int));
        positions(m).lemma_filter_push(m as int, at);
        assert(fields.take(n as int) == fields.take(m as int).push(fields[m as int]));
        fields.take(m as int).lemma_filter_push(fields[m as int], test);
        assert(at(m as int) == test(fields[m as int]));
        let before = positions(m).filter(at);
        if at(m as int) {
            assert(picked(fields, before.push(m as int)) == picked(fields, before).push(
                fields[m as int],
            ));
        }
    }
}

/// Reads the arguments out of a punctuated list.
pub fn read_args(args: &Punctuated<MetaNameValue, Comma>) -> (out: Vec<Arg>)
    ensures
        out.deep_view() == arg_models(*args),
{
    let n = arg_count(args);
    let mut out: Vec<Arg> = Vec::new();
    let mut i: usize = 0;
    while i < n
        invariant
            i <= n,
            n == arg_models(*args).len(),
            out.len() == i,
            forall|k: int| 0 <= k < i ==> (#[trigger] out[k])@ == arg_models(*args)[k],
        decreases n - i,
    {
        out.push(arg_at(args, i));
        i = i + 1;
    }
    assert(out.deep_view() =~= arg_models(*args));
    out
}

/// Reads the names of the fields out of a punctuated list: `None` where a
/// field has no name.
pub fn read_field_names(fields: &Punctuated<Field, Comma>) -> (r: Option<Vec<String>>)
    ensures
        match r {
            Some(names) => all_named(field_models(*fields)) && names.deep_view() == names_of(
                field_models(*fields),
            ),
            None => !all_named(field_models(*fields)),
        },
{
    let n = field_count(fields);
    let mut names: Vec<String> = Vec::new();
    let mut i: usize = 0;
    while i < n
        invariant
            i <= n,
            n == field_models(*fields).len(),
            names.len() == i,
            forall|k: int| 0 <= k < i ==> (#[trigger] field_models(*fields)[k]).name == Some(names[k]@),
        decreases n - i,
    {
        match field_name_at(fields, i) {
            Some(name) => {
                names.push(name);
            },
            None => {
                assert(field_models(*fields)[i as int].name is None);
                return None;
            },
        }
        i = i + 1;
    }
    assert(names.deep_view() =~= names_of(field_models(*fields)));
    Some(names)
}

/// Fills a new punctuated list with the fields at the given positions.
fn pick_fields(fields: &Punctuated<Field, Comma>, at: &Vec<usize>) -> (out: Punctuated<
    Field,
    Comma,
>)
    requires
        forall|k: int| 0 <= k < at.len() ==> (#[trigger] at[k]) < field_models(*fields).len(),
    ensures
        field_models(out) == picked(field_models(*fields), positions_of(at@)),
{
    let ghost all = field_models(*fields);
    let ghost places = positions_of(at@);
    let mut out = new_field_list();
    let mut k: usize = 0;
    while k < at.len()
        invariant
            k <= at.len(),
            all == field_models(*fields),
            places == positions_of(at@),
            forall|j: int| 0 <= j < at.len() ==> (#[trigger] at[j]) < all.len(),
            field_models(out) == picked(all, places.take(k as int)),
        decreases at.len() - k,
    {
        push_field(&mut out, fields, at[k]);
        assert(picked(all, places.take(k + 1)) == picked(all, places.take(k as int)).push(
            all[at[k as int] as int],
        ));
        k = k + 1;
    }
    assert(places.take(k as int) == places);
    out
}

/// Generates the struct that a configuration asks for from an item, given
/// the identifier that was read from the target name.
///
/// The item must be a struct whose fields all bear a name, every listed name
/// must be the name of a field, and the identifier must have been read and be
/// the target name as it stands. The generated struct is the item under that
/// identifier, with the fields that the strategy keeps, as they are and in
/// their declared order.
pub fn synthesize_with_ident(
    config: &SubStructAttributes,
    item: &DeriveInput,
    ident: Option<Ident>,
) -> (r: Result<DeriveInput, SubStructError>)
    ensures
        match synthesis(config@, struct_fields(*item), read_name(ident)) {
            Ok(kept) => r matches Ok(generated) && generated_from(
                generated,
                *item,
                config.name@,
                kept,
            ),
            Err(e) => r matches Err(actual) && actual@ == e,
        },
{
    let fields = match named_fields(item) {
        Some(fields) => fields,
        None => {
            return Err(SubStructError::UnsupportedShape);
        },
    };
    let names = match read_field_names(fields) {
        Some(names) => names,
        None => {
            return Err(SubStructError::UnsupportedShape);
        },
    };
    let kept = match select_fields(&config.strategy, &names) {
        Ok(kept) => kept,
        Err(e) => {
            return Err(e);
        },
    };
    let ident = match ident {
        Some(ident) => ident,
        None => {
            return Err(SubStructError::InvalidName { name: config.name.clone() });
        },
    };
    if ident_text(&ident) != config.name {
        return Err(SubStructError::InvalidName { name: config.name.clone() });
    }
    proof {
        let all = field_models(*fields);
        lemma_kept_positions(config.strategy@, names_of(all));
        lemma_picked_is_filtered(config.strategy@, all, all.len());
        assert(all.take(all.len() as int) == all);
        assert forall|k: int| 0 <= k < kept.len() implies (#[trigger] kept[k]) < all.len() by {
            assert(positions_of(kept@)[k] == kept_positions(config.strategy@, names_of(all))[k]);
        }
    }
    let chosen = pick_fields(fields, &kept);
    let ghost witness = (ident, chosen);
    let generated = with_fields(item, ident, chosen);
    assert(struct_with(*item, witness.0, witness.1) == generated);
    Ok(generated)
}

/// Generates the struct that a configuration asks for from an item.
///
/// The item must be a struct whose fields all bear a name, and every listed
/// name must be the name of a field. The target name is then read as an
/// identifier: where it is read as the identifier it stands for, the
/// generated struct is the item under that name, with the fields that the
/// strategy keeps, as they are and in their declared order; where it is not,
/// the name is refused.
pub fn synthesize(config: &SubStructAttributes, item: &DeriveInput) -> (r: Result<
    DeriveInput,
    SubStructError,
>)
    ensures
        match plan(config.strategy@, struct_fields(*item)) {
            Ok(kept) => named_or_refused(r, *item, config.name@, kept),
            Err(e) => r matches Err(actual) && actual@ == e,
        },
{
    let ident = parse_ident(config.name.as_str());
    synthesize_with_ident(config, item, ident)
}

/// Parses the directive's arguments into a configuration.
///
/// The arguments are read in order and the first faulty one ends the parse:
/// a key other than `name`, `remove` and `retain`, a `name` that is no string
/// literal, a list that is no array of string literals. A key given again
/// replaces what was given before. Then the name must not be empty, and
/// exactly one of the two lists must name a field.
pub fn parse_sub_struct_args(args: &Punctuated<MetaNameValue, Comma>) -> (r: Result<
    SubStructAttributes,
    SubStructError,
>)
    ensures
        outcome_of(r) == parse_spec(arg_models(*args)),
{
    let read = read_args(args);
    parse_args(&read)
}

/// Generates the struct that the directive's arguments ask for from an item.
///
/// The arguments are parsed first, so what is wrong with them is reported
/// before what is wrong with the item.
pub fn expand(args: &Punctuated<MetaNameValue, Comma>, item: &DeriveInput) -> (r: Result<
    DeriveInput,
    SubStructError,
>)
    ensures
        match expansion(arg_models(*args), struct_fields(*item)) {
            Ok((name, kept)) => named_or_refused(r, *item, name, kept),
            Err(e) => r matches Err(actual) && actual@ == e,
        },
{
    match parse_sub_struct_args(args) {
        Ok(config) => synthesize(&config, item),
        Err(e) => Err(e),
    }
}

/// Makes the diagnostic of an error from the spans it can be attached to:
/// that of the argument the error names, where the list holds it, that of the
/// item's name, and that of the directive as a whole.
pub fn locate(e: &SubStructError, argument: Option<Span>, name: Span, site: Span) -> (located:
    syn::Error)
    ensures
        error_message(located) == message_of(e@),
        error_span(located) == place_of(anchor_of(e@), argument, name, site),
{
    let message = e.message();
    match e.anchor() {
        Anchor::Argument(_) => match argument {
            Some(span) => error_at(span, message.as_str()),
            None => error_at(site, message.as_str()),
        },
        Anchor::ItemName => error_at(name, message.as_str()),
        Anchor::CallSite => error_at(site, message.as_str()),
    }
}

/// Attaches a diagnostic to its place in the source: to the argument it
/// names, to the item's name, or to the directive as a whole. The spans are
/// asked of the list, of the item and of the call site, and [`locate`] picks
/// among them.
pub fn diagnostic(
    e: &SubStructError,
    args: &Punctuated<MetaNameValue, Comma>,
    item: &DeriveInput,
) -> (located: syn::Error)
    ensures
        error_message(located) == message_of(e@),
{
    let argument = match e.anchor() {
        Anchor::Argument(i) => if i < arg_count(args) {
            Some(arg_span_at(args, i))
        } else {
            None
        },
        _ => None,
    };
    locate(e, argument, name_span_of(item), call_site())
}

/// Expands the directive: from the tokens of its arguments and the tokens of
/// the item it is attached to, the tokens that take the item's place.
///
/// These are the item as it was parsed, followed by the generated struct; or,
/// where the tokens do not parse or the directive is rejected, the tokens of a
/// diagnostic and nothing else.
pub fn sub_struct(args: TokenStream, input: TokenStream) -> (tokens: TokenStream)
    ensures
        expands_to(args, input, tokens),
{
    let item = match parse_item(input) {
        Ok(item) => item,
        Err(e) => {
            return diagnostic_tokens(&e);
        },
    };
    let list = match parse_arg_list(args) {
        Ok(list) => list,
        Err(e) => {
            return diagnostic_tokens(&e);
        },
    };
    match expand(&list, &item) {
        Ok(generated) => emit_pair(&item, &generated),
        Err(e) => diagnostic_tokens(&diagnostic(&e, &list, &item)),
    }
}

} // verus!
