//! What holds of every directive and every struct.

use crate::directive::{
    kind_of, listed_of, listed_under, parse_spec, settle, target_name, ArgModel, AttributesModel,
    StrategyModel,
};
use crate::error::ErrorModel;
use crate::generate::{
    all_named, expansion, keeping_field, lemma_picked_is_filtered, names_of, plan, synthesis,
};
use crate::selection::{
    kept_at, kept_positions, keeps, lemma_kept_positions, not_among, positions, selection,
    unrecognized,
};
use crate::syntax::FieldModel;
use vstd::prelude::*;

verus! {

/// Two tests that agree on every element of a sequence filter it alike.
pub proof fn lemma_filter_agree<A>(s: Seq<A>, p: spec_fn(A) -> bool, q: spec_fn(A) -> bool)
    requires
        forall|i: int| 0 <= i < s.len() ==> p(#[trigger] s[i]) == q(s[i]),
    ensures
        s.filter(p) == s.filter(q),
    decreases s.len(),
{
    reveal(Seq::filter);
    if s.len() > 0 {
        assert forall|i: int| 0 <= i < s.drop_last().len() implies p(#[trigger] s.drop_last()[i])
            == q(s.drop_last()[i]) by {
            assert(s.drop_last()[i] == s[i]);
        }
        lemma_filter_agree(s.drop_last(), p, q);
    }
}

/// What a filtered sequence holds is what the sequence holds and the test
/// accepts.
pub proof fn lemma_filter_members<A>(s: Seq<A>, p: spec_fn(A) -> bool)
    ensures
        forall|x: A| #[trigger] s.filter(p).contains(x) <==> s.contains(x) && p(x),
{
    assert forall|x: A| #[trigger] s.filter(p).contains(x) <==> s.contains(x) && p(x) by {
        if s.filter(p).contains(x) {
            s.lemma_filter_contains_rev(p, x);
            let k = choose|k: int| 0 <= k < s.filter(p).len() && s.filter(p)[k] == x;
            s.lemma_filter_pred(p, k);
        }
        if s.contains(x) && p(x) {
            let i = choose|i: int| 0 <= i < s.len() && s[i] == x;
            s.lemma_filter_contains(p, i);
        }
    }
}

/// The unrecognized names are the listed names that no field bears: each of
/// them, and nothing else.
pub proof fn lemma_unrecognized_exactly(listed: Seq<Seq<char>>, fields: Seq<Seq<char>>)
    ensures
        forall|name: Seq<char>| #[trigger]
            unrecognized(listed, fields).contains(name) <==> listed.contains(name)
                && !fields.contains(name),
        unrecognized(listed, fields).len() > 0 <==> exists|name: Seq<char>| #[trigger]
            listed.contains(name) && !fields.contains(name),
{
    let test = not_among(fields);
    let strangers = unrecognized(listed, fields);
    lemma_filter_members(listed, test);
    if strangers.len() > 0 {
        assert(strangers.contains(strangers[0]));
        assert(listed.contains(strangers[0]) && !fields.contains(strangers[0]));
    }
    if exists|name: Seq<char>| #[trigger] listed.contains(name) && !fields.contains(name) {
        let name = choose|name: Seq<char>| #[trigger]
            listed.contains(name) && !fields.contains(name);
        assert(strangers.contains(name));
    }
}

/// A listed name that no field bears is an error, and the error names the
/// listed names that no field bears: each of them, and nothing else. Where
/// every listed name is the name of a field, the selection succeeds.
pub proof fn lemma_strangers_are_named(strategy: StrategyModel, fields: Seq<Seq<char>>)
    ensures
        selection(strategy, fields) is Err <==> exists|name: Seq<char>| #[trigger]
            listed_of(strategy).contains(name) && !fields.contains(name),
        selection(strategy, fields) matches Err(e) ==> e matches ErrorModel::InvalidFields {
            list,
            names,
        } && list == kind_of(strategy) && forall|name: Seq<char>| #[trigger]
            names.contains(name) <==> listed_of(strategy).contains(name) && !fields.contains(name),
{
    lemma_unrecognized_exactly(listed_of(strategy), fields);
}

/// Retaining some of the fields of a struct and removing all its other
/// fields generate the same struct: both directives are accepted, and they
/// keep the same fields, at the same positions.
pub proof fn lemma_retain_is_remove_of_the_rest(
    fields: Seq<FieldModel>,
    retain: Seq<Seq<char>>,
    remove: Seq<Seq<char>>,
)
    requires
        all_named(fields),
        forall|field: Seq<char>| #[trigger] retain.contains(field) ==> names_of(fields).contains(field),
        forall|field: Seq<char>| #[trigger]
            remove.contains(field) <==> names_of(fields).contains(field) && !retain.contains(field),
    ensures
        selection(StrategyModel::Retain(retain), names_of(fields)) is Ok,
        selection(StrategyModel::Remove(remove), names_of(fields)) is Ok,
        kept_positions(StrategyModel::Retain(retain), names_of(fields)) == kept_positions(
            StrategyModel::Remove(remove),
            names_of(fields),
        ),
        plan(StrategyModel::Retain(retain), Some(fields)) == plan(
            StrategyModel::Remove(remove),
            Some(fields),
        ),
        plan(StrategyModel::Retain(retain), Some(fields)) == Ok::<Seq<FieldModel>, ErrorModel>(
            fields.filter(keeping_field(StrategyModel::Retain(retain))),
        ),
        forall|name: Seq<char>, read: Option<Seq<char>>|
            synthesis(
                AttributesModel { name, strategy: StrategyModel::Retain(retain) },
                Some(fields),
                read,
            ) == #[trigger] synthesis(
                AttributesModel { name, strategy: StrategyModel::Remove(remove) },
                Some(fields),
                read,
            ),
{
    let names = names_of(fields);
    let by_retain = StrategyModel::Retain(retain);
    let by_remove = StrategyModel::Remove(remove);
    lemma_unrecognized_exactly(retain, names);
    lemma_unrecognized_exactly(remove, names);
    assert forall|i: int| 0 <= i < fields.len() implies keeping_field(by_retain)(
        #[trigger] fields[i],
    ) == keeping_field(by_remove)(fields[i]) by {
        assert(names[i] == fields[i].name->0);
        assert(names.contains(names[i]));
    }
    lemma_filter_agree(fields, keeping_field(by_retain), keeping_field(by_remove));
    let all = positions(names.len());
    assert forall|i: int| 0 <= i < all.len() implies kept_at(by_retain, names)(#[trigger] all[i])
        == kept_at(by_remove, names)(all[i]) by {
        assert(names.contains(names[i]));
    }
    lemma_filter_agree(all, kept_at(by_retain, names), kept_at(by_remove, names));
}

/// The fields of the generated struct are fields of the item at rising
/// positions, so they stand in the order in which the item declares them; and
/// they are all the fields that the strategy keeps.
pub proof fn lemma_generated_in_declared_order(strategy: StrategyModel, fields: Seq<FieldModel>)
    requires
        plan(strategy, Some(fields)) is Ok,
    ensures
        ({
            let kept = plan(strategy, Some(fields))->Ok_0;
            let at = kept_positions(strategy, names_of(fields));
            &&& kept.len() == at.len()
            &&& forall|k: int|
                0 <= k < kept.len() ==> 0 <= at[k] < fields.len() && #[trigger] kept[k]
                    == fields[at[k]]
            &&& forall|j: int, k: int| 0 <= j < k < at.len() ==> at[j] < at[k]
            &&& forall|i: int|
                0 <= i < fields.len() && keeps(strategy, names_of(fields)[i])
                    ==> at.contains(i)
        }),
{
    let names = names_of(fields);
    lemma_kept_positions(strategy, names);
    lemma_picked_is_filtered(strategy, fields, fields.len());
    assert(fields.take(fields.len() as int) == fields);
    let at = kept_positions(strategy, names);
    assert forall|i: int|
        0 <= i < fields.len() && keeps(strategy, names[i]) implies at.contains(i) by {
        assert(keeps(strategy, names[i]));
    }
}

/// The order in which a directive lists its fields does not matter: two
/// strategies of one kind that list the same names are accepted alike and
/// generate the same fields.
pub proof fn lemma_listing_order_is_immaterial(
    fields: Option<Seq<FieldModel>>,
    first: StrategyModel,
    second: StrategyModel,
)
    requires
        kind_of(first) == kind_of(second),
        forall|field: Seq<char>|
            listed_of(first).contains(field) <==> listed_of(second).contains(field),
    ensures
        plan(first, fields) is Ok <==> plan(second, fields) is Ok,
        plan(first, fields) is Ok ==> plan(first, fields) == plan(second, fields),
        forall|name: Seq<char>, read: Option<Seq<char>>|
            plan(first, fields) is Ok ==> synthesis(
                AttributesModel { name, strategy: first },
                fields,
                read,
            ) == #[trigger] synthesis(AttributesModel { name, strategy: second }, fields, read),
{
    if fields is Some && all_named(fields->0) {
        let fields = fields->0;
        let names = names_of(fields);
        lemma_unrecognized_exactly(listed_of(first), names);
        lemma_unrecognized_exactly(listed_of(second), names);
        if exists|field: Seq<char>| #[trigger]
            listed_of(first).contains(field) && !names.contains(field) {
            let field = choose|field: Seq<char>| #[trigger]
                listed_of(first).contains(field) && !names.contains(field);
            assert(listed_of(second).contains(field) && !names.contains(field));
        }
        if exists|field: Seq<char>| #[trigger]
            listed_of(second).contains(field) && !names.contains(field) {
            let field = choose|field: Seq<char>| #[trigger]
                listed_of(second).contains(field) && !names.contains(field);
            assert(listed_of(first).contains(field) && !names.contains(field));
        }
        assert forall|i: int| 0 <= i < fields.len() implies keeping_field(first)(
            #[trigger] fields[i],
        ) == keeping_field(second)(fields[i]) by {}
        lemma_filter_agree(fields, keeping_field(first), keeping_field(second));
    }
}

/// A directive whose arguments parse to a configuration asks, of a struct
/// with named fields that bears every listed name, for the struct of the
/// target name with exactly the fields that the strategy keeps, in declared
/// order.
pub proof fn lemma_valid_directive_expands(args: Seq<ArgModel>, fields: Seq<FieldModel>)
    requires
        parse_spec(args) is Ok,
        all_named(fields),
        forall|field: Seq<char>| #[trigger]
            listed_of(parse_spec(args)->Ok_0.strategy).contains(field) ==> names_of(
                fields,
            ).contains(field),
    ensures
        expansion(args, Some(fields)) == Ok::<(Seq<char>, Seq<FieldModel>), ErrorModel>(
            (
                parse_spec(args)->Ok_0.name,
                fields.filter(keeping_field(parse_spec(args)->Ok_0.strategy)),
            ),
        ),
{
    let strategy = parse_spec(args)->Ok_0.strategy;
    lemma_unrecognized_exactly(listed_of(strategy), names_of(fields));
}

/// Two directives that settle on the same name and on strategies of one kind
/// that list the same names, in whatever order and however often, ask for the
/// same struct of any item.
pub proof fn lemma_expansion_ignores_listing_order(
    first: Seq<ArgModel>,
    second: Seq<ArgModel>,
    fields: Option<Seq<FieldModel>>,
)
    requires
        parse_spec(first) is Ok,
        parse_spec(second) is Ok,
        parse_spec(first)->Ok_0.name == parse_spec(second)->Ok_0.name,
        kind_of(parse_spec(first)->Ok_0.strategy) == kind_of(parse_spec(second)->Ok_0.strategy),
        forall|field: Seq<char>|
            listed_of(parse_spec(first)->Ok_0.strategy).contains(field) <==> listed_of(
                parse_spec(second)->Ok_0.strategy,
            ).contains(field),
    ensures
        expansion(first, fields) is Ok <==> expansion(second, fields) is Ok,
        expansion(first, fields) is Ok ==> expansion(first, fields) == expansion(second, fields),
{
    lemma_listing_order_is_immaterial(
        fields,
        parse_spec(first)->Ok_0.strategy,
        parse_spec(second)->Ok_0.strategy,
    );
}

/// A directive that lists fields both to remove and to retain is rejected,
/// whatever the lists hold.
pub proof fn lemma_both_lists_rejected(args: Seq<ArgModel>)
    requires
        listed_under(args, "remove"@).len() > 0,
        listed_under(args, "retain"@).len() > 0,
    ensures
        parse_spec(args) is Err,
        forall|name: Seq<char>|
            settle(name, listed_under(args, "remove"@), listed_under(args, "retain"@)) is Err,
{
}

/// A directive that lists no field, neither to remove nor to retain, is
/// rejected.
pub proof fn lemma_no_list_rejected(args: Seq<ArgModel>)
    requires
        listed_under(args, "remove"@).len() == 0,
        listed_under(args, "retain"@).len() == 0,
    ensures
        parse_spec(args) is Err,
        forall|name: Seq<char>|
            settle(name, listed_under(args, "remove"@), listed_under(args, "retain"@)) is Err,
{
}

/// A directive without a name, or with an empty one, is rejected.
pub proof fn lemma_name_required(args: Seq<ArgModel>)
    requires
        target_name(args).len() == 0,
    ensures
        parse_spec(args) is Err,
{
}

/// Any name that is not empty settles with exactly one list that is not
/// empty: what the name is, and whether something else bears it, plays no
/// part.
pub proof fn lemma_any_name_settles(name: Seq<char>, remove: Seq<Seq<char>>, retain: Seq<Seq<char>>)
    ensures
        settle(name, remove, retain) is Ok <==> name.len() > 0 && (remove.len() > 0) != (
        retain.len() > 0),
        settle(name, remove, retain) matches Ok(config) ==> config.name == name,
{
}

/// A target name that is read as the identifier it stands for names the
/// generated struct, also where the item itself or one of its fields bears
/// that name: what the name is plays no part in which fields are kept, and the
/// struct is generated whenever the item has named fields and every listed
/// name is the name of a field.
pub proof fn lemma_name_may_collide(config: AttributesModel, fields: Seq<FieldModel>)
    requires
        all_named(fields),
        selection(config.strategy, names_of(fields)) is Ok,
    ensures
        plan(config.strategy, Some(fields)) == Ok::<Seq<FieldModel>, ErrorModel>(
            fields.filter(keeping_field(config.strategy)),
        ),
        synthesis(config, Some(fields), Some(config.name)) == Ok::<Seq<FieldModel>, ErrorModel>(
            fields.filter(keeping_field(config.strategy)),
        ),
{
}

} // verus!
