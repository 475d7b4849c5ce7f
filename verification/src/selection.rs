//! Which fields a strategy keeps, and which listed names no field bears.

use crate::directive::{kind_of, listed_of, Strategy, StrategyModel};
use crate::error::{ErrorModel, SubStructError};
use vstd::prelude::*;

verus! {

/// The test for a name that is none of `names`.
pub open spec fn not_among(names: Seq<Seq<char>>) -> spec_fn(Seq<char>) -> bool {
    |name: Seq<char>| !names.contains(name)
}

/// The listed names that no field bears, in listed order, each as often as it
/// is listed.
pub open spec fn unrecognized(listed: Seq<Seq<char>>, fields: Seq<Seq<char>>) -> Seq<Seq<char>> {
    listed.filter(not_among(fields))
}

/// Whether a strategy keeps the field of the given name.
pub open spec fn keeps(strategy: StrategyModel, field: Seq<char>) -> bool {
    match strategy {
        StrategyModel::Remove(listed) => !listed.contains(field),
        StrategyModel::Retain(listed) => listed.contains(field),
    }
}

/// The test for a position whose field a strategy keeps.
pub open spec fn kept_at(strategy: StrategyModel, fields: Seq<Seq<char>>) -> spec_fn(int) -> bool {
    |at: int| keeps(strategy, fields[at])
}

/// The positions `0`, `1`, .. below `n`.
pub open spec fn positions(n: nat) -> Seq<int> {
    Seq::new(n, |at: int| at)
}

/// The positions of the fields that a strategy keeps, in rising order.
pub open spec fn kept_positions(strategy: StrategyModel, fields: Seq<Seq<char>>) -> Seq<int> {
    positions(fields.len()).filter(kept_at(strategy, fields))
}

/// What a strategy selects from the fields of the given names: the positions
/// of the fields it keeps, unless it lists a name that no field bears.
pub open spec fn selection(strategy: StrategyModel, fields: Seq<Seq<char>>) -> Result<
    Seq<int>,
    ErrorModel,
> {
    let strangers = unrecognized(listed_of(strategy), fields);
    if strangers.len() > 0 {
        Err(ErrorModel::InvalidFields { list: kind_of(strategy), names: strangers })
    } else {
        Ok(kept_positions(strategy, fields))
    }
}

/// The kept positions lie within the fields and rise, and they are the
/// positions of the fields that the strategy keeps, all of them.
pub proof fn lemma_kept_positions(strategy: StrategyModel, fields: Seq<Seq<char>>)
    ensures
        forall|k: int|
            0 <= k < kept_positions(strategy, fields).len() ==> {
                let at = #[trigger] kept_positions(strategy, fields)[k];
                0 <= at < fields.len() && keeps(strategy, fields[at])
            },
        forall|j: int, k: int|
            0 <= j < k < kept_positions(strategy, fields).len() ==> kept_positions(
                strategy,
                fields,
            )[j] < kept_positions(strategy, fields)[k],
        forall|at: int|
            0 <= at < fields.len() && keeps(strategy, fields[at]) ==> kept_positions(
                strategy,
                fields,
            ).contains(at),
{
    lemma_kept_below(strategy, fields, fields.len());
}

/// What [`lemma_kept_positions`] says, of the positions below `n`.
proof fn lemma_kept_below(strategy: StrategyModel, fields: Seq<Seq<char>>, n: nat)
    requires
        n <= fields.len(),
    ensures
        forall|k: int|
            0 <= k < positions(n).filter(kept_at(strategy, fields)).len() ==> {
                let at = #[trigger] positions(n).filter(kept_at(strategy, fields))[k];
                0 <= at < n && keeps(strategy, fields[at])
            },
        forall|j: int, k: int|
            0 <= j < k < positions(n).filter(kept_at(strategy, fields)).len() ==> positions(
                n,
            ).filter(kept_at(strategy, fields))[j] < positions(n).filter(
                kept_at(strategy, fields),
            )[k],
        forall|at: int|
            0 <= at < n && keeps(strategy, fields[at]) ==> positions(n).filter(
                kept_at(strategy, fields),
            ).contains(at),
    decreases n,
{
    let test = kept_at(strategy, fields);
    if n == 0 {
        reveal(Seq::filter);
        assert(positions(0).filter(test) =~= Seq::<int>::empty());
    } else {
        let m = (n - 1) as nat;
        lemma_kept_below(strategy, fields, m);
        assert(positions(n) == positions(m).push(m as int));
        positions(m).lemma_filter_push(m as int, test);
        let before = positions(m).filter(test);
        let after = positions(n).filter(test);
        assert forall|at: int| 0 <= at < n && keeps(strategy, fields[at]) implies after.contains(
            at,
        ) by {
            if at < m {
                assert(before.contains(at));
                let k = choose|k: int| 0 <= k < before.len() && before[k] == at;
                assert(after[k] == at);
            } else {
                assert(test(m as int));
                assert(after[after.len() - 1] == at);
            }
        }
    }
}

/// The positions that a vector of indices holds.
pub open spec fn positions_of(indices: Seq<usize>) -> Seq<int> {
    Seq::new(indices.len(), |k: int| indices[k] as int)
}

/// Whether `name` is one of `names`.
pub fn contains_name(names: &Vec<String>, name: &String) -> (found: bool)
    ensures
        found == names.deep_view().contains(name@),
{
    let mut i: usize = 0;
    while i < names.len()
        invariant
            i <= names.len(),
            forall|k: int| 0 <= k < i ==> (#[trigger] names.deep_view()[k]) != name@,
        decreases names.len() - i,
    {
        if names[i] == *name {
            assert(names.deep_view()[i as int] == name@);
            return true;
        }
        i = i + 1;
    }
    false
}

/// The listed names that no field bears, in listed order.
pub fn unrecognized_fields(listed: &Vec<String>, fields: &Vec<String>) -> (strangers: Vec<String>)
    ensures
        strangers.deep_view() == unrecognized(listed.deep_view(), fields.deep_view()),
{
    let ghost all = listed.deep_view();
    let ghost test = not_among(fields.deep_view());
    let mut strangers: Vec<String> = Vec::new();
    let mut i: usize = 0;
    proof {
        reveal(Seq::filter);
        assert(all.take(0).filter(test) =~= Seq::<Seq<char>>::empty());
    }
    while i < listed.len()
        invariant
            i <= listed.len(),
            all == listed.deep_view(),
            test == not_among(fields.deep_view()),
            strangers.deep_view() == all.take(i as int).filter(test),
        decreases listed.len() - i,
    {
        proof {
            assert(all.take(i + 1) == all.take(i as int).push(listed[i as int]@));
            all.take(i as int).lemma_filter_push(listed[i as int]@, test);
        }
        if !contains_name(fields, &listed[i]) {
            let ghost before = strangers.deep_view();
            strangers.push(listed[i].clone());
            assert(strangers.deep_view() == before.push(listed[i as int]@));
        }
        i = i + 1;
    }
    proof {
        assert(all.take(i as int) == all);
    }
    strangers
}

impl Strategy {
    /// Whether the strategy keeps the field of the given name.
    pub fn keeps(&self, field: &String) -> (kept: bool)
        ensures
            kept == keeps(self@, field@),
    {
        match self {
            Strategy::Remove(listed) => !contains_name(listed, field),
            Strategy::Retain(listed) => contains_name(listed, field),
        }
    }
}

/// Selects the fields of the generated struct from the names of the
/// struct's fields, given in declared order.
///
/// Every listed name must be the name of a field: if one is not, the
/// error names all that are not. Otherwise the result holds the positions of
/// the fields that the strategy keeps, in rising order.
pub fn select_fields(strategy: &Strategy, fields: &Vec<String>) -> (r: Result<
    Vec<usize>,
    SubStructError,
>)
    ensures
        match r {
            Ok(kept) => selection(strategy@, fields.deep_view()) == Ok::<Seq<int>, ErrorModel>(
                positions_of(kept@),
            ),
            Err(e) => selection(strategy@, fields.deep_view()) == Err::<Seq<int>, ErrorModel>(e@),
        },
{
    let strangers = unrecognized_fields(strategy.listed(), fields);
    if strangers.len() > 0 {
        return Err(SubStructError::InvalidFields { list: strategy.kind(), names: strangers });
    }
    let ghost names = fields.deep_view();
    let ghost test = kept_at(strategy@, names);
    let mut kept: Vec<usize> = Vec::new();
    let mut i: usize = 0;
    proof {
        reveal(Seq::filter);
        assert(positions(0).filter(test) =~= Seq::<int>::empty());
    }
    while i < fields.len()
        invariant
            i <= fields.len(),
            names == fields.deep_view(),
            test == kept_at(strategy@, names),
            positions_of(kept@) == positions(i as nat).filter(test),
        decreases fields.len() - i,
    {
        proof {
            assert(positions((i + 1) as nat) == positions(i as nat).push(i as int));
            positions(i as nat).lemma_filter_push(i as int, test);
        }
        if strategy.keeps(&fields[i]) {
            let ghost before = positions_of(kept@);
            kept.push(i);
            assert(positions_of(kept@) == before.push(i as int));
        }
        i = i + 1;
    }
    Ok(kept)
}

} // verus!
