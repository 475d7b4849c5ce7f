//! The directive's arguments and the configuration they settle on.

use crate::error::{ErrorModel, ListKind, SubStructError};
use vstd::prelude::*;

verus! {

/// The value of one directive argument, as far as the directive reads it.
#[derive(Debug, Clone)]
pub enum ArgValue {
    /// A string literal, with the text it stands for.
    Str(String),
    /// An array literal. An element that is a string literal is given by its
    /// text, any other element by `None`.
    Array(Vec<Option<String>>),
    /// Any other literal or expression.
    Other,
}

/// The mathematical value of an [`ArgValue`].
pub enum ValueModel {
    Str(Seq<char>),
    Array(Seq<Option<Seq<char>>>),
    Other,
}

impl View for ArgValue {
    type V = ValueModel;

    open spec fn view(&self) -> ValueModel {
        match self {
            ArgValue::Str(text) => ValueModel::Str(text@),
            ArgValue::Array(items) => ValueModel::Array(items.deep_view()),
            ArgValue::Other => ValueModel::Other,
        }
    }
}

/// One `key = value` argument of the directive.
#[derive(Debug, Clone)]
pub struct Arg {
    pub key: String,
    pub value: ArgValue,
}

/// The mathematical value of an [`Arg`].
pub struct ArgModel {
    pub key: Seq<char>,
    pub value: ValueModel,
}

impl View for Arg {
    type V = ArgModel;

    open spec fn view(&self) -> ArgModel {
        ArgModel { key: self.key@, value: self.value@ }
    }
}

impl DeepView for Arg {
    type V = ArgModel;

    open spec fn deep_view(&self) -> ArgModel {
        self@
    }
}

/// How the fields of the generated struct are chosen.
#[derive(Debug, Clone)]
pub enum Strategy {
    /// Every field but the listed ones.
    Remove(Vec<String>),
    /// The listed fields only.
    Retain(Vec<String>),
}

/// The mathematical value of a [`Strategy`].
pub enum StrategyModel {
    Remove(Seq<Seq<char>>),
    Retain(Seq<Seq<char>>),
}

impl View for Strategy {
    type V = StrategyModel;

    open spec fn view(&self) -> StrategyModel {
        match self {
            Strategy::Remove(listed) => StrategyModel::Remove(listed.deep_view()),
            Strategy::Retain(listed) => StrategyModel::Retain(listed.deep_view()),
        }
    }
}

/// A validated directive: the target name and the selection strategy.
#[derive(Debug, Clone)]
pub struct SubStructAttributes {
    pub name: String,
    pub strategy: Strategy,
}

/// The mathematical value of a [`SubStructAttributes`].
pub struct AttributesModel {
    pub name: Seq<char>,
    pub strategy: StrategyModel,
}

impl View for SubStructAttributes {
    type V = AttributesModel;

    open spec fn view(&self) -> AttributesModel {
        AttributesModel { name: self.name@, strategy: self.strategy@ }
    }
}

impl Strategy {
    /// Which list the strategy came from.
    pub fn kind(&self) -> (k: ListKind)
        ensures
            k == kind_of(self@),
    {
        match self {
            Strategy::Remove(_) => ListKind::Remove,
            Strategy::Retain(_) => ListKind::Retain,
        }
    }

    /// The names that the directive listed, in listed order.
    pub fn listed(&self) -> (names: &Vec<String>)
        ensures
            names.deep_view() == listed_of(self@),
    {
        match self {
            Strategy::Remove(names) => names,
            Strategy::Retain(names) => names,
        }
    }
}

/// Which list a strategy came from.
pub open spec fn kind_of(strategy: StrategyModel) -> ListKind {
    match strategy {
        StrategyModel::Remove(_) => ListKind::Remove,
        StrategyModel::Retain(_) => ListKind::Retain,
    }
}

/// The names that a strategy lists.
pub open spec fn listed_of(strategy: StrategyModel) -> Seq<Seq<char>> {
    match strategy {
        StrategyModel::Remove(names) => names,
        StrategyModel::Retain(names) => names,
    }
}

/// Whether a value is an array literal of string literals only.
pub open spec fn is_string_list(value: ValueModel) -> bool {
    value matches ValueModel::Array(items) && forall|j: int|
        0 <= j < items.len() ==> (#[trigger] items[j]) is Some
}

/// The texts of an array's elements.
pub open spec fn strings_of(items: Seq<Option<Seq<char>>>) -> Seq<Seq<char>> {
    Seq::new(items.len(), |j: int| items[j]->0)
}

/// What is wrong with the argument at position `at`, taken by itself: a key
/// that the directive does not know, or a value of the wrong shape for its key.
pub open spec fn arg_fault(arg: ArgModel, at: int) -> Option<ErrorModel> {
    if arg.key == "name"@ {
        if arg.value is Str {
            None
        } else {
            Some(ErrorModel::NameNotString { arg: at })
        }
    } else if arg.key == "remove"@ {
        if is_string_list(arg.value) {
            None
        } else {
            Some(ErrorModel::ListNotStrings { list: ListKind::Remove, arg: at })
        }
    } else if arg.key == "retain"@ {
        if is_string_list(arg.value) {
            None
        } else {
            Some(ErrorModel::ListNotStrings { list: ListKind::Retain, arg: at })
        }
    } else {
        Some(ErrorModel::UnknownKey { key: arg.key })
    }
}

/// The fault of the first faulty argument, if there is one.
pub open spec fn first_fault(args: Seq<ArgModel>) -> Option<ErrorModel>
    decreases args.len(),
{
    if args.len() == 0 {
        None
    } else {
        match first_fault(args.drop_last()) {
            Some(e) => Some(e),
            None => arg_fault(args.last(), args.len() - 1),
        }
    }
}

/// The value of the last argument with the given key, if there is one.
pub open spec fn last_value(args: Seq<ArgModel>, key: Seq<char>) -> Option<ValueModel>
    decreases args.len(),
{
    if args.len() == 0 {
        None
    } else if args.last().key == key {
        Some(args.last().value)
    } else {
        last_value(args.drop_last(), key)
    }
}

/// The target name that the arguments settle on: the last `name` given, and
/// the empty string where none is.
pub open spec fn target_name(args: Seq<ArgModel>) -> Seq<char> {
    match last_value(args, "name"@) {
        Some(ValueModel::Str(text)) => text,
        _ => Seq::empty(),
    }
}

/// The names that the arguments settle on for a list attribute: those of the
/// last list given under that key, and none where no list is.
pub open spec fn listed_under(args: Seq<ArgModel>, key: Seq<char>) -> Seq<Seq<char>> {
    match last_value(args, key) {
        Some(ValueModel::Array(items)) => strings_of(items),
        _ => Seq::empty(),
    }
}

/// The configuration that a name and two lists amount to. The name comes
/// first: without one nothing else is looked at. Then exactly one of the two
/// lists must name a field.
pub open spec fn settle(name: Seq<char>, remove: Seq<Seq<char>>, retain: Seq<Seq<char>>) -> Result<
    AttributesModel,
    ErrorModel,
> {
    if name.len() == 0 {
        Err(ErrorModel::MissingName)
    } else if (remove.len() == 0) == (retain.len() == 0) {
        Err(ErrorModel::StrategyCount)
    } else if remove.len() > 0 {
        Ok(AttributesModel { name, strategy: StrategyModel::Remove(remove) })
    } else {
        Ok(AttributesModel { name, strategy: StrategyModel::Retain(retain) })
    }
}

/// What a list of arguments parses to: the fault of the first faulty
/// argument, or else what the name and the lists settle on.
pub open spec fn parse_spec(args: Seq<ArgModel>) -> Result<AttributesModel, ErrorModel> {
    match first_fault(args) {
        Some(e) => Err(e),
        None => settle(target_name(args), listed_under(args, "remove"@), listed_under(args, "retain"@)),
    }
}

/// The mathematical value of a parse result.
pub open spec fn outcome_of(r: Result<SubStructAttributes, SubStructError>) -> Result<
    AttributesModel,
    ErrorModel,
> {
    match r {
        Ok(attributes) => Ok(attributes@),
        Err(e) => Err(e@),
    }
}

/// A fault within a prefix of the arguments is the fault of the whole list.
pub proof fn lemma_fault_in_prefix(args: Seq<ArgModel>, n: int)
    requires
        0 <= n <= args.len(),
        first_fault(args.take(n)) is Some,
    ensures
        first_fault(args) == first_fault(args.take(n)),
    decreases args.len() - n,
{
    if n < args.len() {
        assert(args.take(n + 1).drop_last() == args.take(n));
        lemma_fault_in_prefix(args, n + 1);
    } else {
        assert(args.take(n) == args);
    }
}

/// Settles a name and two lists into a configuration.
pub fn settle_attributes(name: String, remove: Vec<String>, retain: Vec<String>) -> (r: Result<
    SubStructAttributes,
    SubStructError,
>)
    ensures
        outcome_of(r) == settle(name@, remove.deep_view(), retain.deep_view()),
{
    if name.as_str().is_empty() {
        Err(SubStructError::MissingName)
    } else if (remove.len() == 0) == (retain.len() == 0) {
        Err(SubStructError::StrategyCount)
    } else if remove.len() > 0 {
        Ok(SubStructAttributes { name, strategy: Strategy::Remove(remove) })
    } else {
        Ok(SubStructAttributes { name, strategy: Strategy::Retain(retain) })
    }
}

/// The texts of an array of string literals, or `None` for any other value.
fn string_list(value: &ArgValue) -> (r: Option<Vec<String>>)
    ensures
        r is Some == is_string_list(value@),
        r matches Some(texts) ==> value@ matches ValueModel::Array(items) && texts.deep_view()
            == strings_of(items),
{
    match value {
        ArgValue::Array(items) => {
            let mut texts: Vec<String> = Vec::new();
            let mut j: usize = 0;
            while j < items.len()
                invariant
                    j <= items.len(),
                    texts.len() == j,
                    value@ == ValueModel::Array(items.deep_view()),
                    forall|k: int| 0 <= k < j ==> (#[trigger] items[k]) is Some,
                    forall|k: int| 0 <= k < j ==> (#[trigger] texts[k])@ == items[k]->0@,
                decreases items.len() - j,
            {
                match &items[j] {
                    Some(text) => {
                        texts.push(text.clone());
                    },
                    None => {
                        assert(items.deep_view()[j as int] is None);
                        return None;
                    },
                }
                j = j + 1;
            }
            proof {
                assert forall|k: int| 0 <= k < items.deep_view().len() implies (
                #[trigger] items.deep_view()[k]) is Some by {
                    assert(items[k] is Some);
                }
                assert(texts.deep_view() =~= strings_of(items.deep_view()));
            }
            Some(texts)
        },
        _ => None,
    }
}

/// Parses arguments that have been read into a configuration.
///
/// The arguments are taken in order and the first faulty one ends the parse:
/// a key other than `name`, `remove` and `retain`, a `name` that is no string
/// literal, a list that is no array of string literals. A key given again
/// replaces what was given before. Then the name must not be empty, and
/// exactly one of the two lists must name a field.
pub fn parse_args(args: &Vec<Arg>) -> (r: Result<SubStructAttributes, SubStructError>)
    ensures
        outcome_of(r) == parse_spec(args.deep_view()),
{
    let ghost all = args.deep_view();
    let name_key = "name".to_owned();
    let remove_key = "remove".to_owned();
    let retain_key = "retain".to_owned();
    let mut name = String::new();
    let mut remove: Vec<String> = Vec::new();
    let mut retain: Vec<String> = Vec::new();
    let mut i: usize = 0;
    while i < args.len()
        invariant
            i <= args.len(),
            all == args.deep_view(),
            name_key@ == "name"@,
            remove_key@ == "remove"@,
            retain_key@ == "retain"@,
            first_fault(all.take(i as int)) is None,
            name@ == target_name(all.take(i as int)),
            remove.deep_view() == listed_under(all.take(i as int), "remove"@),
            retain.deep_view() == listed_under(all.take(i as int), "retain"@),
        decreases args.len() - i,
    {
        let arg = &args[i];
        proof {
            assert(all.take(i + 1).drop_last() == all.take(i as int));
            assert(all.take(i + 1).last() == arg@);
            lemma_keys_differ();
        }
        let fault: Option<SubStructError> = if arg.key == name_key {
            match &arg.value {
                ArgValue::Str(text) => {
                    name = text.clone();
                    None
                },
                _ => Some(SubStructError::NameNotString { arg: i }),
            }
        } else if arg.key == remove_key {
            match string_list(&arg.value) {
                Some(texts) => {
                    remove = texts;
                    None
                },
                None => Some(SubStructError::ListNotStrings { list: ListKind::Remove, arg: i }),
            }
        } else if arg.key == retain_key {
            match string_list(&arg.value) {
                Some(texts) => {
                    retain = texts;
                    None
                },
                None => Some(SubStructError::ListNotStrings { list: ListKind::Retain, arg: i }),
            }
        } else {
            Some(SubStructError::UnknownKey { key: arg.key.clone() })
        };
        if let Some(e) = fault {
            proof {
                assert(first_fault(all.take(i + 1)) == Some(e@));
                lemma_fault_in_prefix(all, i + 1);
            }
            return Err(e);
        }
        i = i + 1;
    }
    proof {
        assert(all.take(i as int) == all);
    }
    settle_attributes(name, remove, retain)
}

/// The three keys are three different texts.
proof fn lemma_keys_differ()
    ensures
        "name"@ != "remove"@,
        "name"@ != "retain"@,
        "remove"@ != "retain"@,
{
    reveal_strlit("name");
    reveal_strlit("remove");
    reveal_strlit("retain");
    assert("name"@.len() == 4);
    assert("remove"@.len() == 6);
    assert("remove"@[2] == 'm');
    assert("retain"@[2] == 't');
}

} // verus!
