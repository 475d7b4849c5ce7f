//! The diagnostics that a directive can end in.

use vstd::prelude::*;
use vstd::string::StringExecFns;

verus! {

/// One of the two list attributes of the directive.
#[derive(Debug, Clone, Copy, PartialEq, Eq)]
pub enum ListKind {
    Remove,
    Retain,
}

/// Where in the source a diagnostic is attached.
#[derive(Debug, Clone, Copy, PartialEq, Eq)]
pub enum Anchor {
    /// The directive as a whole.
    CallSite,
    /// The directive argument at this position.
    Argument(usize),
    /// The name of the annotated item.
    ItemName,
}

/// Why a directive was rejected.
#[derive(Debug, Clone, PartialEq, Eq)]
pub enum SubStructError {
    /// The value of `name` at position `arg` is not a string literal.
    NameNotString { arg: usize },
    /// The value of `remove` or `retain` at position `arg` is not an array of
    /// string literals.
    ListNotStrings { list: ListKind, arg: usize },
    /// An argument has a key other than `name`, `remove` and `retain`.
    UnknownKey { key: String },
    /// No `name` was given, or an empty one.
    MissingName,
    /// Neither `remove` nor `retain` lists a field, or both do.
    StrategyCount,
    /// The listed names that no field of the struct bears, in listed order.
    InvalidFields { list: ListKind, names: Vec<String> },
    /// The annotated item is not a struct with named fields.
    UnsupportedShape,
    /// The target name cannot be the name of a struct.
    InvalidName { name: String },
}

/// The mathematical value of a [`SubStructError`].
pub enum ErrorModel {
    NameNotString { arg: int },
    ListNotStrings { list: ListKind, arg: int },
    UnknownKey { key: Seq<char> },
    MissingName,
    StrategyCount,
    InvalidFields { list: ListKind, names: Seq<Seq<char>> },
    UnsupportedShape,
    InvalidName { name: Seq<char> },
}

impl View for SubStructError {
    type V = ErrorModel;

    open spec fn view(&self) -> ErrorModel {
        match self {
            SubStructError::NameNotString { arg } => ErrorModel::NameNotString { arg: *arg as int },
            SubStructError::ListNotStrings { list, arg } => ErrorModel::ListNotStrings {
                list: *list,
                arg: *arg as int,
            },
            SubStructError::UnknownKey { key } => ErrorModel::UnknownKey { key: key@ },
            SubStructError::MissingName => ErrorModel::MissingName,
            SubStructError::StrategyCount => ErrorModel::StrategyCount,
            SubStructError::InvalidFields { list, names } => ErrorModel::InvalidFields {
                list: *list,
                names: names.deep_view(),
            },
            SubStructError::UnsupportedShape => ErrorModel::UnsupportedShape,
            SubStructError::InvalidName { name } => ErrorModel::InvalidName { name: name@ },
        }
    }
}

/// The place that a diagnostic is attached to: the offending argument for a
/// value of the wrong shape, the item's name for what is wrong with the item
/// or with the listed fields, and the directive as a whole for the rest.
pub open spec fn anchor_of(e: ErrorModel) -> Anchor {
    match e {
        ErrorModel::NameNotString { arg } => Anchor::Argument(arg as usize),
        ErrorModel::ListNotStrings { list, arg } => Anchor::Argument(arg as usize),
        ErrorModel::InvalidFields { list, names } => Anchor::ItemName,
        ErrorModel::UnsupportedShape => Anchor::ItemName,
        _ => Anchor::CallSite,
    }
}

/// The word by which a message speaks of a list attribute.
pub open spec fn list_word(list: ListKind) -> Seq<char> {
    match list {
        ListKind::Remove => "remove"@,
        ListKind::Retain => "retain"@,
    }
}

/// The names, in order, with a comma and a space between neighbours.
pub open spec fn comma_joined(names: Seq<Seq<char>>) -> Seq<char>
    decreases names.len(),
{
    if names.len() == 0 {
        Seq::empty()
    } else if names.len() == 1 {
        names[0]
    } else {
        comma_joined(names.drop_last()) + ", "@ + names.last()
    }
}

/// The text of the diagnostic.
pub open spec fn message_of(e: ErrorModel) -> Seq<char> {
    match e {
        ErrorModel::NameNotString { arg } => "The name attribute only accepts strings as valid inputs"@,
        ErrorModel::ListNotStrings { list, arg } => "The "@ + list_word(list)
            + " attribute only accepts an array of strings as valid inputs"@,
        ErrorModel::UnknownKey { key } => key
            + " is not a valid attribute for sub_struct. Valid attributes are name and remove"@,
        ErrorModel::MissingName => "The `name` attribute is required"@,
        ErrorModel::StrategyCount => "Only one of remove or retain attributes can be used at a time"@,
        ErrorModel::InvalidFields { list, names } => "Invalid field(s) specified in the "@
            + list_word(list) + " attribute: "@ + comma_joined(names),
        ErrorModel::UnsupportedShape => "sub_struct only supports structs with named fields"@,
        ErrorModel::InvalidName { name } => name + " is not a valid name for a struct"@,
    }
}

impl ListKind {
    /// The attribute's key.
    pub fn word(&self) -> (w: &'static str)
        ensures
            w@ == list_word(*self),
    {
        match self {
            ListKind::Remove => "remove",
            ListKind::Retain => "retain",
        }
    }
}

/// Joins the names with a comma and a space.
pub fn comma_join(names: &Vec<String>) -> (out: String)
    ensures
        out@ == comma_joined(names.deep_view()),
{
    let ghost all = names.deep_view();
    let mut out = String::new();
    let mut i: usize = 0;
    while i < names.len()
        invariant
            i <= names.len(),
            all == names.deep_view(),
            out@ == comma_joined(all.take(i as int)),
        decreases names.len() - i,
    {
        proof {
            assert(all.take(i + 1).drop_last() == all.take(i as int));
            assert(all.take(i + 1).last() == names[i as int]@);
        }
        if i > 0 {
            out.append(", ");
        }
        out.append(names[i].as_str());
        i = i + 1;
    }
    proof {
        assert(all.take(i as int) == all);
    }
    out
}

impl SubStructError {
    /// The text of the diagnostic.
    pub fn message(&self) -> (text: String)
        ensures
            text@ == message_of(self@),
    {
        match self {
            SubStructError::NameNotString { arg: _ } => String::from_str(
                "The name attribute only accepts strings as valid inputs",
            ),
            SubStructError::ListNotStrings { list, arg: _ } => {
                let mut text = String::from_str("The ");
                text.append(list.word());
                text.append(" attribute only accepts an array of strings as valid inputs");
                text
            },
            SubStructError::UnknownKey { key } => {
                let mut text = key.clone();
                text.append(
                    " is not a valid attribute for sub_struct. Valid attributes are name and remove",
                );
                text
            },
            SubStructError::MissingName => String::from_str("The `name` attribute is required"),
            SubStructError::StrategyCount => String::from_str(
                "Only one of remove or retain attributes can be used at a time",
            ),
            SubStructError::InvalidFields { list, names } => {
                let mut text = String::from_str("Invalid field(s) specified in the ");
                text.append(list.word());
                text.append(" attribute: ");
                let joined = comma_join(names);
                text.append(joined.as_str());
                text
            },
            SubStructError::UnsupportedShape => String::from_str(
                "sub_struct only supports structs with named fields",
            ),
            SubStructError::InvalidName { name } => {
                let mut text = name.clone();
                text.append(" is not a valid name for a struct");
                text
            },
        }
    }

    /// Where the diagnostic is attached.
    pub fn anchor(&self) -> (a: Anchor)
        ensures
            a == anchor_of(self@),
    {
        match self {
            SubStructError::NameNotString { arg } => Anchor::Argument(*arg),
            SubStructError::ListNotStrings { list: _, arg } => Anchor::Argument(*arg),
            SubStructError::InvalidFields { list: _, names: _ } => Anchor::ItemName,
            SubStructError::UnsupportedShape => Anchor::ItemName,
            _ => Anchor::CallSite,
        }
    }
}

} // verus!
