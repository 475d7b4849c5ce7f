use substruct::directive::settle_attributes;
use substruct::{parse_args, Arg, ArgValue, ListKind, Strategy, SubStructError};

fn text(value: &str) -> ArgValue {
    ArgValue::Str(value.to_string())
}

fn list(values: &[&str]) -> ArgValue {
    ArgValue::Array(values.iter().map(|value| Some(value.to_string())).collect())
}

fn arg(key: &str, value: ArgValue) -> Arg {
    Arg { key: key.to_string(), value }
}

fn names(values: &[&str]) -> Vec<String> {
    values.iter().map(|value| value.to_string()).collect()
}

fn removed(strategy: &Strategy) -> Option<Vec<String>> {
    match strategy {
        Strategy::Remove(listed) => Some(listed.clone()),
        Strategy::Retain(_) => None,
    }
}

fn retained(strategy: &Strategy) -> Option<Vec<String>> {
    match strategy {
        Strategy::Retain(listed) => Some(listed.clone()),
        Strategy::Remove(_) => None,
    }
}

#[test]
fn a_name_and_a_remove_list_parse_to_a_remove_strategy() {
    let parsed = parse_args(&vec![
        arg("name", text("CreateAddressParams")),
        arg("remove", list(&["id", "created"])),
    ])
    .unwrap();
    assert_eq!(parsed.name, "CreateAddressParams");
    assert_eq!(removed(&parsed.strategy), Some(names(&["id", "created"])));
}

#[test]
fn a_name_and_a_retain_list_parse_to_a_retain_strategy() {
    let parsed = parse_args(&vec![
        arg("retain", list(&["city", "street"])),
        arg("name", text("Place")),
    ])
    .unwrap();
    assert_eq!(parsed.name, "Place");
    assert_eq!(retained(&parsed.strategy), Some(names(&["city", "street"])));
}

#[test]
fn the_listed_names_keep_their_order_and_their_repeats() {
    let parsed = parse_args(&vec![
        arg("name", text("B")),
        arg("remove", list(&["z", "a", "z"])),
    ])
    .unwrap();
    assert_eq!(removed(&parsed.strategy), Some(names(&["z", "a", "z"])));
}

#[test]
fn a_later_name_replaces_an_earlier_one() {
    let parsed = parse_args(&vec![
        arg("name", text("First")),
        arg("remove", list(&["x"])),
        arg("name", text("Second")),
    ])
    .unwrap();
    assert_eq!(parsed.name, "Second");
}

#[test]
fn a_later_list_replaces_an_earlier_one_and_does_not_add_to_it() {
    let parsed = parse_args(&vec![
        arg("name", text("B")),
        arg("remove", list(&["x", "y"])),
        arg("remove", list(&["z"])),
    ])
    .unwrap();
    assert_eq!(removed(&parsed.strategy), Some(names(&["z"])));
}

#[test]
fn a_later_empty_list_leaves_the_other_list_alone_in_force() {
    let parsed = parse_args(&vec![
        arg("name", text("B")),
        arg("remove", list(&["x"])),
        arg("retain", list(&["y"])),
        arg("remove", list(&[])),
    ])
    .unwrap();
    assert_eq!(retained(&parsed.strategy), Some(names(&["y"])));
}

#[test]
fn a_later_empty_name_is_a_missing_name() {
    let parsed = parse_args(&vec![
        arg("name", text("B")),
        arg("remove", list(&["x"])),
        arg("name", text("")),
    ]);
    assert_eq!(parsed.unwrap_err(), SubStructError::MissingName);
}

#[test]
fn no_arguments_are_a_missing_name() {
    assert_eq!(parse_args(&vec![]).unwrap_err(), SubStructError::MissingName);
}

#[test]
fn the_missing_name_comes_before_the_lists() {
    let both = parse_args(&vec![arg("remove", list(&["x"])), arg("retain", list(&["y"]))]);
    assert_eq!(both.unwrap_err(), SubStructError::MissingName);
    let neither = parse_args(&vec![arg("name", text(""))]);
    assert_eq!(neither.unwrap_err(), SubStructError::MissingName);
}

#[test]
fn both_lists_are_rejected_whatever_they_hold() {
    let disjoint = parse_args(&vec![
        arg("name", text("B")),
        arg("remove", list(&["x"])),
        arg("retain", list(&["y"])),
    ]);
    assert_eq!(disjoint.unwrap_err(), SubStructError::StrategyCount);
    let identical = parse_args(&vec![
        arg("name", text("B")),
        arg("retain", list(&["x"])),
        arg("remove", list(&["x"])),
    ]);
    assert_eq!(identical.unwrap_err(), SubStructError::StrategyCount);
}

#[test]
fn neither_list_is_rejected() {
    let none = parse_args(&vec![arg("name", text("B"))]);
    assert_eq!(none.unwrap_err(), SubStructError::StrategyCount);
    let empty = parse_args(&vec![
        arg("name", text("B")),
        arg("remove", list(&[])),
        arg("retain", list(&[])),
    ]);
    assert_eq!(empty.unwrap_err(), SubStructError::StrategyCount);
}

#[test]
fn a_name_that_is_no_string_names_its_argument() {
    let parsed = parse_args(&vec![
        arg("remove", list(&["x"])),
        arg("name", ArgValue::Other),
    ]);
    assert_eq!(parsed.unwrap_err(), SubStructError::NameNotString { arg: 1 });
    let parsed = parse_args(&vec![arg("name", list(&["x"]))]);
    assert_eq!(parsed.unwrap_err(), SubStructError::NameNotString { arg: 0 });
}

#[test]
fn a_list_that_is_no_array_of_strings_names_its_argument() {
    let parsed = parse_args(&vec![arg("name", text("B")), arg("remove", text("x"))]);
    assert_eq!(
        parsed.unwrap_err(),
        SubStructError::ListNotStrings { list: ListKind::Remove, arg: 1 }
    );
    let parsed = parse_args(&vec![
        arg("name", text("B")),
        arg("remove", list(&["x"])),
        arg("retain", ArgValue::Array(vec![Some("y".to_string()), None])),
    ]);
    assert_eq!(
        parsed.unwrap_err(),
        SubStructError::ListNotStrings { list: ListKind::Retain, arg: 2 }
    );
    let parsed = parse_args(&vec![arg("retain", ArgValue::Other)]);
    assert_eq!(
        parsed.unwrap_err(),
        SubStructError::ListNotStrings { list: ListKind::Retain, arg: 0 }
    );
}

#[test]
fn an_unknown_key_is_rejected_with_its_key() {
    let parsed = parse_args(&vec![arg("name", text("B")), arg("columns", list(&["x"]))]);
    assert_eq!(
        parsed.unwrap_err(),
        SubStructError::UnknownKey { key: "columns".to_string() }
    );
    let parsed = parse_args(&vec![arg("Name", text("B"))]);
    assert_eq!(parsed.unwrap_err(), SubStructError::UnknownKey { key: "Name".to_string() });
}

#[test]
fn the_first_faulty_argument_decides() {
    let parsed = parse_args(&vec![
        arg("remove", ArgValue::Other),
        arg("bogus", text("x")),
        arg("name", ArgValue::Other),
    ]);
    assert_eq!(
        parsed.unwrap_err(),
        SubStructError::ListNotStrings { list: ListKind::Remove, arg: 0 }
    );
    let parsed = parse_args(&vec![
        arg("name", text("B")),
        arg("bogus", text("x")),
        arg("remove", ArgValue::Other),
    ]);
    assert_eq!(parsed.unwrap_err(), SubStructError::UnknownKey { key: "bogus".to_string() });
}

#[test]
fn a_faulty_argument_comes_before_a_missing_name() {
    let parsed = parse_args(&vec![arg("remove", text("x"))]);
    assert_eq!(
        parsed.unwrap_err(),
        SubStructError::ListNotStrings { list: ListKind::Remove, arg: 0 }
    );
}

#[test]
fn settling_takes_the_list_that_is_not_empty() {
    let settled = settle_attributes("B".to_string(), names(&["x"]), vec![]).unwrap();
    assert_eq!(settled.name, "B");
    assert_eq!(removed(&settled.strategy), Some(names(&["x"])));
    let settled = settle_attributes("B".to_string(), vec![], names(&["y", "z"])).unwrap();
    assert_eq!(retained(&settled.strategy), Some(names(&["y", "z"])));
    assert_eq!(
        settle_attributes(String::new(), names(&["x"]), vec![]).unwrap_err(),
        SubStructError::MissingName
    );
    assert_eq!(
        settle_attributes("B".to_string(), names(&["x"]), names(&["y"])).unwrap_err(),
        SubStructError::StrategyCount
    );
    assert_eq!(
        settle_attributes("B".to_string(), vec![], vec![]).unwrap_err(),
        SubStructError::StrategyCount
    );
}

#[test]
fn any_name_that_is_not_empty_settles() {
    for name in ["A", "String", "not a name", "struct", "x"] {
        let settled = settle_attributes(name.to_string(), names(&["x"]), vec![]).unwrap();
        assert_eq!(settled.name, name);
    }
}
