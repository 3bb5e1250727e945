use corrodedweb::params::ParamMap;
use corrodedweb::params::after_first_str;
use corrodedweb::params::before_first_str;
use corrodedweb::params::find_char;
use corrodedweb::params::parse_parameters;
use corrodedweb::params::str_eq;

#[test]
fn parses_two_pairs() {
    let m = parse_parameters("a=1&b=2");
    assert_eq!(m.get("a"), Some(&String::from("1")));
    assert_eq!(m.get("b"), Some(&String::from("2")));
    assert_eq!(m.len(), 2);
    assert_eq!(m.get("c"), None);
}

#[test]
fn parses_empty_string_to_empty_mapping() {
    let m = parse_parameters("");
    assert_eq!(m.len(), 0);
    assert!(m.is_empty());
}

#[test]
fn parses_key_without_equals_to_empty_value() {
    let m = parse_parameters("x");
    assert_eq!(m.get("x"), Some(&String::from("")));
    assert_eq!(m.len(), 1);
}

#[test]
fn last_occurrence_of_a_key_wins() {
    let m = parse_parameters("a=1&a=2");
    assert_eq!(m.get("a"), Some(&String::from("2")));
    assert_eq!(m.len(), 1);
}

#[test]
fn value_is_everything_after_the_first_equals() {
    let m = parse_parameters("a=b=c");
    assert_eq!(m.get("a"), Some(&String::from("b=c")));
}

#[test]
fn empty_pairs_map_the_empty_key() {
    let m = parse_parameters("a=1&&b=2");
    assert_eq!(m.get(""), Some(&String::from("")));
    assert_eq!(m.get("a"), Some(&String::from("1")));
    assert_eq!(m.get("b"), Some(&String::from("2")));
    assert_eq!(m.len(), 3);
}

#[test]
fn trailing_equals_gives_empty_value() {
    let m = parse_parameters("key=");
    assert_eq!(m.get("key"), Some(&String::from("")));
}

#[test]
fn insert_replaces_an_existing_binding() {
    let mut m = ParamMap::new();
    m.insert(String::from("k"), String::from("old"));
    m.insert(String::from("k"), String::from("new"));
    assert_eq!(m.get("k"), Some(&String::from("new")));
    assert_eq!(m.len(), 1);
}

#[test]
fn duplicate_copies_every_binding() {
    let m = parse_parameters("a=1&b=2");
    let copy = m.duplicate();
    assert_eq!(copy.get("a"), Some(&String::from("1")));
    assert_eq!(copy.get("b"), Some(&String::from("2")));
    assert_eq!(copy.len(), 2);
}

#[test]
fn pairs_walks_each_binding_once() {
    let m = parse_parameters("a=1&b=2");
    let entries = m.pairs();
    assert_eq!(entries.len(), 2);
    assert!(entries.contains(&(String::from("a"), String::from("1"))));
    assert!(entries.contains(&(String::from("b"), String::from("2"))));
}

#[test]
fn find_char_reports_the_first_occurrence() {
    assert_eq!(find_char("a=b=c", '='), Some(1));
    assert_eq!(find_char("abc", '='), None);
    assert_eq!(find_char("", 'x'), None);
}

#[test]
fn before_and_after_split_at_the_first_occurrence() {
    assert_eq!(before_first_str("a=b=c", '='), "a");
    assert_eq!(after_first_str("a=b=c", '='), "b=c");
    assert_eq!(before_first_str("abc", '='), "abc");
    assert_eq!(after_first_str("abc", '='), "");
}

#[test]
fn str_eq_compares_by_characters() {
    assert!(str_eq("hello", "hello"));
    assert!(!str_eq("hello", "hellO"));
    assert!(!str_eq("hello", "hell"));
    assert!(str_eq("", ""));
}
