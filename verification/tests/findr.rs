use textutils::findr::EntryType::{Dir, File, Link};
use textutils::findr::{
    name_or_complaint, name_wanted, parse_entry_type, parse_name, passes_by_name, type_wanted,
    wanted, Config,
};
use textutils::pattern::Pattern;

#[test]
fn entries_pass_by_kind() {
    assert!(type_wanted(&vec![], true, false, false));
    assert!(type_wanted(&vec![], false, false, false));
    assert!(type_wanted(&vec![Dir], true, false, false));
    assert!(!type_wanted(&vec![Dir], false, true, false));
    assert!(type_wanted(&vec![File, Link], false, true, false));
    assert!(type_wanted(&vec![File, Link], false, false, true));
    assert!(!type_wanted(&vec![File, Link], true, false, false));
    assert!(!type_wanted(&vec![File, Link, Dir], false, false, false));
    // a directory is a directory, whatever else is said of it
    assert!(type_wanted(&vec![Dir], true, true, true));
    assert!(!type_wanted(&vec![File], true, true, true));
    assert!(type_wanted(&vec![File], false, true, true));
    assert!(!type_wanted(&vec![Link], false, true, true));
}

#[test]
fn entries_pass_by_name() {
    let names = vec![
        Pattern::new(r".*\.csv$", false).unwrap(),
        Pattern::new("^a", false).unwrap(),
    ];
    assert!(name_wanted(&vec![], "anything"));
    assert!(name_wanted(&names, "mtcars.csv"));
    assert!(name_wanted(&names, "a.txt"));
    assert!(!name_wanted(&names, "b.txt"));
    assert!(!name_wanted(&names, "A.CSV"));
}

#[test]
fn entries_pass_by_both() {
    let config = Config {
        paths: vec![".".to_string()],
        names: vec![Pattern::new("x", false).unwrap()],
        entry_types: vec![File],
    };
    assert!(wanted(&config, false, true, false, "fox"));
    assert!(!wanted(&config, true, false, false, "fox"));
    assert!(!wanted(&config, false, true, false, "dog"));
}

#[test]
fn kinds_and_names_from_the_command_line() {
    assert_eq!(parse_entry_type("f"), Some(File));
    assert_eq!(parse_entry_type("d"), Some(Dir));
    assert_eq!(parse_entry_type("l"), Some(Link));
    assert_eq!(parse_entry_type("x"), None);
    assert_eq!(parse_entry_type(""), None);
    assert_eq!(parse_entry_type("fd"), None);
    assert!(parse_name("ab+").unwrap().is_match("xabbb"));
    assert!(!parse_name("ab+").unwrap().is_match("xABBB"));
    assert_eq!(parse_name("*.csv").unwrap_err(), "Invalid --name \"*.csv\"");
}

#[test]
fn entries_pass_by_the_answers_given() {
    assert!(passes_by_name(&vec![]));
    assert!(passes_by_name(&vec![true]));
    assert!(!passes_by_name(&vec![false]));
    assert!(passes_by_name(&vec![false, false, true]));
    assert!(!passes_by_name(&vec![false, false, false]));
    let pattern = Pattern::new("x", false);
    assert!(name_or_complaint(pattern, "x").unwrap().is_match("fox"));
    assert_eq!(name_or_complaint(None, "(").unwrap_err(), "Invalid --name \"(\"");
}
