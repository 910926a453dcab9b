use jdkman::dispatch::{command_of, dispatch, entry_line, Command, Report};
use jdkman::registry::Registry;

fn words(items: &[&str]) -> Vec<String> {
    items.iter().map(|s| s.to_string()).collect()
}

#[test]
fn command_of_the_four_words() {
    assert_eq!(
        command_of(Some("add"), &words(&["17", "/opt/jdk17"])),
        Command::Add { name: "17".to_string(), path: "/opt/jdk17".to_string() }
    );
    assert_eq!(command_of(Some("remove"), &words(&["17"])), Command::Remove { name: "17".to_string() });
    assert_eq!(command_of(Some("list"), &words(&[])), Command::List);
    assert_eq!(
        command_of(Some("activate"), &words(&["17"])),
        Command::Activate { name: "17".to_string() }
    );
}

#[test]
fn command_of_anything_else_is_usage() {
    assert_eq!(command_of(None, &words(&[])), Command::Usage);
    assert_eq!(command_of(Some("help"), &words(&[])), Command::Usage);
    assert_eq!(command_of(Some("add"), &words(&["17"])), Command::Usage);
    assert_eq!(command_of(Some("list"), &words(&["17"])), Command::Usage);
    assert_eq!(command_of(Some("Add"), &words(&["17", "/p"])), Command::Usage);
}

#[test]
fn list_of_an_empty_registry_reports_no_entries() {
    let mut registry = Registry::new();
    assert_eq!(dispatch(&mut registry, &Command::List), Report::NoEntries);
    assert!(registry.is_empty());
}

#[test]
fn add_then_list_shows_the_entry() {
    let mut registry = Registry::new();
    let added = dispatch(
        &mut registry,
        &Command::Add { name: "17".to_string(), path: "/opt/jdk17".to_string() },
    );
    assert_eq!(added, Report::Added { name: "17".to_string(), path: "/opt/jdk17".to_string() });
    match dispatch(&mut registry, &Command::List) {
        Report::Entries { entries } => {
            assert_eq!(entries.len(), 1);
            assert_eq!(entry_line(&entries[0].0, &entries[0].1), "  17 -> /opt/jdk17");
        }
        other => panic!("{:?}", other),
    }
}

#[test]
fn activate_of_a_missing_name_reports_not_found() {
    let mut registry = Registry::new();
    let report = dispatch(&mut registry, &Command::Activate { name: "missing".to_string() });
    assert_eq!(report, Report::NotFound { name: "missing".to_string() });
    assert!(registry.is_empty());
}

#[test]
fn activate_of_a_known_name_names_its_path() {
    let mut registry = Registry::new();
    registry.add("17", "/opt/jdk17");
    let report = dispatch(&mut registry, &Command::Activate { name: "17".to_string() });
    assert_eq!(report, Report::Activate { name: "17".to_string(), path: "/opt/jdk17".to_string() });
    assert_eq!(registry.len(), 1);
}

#[test]
fn remove_from_an_empty_registry_reports_not_found() {
    let mut registry = Registry::new();
    let report = dispatch(&mut registry, &Command::Remove { name: "17".to_string() });
    assert_eq!(report, Report::NotFound { name: "17".to_string() });
    assert!(registry.is_empty());
}

#[test]
fn remove_of_a_known_name_reports_removed() {
    let mut registry = Registry::new();
    registry.add("17", "/opt/jdk17");
    let report = dispatch(&mut registry, &Command::Remove { name: "17".to_string() });
    assert_eq!(report, Report::Removed { name: "17".to_string() });
    assert_eq!(registry.get("17"), None);
}

#[test]
fn usage_changes_nothing() {
    let mut registry = Registry::new();
    registry.add("17", "/opt/jdk17");
    assert_eq!(dispatch(&mut registry, &Command::Usage), Report::Usage);
    assert_eq!(registry.len(), 1);
}

#[test]
fn entry_line_is_indented_and_has_an_arrow() {
    assert_eq!(entry_line("17", "/opt/jdk17"), "  17 -> /opt/jdk17");
    assert_eq!(entry_line("", ""), "   -> ");
}
