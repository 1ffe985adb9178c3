use extern_fn::select::{is_selected, level_of, select, Level, Settings};

fn sel_names(names: &[&str]) -> Vec<String> {
    names.iter().map(|n| n.to_string()).collect()
}

#[test]
fn default_settings_are_the_conventional_ones() {
    let settings = Settings::default();
    assert_eq!(settings.directory, "src/");
    assert_eq!(settings.ignore, vec!["foo.rs".to_string()]);
    assert!(!settings.preview);
    assert_eq!(settings.verbosity, 2);
}

#[test]
fn default_verbosity_logs_up_to_debug() {
    assert_eq!(level_of(Settings::default().verbosity), Level::Debug);
}

#[test]
fn verbosity_maps_to_levels() {
    assert_eq!(level_of(0), Level::Error);
    assert_eq!(level_of(1), Level::Info);
    assert_eq!(level_of(2), Level::Debug);
    assert_eq!(level_of(3), Level::Trace);
    assert_eq!(level_of(4), Level::Trace);
    assert_eq!(level_of(255), Level::Trace);
}

#[test]
fn a_source_file_is_taken() {
    let ignore = sel_names(&["foo.rs"]);
    assert!(is_selected("main.rs", &ignore));
    assert!(is_selected("person.rs", &ignore));
    assert!(is_selected("main.rs", &Vec::new()));
}

#[test]
fn other_extensions_are_not_taken() {
    let ignore = Vec::new();
    assert!(!is_selected("main.rs.bak", &ignore));
    assert!(!is_selected("a.tar.rs", &ignore));
    assert!(!is_selected("notes.txt", &ignore));
    assert!(!is_selected("main.rs ", &ignore));
    assert!(!is_selected("main.RS", &ignore));
    assert!(!is_selected("main.", &ignore));
}

#[test]
fn a_name_without_a_dot_is_not_taken() {
    assert!(!is_selected("Makefile", &Vec::new()));
    assert!(!is_selected("rs", &Vec::new()));
    assert!(!is_selected("", &Vec::new()));
}

#[test]
fn an_ignored_file_is_not_taken() {
    let ignore = sel_names(&["foo.rs", "gen.rs"]);
    assert!(!is_selected("foo.rs", &ignore));
    assert!(!is_selected("gen.rs", &ignore));
    assert!(is_selected("foo2.rs", &ignore));
}

#[test]
fn a_file_marked_as_bridged_is_not_taken() {
    let ignore = Vec::new();
    assert!(!is_selected("person_ffi.rs", &ignore));
    assert!(!is_selected("ffi.rs", &ignore));
    assert!(!is_selected("offi.rs", &ignore));
    assert!(is_selected("ff_i.rs", &ignore));
}

#[test]
fn select_keeps_the_order_of_the_names() {
    let names = sel_names(&["b.rs", "foo.rs", "a.rs", "x_ffi.rs", "README.md", "c.rs", "LICENSE"]);
    let taken = select(&names, &sel_names(&["foo.rs"]));
    assert_eq!(taken, sel_names(&["b.rs", "a.rs", "c.rs"]));
}

#[test]
fn select_of_nothing_is_nothing() {
    assert_eq!(select(&Vec::new(), &sel_names(&["foo.rs"])), Vec::<String>::new());
    assert_eq!(select(&sel_names(&["foo.rs"]), &sel_names(&["foo.rs"])), Vec::<String>::new());
}

#[test]
fn an_excluded_file_is_never_handed_to_a_pass() {
    let names = sel_names(&["person.rs", "skipme.rs", "lib.rs"]);
    let taken = select(&names, &sel_names(&["skipme.rs"]));
    assert_eq!(taken, sel_names(&["person.rs", "lib.rs"]));
    assert!(!taken.contains(&"skipme.rs".to_string()));
}
