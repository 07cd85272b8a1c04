use ru::registry::ScriptMap;
use ru::runners::Runner;

#[test]
fn empty_registry_has_no_runners() {
    let map = ScriptMap::new();
    assert!(map.no_runners());
    assert!(!map.has_runner(Runner::Npm));
    assert!(!map.has_js_runner());
    assert!(map.find_runner("build").is_none());
}

#[test]
fn defaults_resolve_through_aliases() {
    let mut map = ScriptMap::new();
    map.add_runner(&Runner::Cargo);
    assert!(!map.no_runners());
    assert!(map.has_runner(Runner::Cargo));
    assert!(!map.has_js_runner());
    assert_eq!(map.find_runner("b"), Some(Runner::Cargo));
    assert_eq!(map.find_runner("build"), Some(Runner::Cargo));
    assert_eq!(map.find_runner("d"), Some(Runner::Cargo));
    assert!(map.find_runner("no-such-command").is_none());
}

#[test]
fn discovered_script_wins_over_later_defaults() {
    // "install" is discovered for Makefile first; registering npm afterwards
    // (whose defaults include "install") must not steal it.
    let mut map = ScriptMap::new();
    map.add_scripts(&Runner::Makefile, &vec!["install".to_string()]);
    map.add_runner(&Runner::Npm);
    assert_eq!(map.find_runner("install"), Some(Runner::Makefile));
    assert_eq!(map.find_runner("i"), Some(Runner::Makefile));
}

#[test]
fn discovered_script_overrides_earlier_default() {
    // npm's default "install" is registered first; a later discovered
    // Makefile target of the same name outranks the default.
    let mut map = ScriptMap::new();
    map.add_runner(&Runner::Npm);
    assert_eq!(map.find_runner("install"), Some(Runner::Npm));
    map.add_scripts(&Runner::Makefile, &vec!["install".to_string()]);
    assert_eq!(map.find_runner("install"), Some(Runner::Makefile));
}

#[test]
fn earlier_discovered_script_wins_over_later_one() {
    let mut map = ScriptMap::new();
    map.add_scripts(&Runner::Yarn, &vec!["build".to_string()]);
    map.add_scripts(&Runner::Makefile, &vec!["build".to_string()]);
    assert_eq!(map.find_runner("build"), Some(Runner::Yarn));
}

#[test]
fn js_runner_reports_lowest_present_slot() {
    let mut map = ScriptMap::new();
    assert!(map.js_runner().is_none());
    map.add_runner(&Runner::Deno);
    assert_eq!(map.js_runner(), Some(Runner::Deno));
    assert!(map.has_js_runner());
    map.add_runner(&Runner::Yarn);
    assert_eq!(map.js_runner(), Some(Runner::Yarn));
}

#[test]
fn render_listing_wraps_to_width() {
    let mut map = ScriptMap::new();
    map.add_scripts(
        &Runner::Makefile,
        &vec!["build".to_string(), "test".to_string()],
    );
    assert_eq!(map.render_listing(80), "make:\n    build, test\n");
    // A narrow width forces each script onto its own indented line.
    assert_eq!(map.render_listing(10), "make:\n    \n    build, \n    test\n");
}

#[test]
fn render_listing_notes_default_commands() {
    let mut map = ScriptMap::new();
    map.add_runner(&Runner::Npm);
    assert_eq!(
        map.render_listing(80),
        "npm:\n    npm's default commands, view with (npm --help)\n"
    );
}

#[test]
fn display_all_lists_registered_names_with_owners() {
    let mut map = ScriptMap::new();
    map.add_scripts(&Runner::Makefile, &vec!["deploy".to_string()]);
    let text = map.display_all();
    assert_eq!(text, "All available commands are:\nmake: deploy");

    let empty = ScriptMap::new();
    assert_eq!(empty.display_all(), "All available commands are:\n");
}
