use ru::detect::{create_scripts_map, Entry, Level};
use ru::registry::ScriptMap;
use ru::router::{Action, Router};
use ru::runners::Runner;

fn plain_entry(name: &str) -> Entry {
    Entry { name: name.to_string(), is_dir_with_build_manifest: false, content: None }
}

fn level(entries: Vec<Entry>, package_json: Option<Vec<u8>>) -> Level {
    Level { entries, package_json }
}

#[test]
fn no_markers_means_no_runner() {
    let levels = vec![
        level(vec![plain_entry("readme.md"), plain_entry("src")], None),
        level(vec![plain_entry("notes.txt")], None),
    ];
    let map = create_scripts_map(&levels);
    assert!(map.no_runners());
}

#[test]
fn nearest_lockfile_determines_manager_outer_package_json_supplies_scripts() {
    let json = br#"{"scripts":{"serve":"vite"}}"#.to_vec();
    let levels = vec![
        level(vec![plain_entry("yarn.lock")], None),
        level(vec![plain_entry("package.json")], Some(json)),
    ];
    let map = create_scripts_map(&levels);
    assert!(map.has_runner(Runner::Yarn));
    assert!(!map.has_runner(Runner::Npm));
    assert_eq!(map.find_runner("serve"), Some(Runner::Yarn));
}

#[test]
fn colocated_lockfile_and_package_json_use_the_lockfile_manager() {
    let json = br#"{"scripts":{"dev":"next dev"}}"#.to_vec();
    let levels = vec![level(
        vec![plain_entry("package.json"), plain_entry("pnpm-lock.yaml")],
        Some(json),
    )];
    let map = create_scripts_map(&levels);
    assert!(map.has_runner(Runner::Pnpm));
    assert!(!map.has_runner(Runner::Npm));
    assert_eq!(map.find_runner("dev"), Some(Runner::Pnpm));
}

#[test]
fn bare_package_json_falls_back_to_the_default_manager() {
    let json = br#"{"scripts":{"start":"node ."}}"#.to_vec();
    let levels = vec![level(vec![plain_entry("package.json")], Some(json))];
    let map = create_scripts_map(&levels);
    assert!(map.has_runner(Runner::Npm));
    assert_eq!(map.find_runner("start"), Some(Runner::Npm));
    assert_eq!(map.find_runner("s"), Some(Runner::Npm));
}

#[test]
fn inner_lockfile_shadows_outer_manager() {
    let inner = br#"{"scripts":{"inner":"x"}}"#.to_vec();
    let outer = br#"{"scripts":{"outer":"y"}}"#.to_vec();
    let levels = vec![
        level(vec![plain_entry("bun.lockb"), plain_entry("package.json")], Some(inner)),
        level(vec![plain_entry("yarn.lock"), plain_entry("package.json")], Some(outer)),
    ];
    let map = create_scripts_map(&levels);
    assert!(map.has_runner(Runner::Bun));
    assert!(!map.has_runner(Runner::Yarn));
    assert_eq!(map.find_runner("inner"), Some(Runner::Bun));
    // The outer manifest's scripts are not consumed: the inner one was.
    assert!(map.find_runner("outer").is_none());
}

#[test]
fn makefile_targets_become_its_scripts_case_insensitively() {
    let mut mk = plain_entry("MAKEFILE");
    mk.content = Some("build:\n\techo hi\ncheck:\n".to_string());
    let levels = vec![level(vec![mk], None)];
    let map = create_scripts_map(&levels);
    assert!(map.has_runner(Runner::Makefile));
    assert_eq!(map.find_runner("build"), Some(Runner::Makefile));
    assert_eq!(map.find_runner("check"), Some(Runner::Makefile));
}

#[test]
fn only_the_nearest_makefile_is_parsed() {
    let mut near = plain_entry("Makefile");
    near.content = Some("near:\n".to_string());
    let mut far = plain_entry("Makefile");
    far.content = Some("far:\n".to_string());
    let levels = vec![level(vec![near], None), level(vec![far], None)];
    let map = create_scripts_map(&levels);
    assert_eq!(map.find_runner("near"), Some(Runner::Makefile));
    assert!(map.find_runner("far").is_none());
}

#[test]
fn xtask_needs_a_directory_with_a_manifest() {
    let bare = plain_entry("xtask");
    let map = create_scripts_map(&vec![level(vec![bare], None)]);
    assert!(!map.has_runner(Runner::Xtask));
    assert!(map.no_runners());

    let mut real = plain_entry("xtask");
    real.is_dir_with_build_manifest = true;
    let map = create_scripts_map(&vec![level(vec![real], None)]);
    assert!(map.has_runner(Runner::Xtask));
}

#[test]
fn cargo_markers_enable_cargo() {
    let map = create_scripts_map(&vec![level(vec![plain_entry("Cargo.lock")], None)]);
    assert!(map.has_runner(Runner::Cargo));
    assert_eq!(map.find_runner("d"), Some(Runner::Cargo));
}

fn dispatches(tokens: &[&str], map: &ScriptMap) -> (Vec<(String, Vec<String>, bool)>, bool) {
    // Drives the router the way the program does, pretending every spawned
    // command succeeds; answers the dispatched invocations and whether the
    // run ended successfully.
    let mut router = Router::new();
    let mut seen = Vec::new();
    for token in tokens {
        match router.on_token(token, map) {
            Action::Dispatch(inv) => {
                seen.push((inv.program, inv.args, inv.quiet));
                match router.on_status(true) {
                    Action::Nothing => {},
                    _ => return (seen, false),
                }
            },
            Action::ExitFailure => return (seen, false),
            _ => {},
        }
    }
    if let Action::Dispatch(inv) = router.finish(map) {
        seen.push((inv.program, inv.args, inv.quiet));
    }
    (seen, true)
}

fn npm_map_with(scripts: &[&str]) -> ScriptMap {
    let mut map = ScriptMap::new();
    let names: Vec<String> = scripts.iter().map(|s| s.to_string()).collect();
    map.add_scripts(&Runner::Npm, &names);
    map.add_runner(&Runner::Npm);
    map
}

#[test]
fn one_command_with_flag_and_subarg_bundle() {
    // ["build", "--watch", "run this"]: exactly one dispatch, of `build`,
    // with extra arguments ["--watch", "run", "this"] in that order.
    let map = npm_map_with(&["build"]);
    let (seen, ok) = dispatches(&["build", "--watch", "run this"], &map);
    assert!(ok);
    assert_eq!(seen.len(), 1);
    assert_eq!(seen[0].0, "npm");
    assert_eq!(
        seen[0].1,
        vec!["run", "build", "--watch", "run", "this"]
            .into_iter()
            .map(String::from)
            .collect::<Vec<_>>()
    );
}

#[test]
fn empty_argument_list_dispatches_dev() {
    let map = npm_map_with(&["dev"]);
    let (seen, ok) = dispatches(&[], &map);
    assert!(ok);
    assert_eq!(seen.len(), 1);
    assert_eq!(seen[0].0, "npm");
    assert_eq!(seen[0].1, vec!["run".to_string(), "dev".to_string()]);
    assert!(!seen[0].2);
}

#[test]
fn default_dev_through_cargo_runs_run() {
    let mut map = ScriptMap::new();
    map.add_runner(&Runner::Cargo);
    let (seen, ok) = dispatches(&[], &map);
    assert!(ok);
    assert_eq!(seen.len(), 1);
    assert_eq!(seen[0].0, "cargo");
    assert_eq!(seen[0].1, vec!["run".to_string()]);
}

#[test]
fn failing_first_command_stops_the_chain() {
    let map = npm_map_with(&["first", "second"]);
    let mut router = Router::new();
    assert!(matches!(router.on_token("first", &map), Action::Nothing));
    // The second command token dispatches the first.
    let act = router.on_token("second", &map);
    let Action::Dispatch(inv) = act else { panic!("expected a dispatch") };
    assert_eq!(inv.args, vec!["run".to_string(), "first".to_string()]);
    // Its subprocess fails: the router halts and nothing more is dispatched.
    assert!(matches!(router.on_status(false), Action::ExitFailure));
    assert!(matches!(router.finish(&map), Action::Nothing));
}

#[test]
fn unknown_command_is_skipped_silently() {
    let map = npm_map_with(&["build"]);
    let (seen, ok) = dispatches(&["nonsense", "build"], &map);
    assert!(ok);
    assert_eq!(seen.len(), 1);
    assert_eq!(seen[0].1, vec!["run".to_string(), "build".to_string()]);
}

#[test]
fn quiet_flag_marks_later_dispatches_quiet() {
    let map = npm_map_with(&["dev"]);
    let (seen, ok) = dispatches(&["-q"], &map);
    assert!(ok);
    assert_eq!(seen.len(), 1);
    assert!(seen[0].2);
}

#[test]
fn global_flags_request_their_displays() {
    let map = npm_map_with(&["build"]);
    let mut router = Router::new();
    assert!(matches!(router.on_token("--version", &map), Action::ShowVersion));
    assert!(matches!(router.on_token("-h", &map), Action::ShowHelp));
    assert!(matches!(router.on_token("--list", &map), Action::ShowList));
    assert!(matches!(router.on_token("-L", &map), Action::ShowListAll));
    assert!(matches!(router.on_token("--bogus", &map), Action::InvalidFlag));
}

#[test]
fn flags_after_a_command_become_its_arguments() {
    let map = npm_map_with(&["build", "test"]);
    let (seen, ok) = dispatches(&["build", "--quiet", "test"], &map);
    assert!(ok);
    assert_eq!(seen.len(), 2);
    assert_eq!(
        seen[0].1,
        vec!["run".to_string(), "build".to_string(), "--quiet".to_string()]
    );
    // The trailing command is flushed at the end of the stream.
    assert_eq!(seen[1].1, vec!["run".to_string(), "test".to_string()]);
}
