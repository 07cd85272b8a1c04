use ru::runners::{Invocation, Language, Runner};

#[test]
fn aliases_expand_to_canonical_names() {
    assert_eq!(Runner::unalias_command("a"), "add");
    assert_eq!(Runner::unalias_command("b"), "build");
    assert_eq!(Runner::unalias_command("d"), "dev");
    assert_eq!(Runner::unalias_command("f"), "format");
    assert_eq!(Runner::unalias_command("i"), "install");
    assert_eq!(Runner::unalias_command("l"), "lint");
    assert_eq!(Runner::unalias_command("p"), "preview");
    assert_eq!(Runner::unalias_command("s"), "start");
    assert_eq!(Runner::unalias_command("t"), "test");
    assert_eq!(Runner::unalias_command("u"), "update");
    assert_eq!(Runner::unalias_command("build"), "build");
    assert_eq!(Runner::unalias_command("unknown"), "unknown");
}

#[test]
fn cargo_override_applies_only_to_cargo() {
    assert_eq!(Runner::Cargo.unalias_cargo("dev"), "run");
    assert_eq!(Runner::Cargo.unalias_cargo("d"), "run");
    assert_eq!(Runner::Cargo.unalias_cargo("format"), "fmt");
    assert_eq!(Runner::Cargo.unalias_cargo("lint"), "clippy");
    assert_eq!(Runner::Cargo.unalias_cargo("build"), "build");
    assert_eq!(Runner::Npm.unalias_cargo("dev"), "dev");
    assert_eq!(Runner::Makefile.unalias_cargo("lint"), "lint");
}

#[test]
fn cargo_dev_invokes_run() {
    // The build-tool-specific override fires: the subprocess command is
    // `run`, not `dev`.
    let inv = Runner::Cargo.invocation("dev", &Vec::new(), false);
    assert_eq!(inv.program, "cargo");
    assert_eq!(inv.args, vec!["run".to_string()]);
    assert!(!inv.quiet);

    let inv = Runner::Cargo.invocation("d", &Vec::new(), false);
    assert_eq!(inv.program, "cargo");
    assert_eq!(inv.args, vec!["run".to_string()]);
}

#[test]
fn js_runners_prefix_run_except_special_commands() {
    let inv = Runner::Npm.invocation("build", &Vec::new(), false);
    assert_eq!(inv.program, "npm");
    assert_eq!(inv.args, vec!["run".to_string(), "build".to_string()]);

    let inv = Runner::Npm.invocation("install", &Vec::new(), false);
    assert_eq!(inv.args, vec!["install".to_string()]);

    let inv = Runner::Yarn.invocation("i", &Vec::new(), false);
    assert_eq!(inv.program, "yarn");
    assert_eq!(inv.args, vec!["install".to_string()]);

    let inv = Runner::Pnpm.invocation("u", &Vec::new(), false);
    assert_eq!(inv.args, vec!["update".to_string()]);
}

#[test]
fn deno_prefixes_task_instead_of_run() {
    let inv = Runner::Deno.invocation("build", &Vec::new(), false);
    assert_eq!(inv.program, "deno");
    assert_eq!(inv.args, vec!["task".to_string(), "build".to_string()]);
}

#[test]
fn xtask_routes_through_cargo() {
    let extra = vec!["--fast".to_string()];
    let inv = Runner::Xtask.invocation("ci", &extra, true);
    assert_eq!(inv.program, "cargo");
    assert_eq!(
        inv.args,
        vec![
            "run".to_string(),
            "--package".to_string(),
            "xtask".to_string(),
            "--".to_string(),
            "ci".to_string(),
            "--fast".to_string(),
        ]
    );
    assert!(inv.quiet);
}

#[test]
fn extra_arguments_are_kept_verbatim_and_in_order() {
    let extra = vec!["--watch".to_string(), "run".to_string(), "this".to_string()];
    let inv = Runner::Makefile.invocation("build", &extra, false);
    assert_eq!(inv.program, "make");
    assert_eq!(
        inv.args,
        vec![
            "build".to_string(),
            "--watch".to_string(),
            "run".to_string(),
            "this".to_string(),
        ]
    );
}

#[test]
fn echo_line_shows_program_and_arguments() {
    let inv = Invocation {
        program: "npm".to_string(),
        args: vec!["run".to_string(), "build".to_string()],
        quiet: false,
    };
    assert_eq!(inv.echo_line(), "$ npm run build");
}

#[test]
fn runner_indexes_round_trip() {
    for i in 0..8 {
        let runner = Runner::from_usize(i).unwrap();
        assert_eq!(runner.index(), i);
    }
    assert!(Runner::from_usize(8).is_none());
}

#[test]
fn runner_names_and_languages() {
    assert_eq!(Runner::Npm.name(), "npm");
    assert_eq!(Runner::Yarn.name(), "yarn");
    assert_eq!(Runner::Pnpm.name(), "pnpm");
    assert_eq!(Runner::Bun.name(), "bun");
    assert_eq!(Runner::Deno.name(), "deno");
    assert_eq!(Runner::Cargo.name(), "cargo");
    assert_eq!(Runner::Xtask.name(), "xtask");
    assert_eq!(Runner::Makefile.name(), "make");
    assert!(matches!(Runner::Bun.language(), Language::Javascript));
    assert!(matches!(Runner::Xtask.language(), Language::Rust));
    assert!(matches!(Runner::Makefile.language(), Language::Other));
}

#[test]
fn default_commands_fixed_per_runner() {
    assert_eq!(
        Runner::Npm.default_commands(),
        vec!["add", "install", "remove", "update"]
    );
    assert!(Runner::Cargo.default_commands().contains(&"dev"));
    assert!(Runner::Cargo.default_commands().contains(&"lint"));
    assert!(Runner::Xtask.default_commands().is_empty());
    assert!(Runner::Makefile.default_commands().is_empty());
}
