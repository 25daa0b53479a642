use ny::cli::{parse_from, CliError, Commands};

fn strings(v: &[&str]) -> Vec<String> {
    v.iter().map(|s| s.to_string()).collect()
}

#[test]
fn run_command_extra_args() {
    let parsed = parse_from(strings(&["/ny", "mocha", "--arg1", "--arg2", "abc"])).unwrap();
    assert_eq!(
        parsed.command,
        Some(Commands::Run { task: "mocha".to_string(), extra_args: strings(&["--arg1", "--arg2", "abc"]) })
    );
}

#[test]
fn run_naked_command_help_arg() {
    let parsed = parse_from(strings(&["/ny", "mocha", "--help"])).unwrap();
    assert_eq!(
        parsed.command,
        Some(Commands::Run { task: "mocha".to_string(), extra_args: strings(&["--help"]) })
    );
}

#[test]
fn run_naked_command_help_arg_manual_escape() {
    let parsed = parse_from(strings(&["/ny", "mocha", "--", "--help"])).unwrap();
    assert_eq!(
        parsed.command,
        Some(Commands::Run { task: "mocha".to_string(), extra_args: strings(&["--", "--help"]) })
    );
}

#[test]
fn run_command_help_arg() {
    let parsed = parse_from(strings(&["/ny", "run", "mocha", "--help"])).unwrap();
    assert_eq!(
        parsed.command,
        Some(Commands::Run { task: "mocha".to_string(), extra_args: strings(&["--help"]) })
    );
}

#[test]
fn run_command_help_arg_manual_escape() {
    let parsed = parse_from(strings(&["/ny", "run", "mocha", "--", "--help"])).unwrap();
    assert_eq!(
        parsed.command,
        Some(Commands::Run { task: "mocha".to_string(), extra_args: strings(&["--", "--help"]) })
    );
}

#[test]
fn add_package_dev() {
    let parsed = parse_from(strings(&["/ny", "add", "--dev", "pkg"])).unwrap();
    assert_eq!(
        parsed.command,
        Some(Commands::Add { packages: strings(&["pkg"]), dev: true, workspace_root: false })
    );
}

#[test]
fn add_package_dev_alias() {
    let parsed = parse_from(strings(&["/ny", "add", "--save-dev", "pkg"])).unwrap();
    assert_eq!(
        parsed.command,
        Some(Commands::Add { packages: strings(&["pkg"]), dev: true, workspace_root: false })
    );
}

#[test]
fn bare_invocation_means_install() {
    assert_eq!(parse_from(strings(&["/ny"])).unwrap().command, None);
    assert_eq!(parse_from(strings(&["/ny", "i"])).unwrap().command, Some(Commands::Install));
    assert_eq!(parse_from(strings(&["/ny", "install"])).unwrap().command, Some(Commands::Install));
}

#[test]
fn add_aliases_and_flags_anywhere() {
    let parsed = parse_from(strings(&["/ny", "a", "x", "-W", "y@1", "-D"])).unwrap();
    assert_eq!(
        parsed.command,
        Some(Commands::Add { packages: strings(&["x", "y@1"]), dev: true, workspace_root: true })
    );
    let parsed = parse_from(strings(&["/ny", "add", "-w", "--", "-odd"])).unwrap();
    assert_eq!(
        parsed.command,
        Some(Commands::Add { packages: strings(&["-odd"]), dev: false, workspace_root: true })
    );
}

#[test]
fn add_short_option_clusters() {
    let parsed = parse_from(strings(&["/ny", "add", "-dw", "pkg"])).unwrap();
    assert_eq!(
        parsed.command,
        Some(Commands::Add { packages: strings(&["pkg"]), dev: true, workspace_root: true })
    );
    let parsed = parse_from(strings(&["/ny", "add", "pkg", "-DD"])).unwrap();
    assert_eq!(
        parsed.command,
        Some(Commands::Add { packages: strings(&["pkg"]), dev: true, workspace_root: false })
    );
    assert_eq!(parse_from(strings(&["/ny", "add", "pkg", "-dx"])), Err(CliError::Usage));
}

#[test]
fn run_alias_and_escaped_task() {
    let parsed = parse_from(strings(&["/ny", "r", "--", "build", "-x"])).unwrap();
    assert_eq!(
        parsed.command,
        Some(Commands::Run { task: "build".to_string(), extra_args: strings(&["-x"]) })
    );
}

#[test]
fn rejected_command_lines() {
    assert_eq!(parse_from(strings(&["/ny", "--help"])), Err(CliError::Help));
    assert_eq!(parse_from(strings(&["/ny", "-V"])), Err(CliError::Version));
    assert_eq!(parse_from(strings(&["/ny", "--bogus"])), Err(CliError::Usage));
    assert_eq!(parse_from(strings(&["/ny", "run"])), Err(CliError::Usage));
    assert_eq!(parse_from(strings(&["/ny", "run", "-h"])), Err(CliError::Help));
    assert_eq!(parse_from(strings(&["/ny", "add"])), Err(CliError::Usage));
    assert_eq!(parse_from(strings(&["/ny", "add", "--dev"])), Err(CliError::Usage));
    assert_eq!(parse_from(strings(&["/ny", "add", "pkg", "--help"])), Err(CliError::Help));
    assert_eq!(parse_from(strings(&["/ny", "add", "pkg", "--frozen"])), Err(CliError::Usage));
    assert_eq!(parse_from(strings(&["/ny", "install", "extra"])), Err(CliError::Usage));
}
