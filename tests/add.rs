use ny::add::add;
use ny::agent::Agent;
use ny::error::CommandError;
use ny::execute::Invocation;

fn strings(v: &[&str]) -> Vec<String> {
    v.iter().map(|s| s.to_string()).collect()
}

fn expected(program: &str, args: &[&str], silence_stdout: bool) -> Invocation {
    Invocation {
        program: program.to_string(),
        args: strings(args),
        extra_path: None,
        verbose: true,
        silence_stdout,
    }
}

#[test]
fn test_add_npm() {
    let result = add(&Agent::Npm, false, false, &strings(&["packageA", "packageB"]), false);
    assert_eq!(result, Ok(expected("npm", &["install", "packageA", "packageB"], false)));
}

#[test]
fn test_add_npm_workspace() {
    let result = add(&Agent::Npm, false, true, &strings(&["packageA", "packageB"]), false);
    assert_eq!(result, Ok(expected("npm", &["install", "packageA", "packageB"], false)));
}

#[test]
fn test_add_yarn() {
    let result = add(&Agent::Yarn, true, false, &strings(&["packageA", "packageB"]), false);
    assert_eq!(result, Ok(expected("yarn", &["add", "-D", "packageA", "packageB"], false)));
}

#[test]
fn test_add_yarn_workspace() {
    let result = add(&Agent::Yarn, true, true, &strings(&["packageA", "packageB"]), false);
    assert_eq!(result, Ok(expected("yarn", &["add", "-D", "-W", "packageA", "packageB"], false)));
}

#[test]
fn test_add_pnpm() {
    let result = add(&Agent::Pnpm, true, false, &strings(&["packageA", "packageB"]), false);
    assert_eq!(result, Ok(expected("pnpm", &["add", "-D", "packageA", "packageB"], false)));
}

#[test]
fn test_add_pnpm_workspace() {
    let result = add(&Agent::Pnpm, true, true, &strings(&["packageA", "packageB"]), false);
    assert_eq!(result, Ok(expected("pnpm", &["add", "-D", "-w", "packageA", "packageB"], false)));
}

#[test]
fn test_add_bun() {
    let result = add(&Agent::Bun, true, false, &strings(&["packageA", "packageB"]), false);
    assert_eq!(result, Ok(expected("bun", &["add", "-D", "packageA", "packageB"], false)));
}

#[test]
fn add_npm_dev_uses_save_dev() {
    let result = add(&Agent::Npm, true, false, &strings(&["a"]), true);
    assert_eq!(result, Ok(expected("npm", &["install", "--save-dev", "a"], true)));
}

#[test]
fn add_bun_workspace_root_is_refused() {
    let result = add(&Agent::Bun, false, true, &strings(&["a"]), false);
    assert_eq!(
        result,
        Err(CommandError::UnsupportedFlag { agent: Agent::Bun, flag: "workspace_root".to_string() })
    );
}
