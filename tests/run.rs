use ny::error::CommandError;
use ny::execute::Invocation;
use ny::fs::{DirPath, Filesystem};
use ny::json::Json;
use ny::run::{construct_path_env, load_script, plan_run, run, RunPlan};

struct FakeFs {
    files: Vec<(String, String)>,
}

impl Filesystem for FakeFs {
    fn path_exists(&self, path: &str) -> bool {
        self.files.iter().any(|(p, _)| p == path)
    }

    fn read_to_string(&self, path: &str) -> Result<String, String> {
        match self.files.iter().find(|(p, _)| p == path) {
            Some((_, c)) => Ok(c.clone()),
            None => Err(format!("no file at {path}")),
        }
    }
}

fn fs_with(files: &[(&str, &str)]) -> FakeFs {
    FakeFs { files: files.iter().map(|(p, c)| (p.to_string(), c.to_string())).collect() }
}

fn strings(v: &[&str]) -> Vec<String> {
    v.iter().map(|s| s.to_string()).collect()
}

#[test]
fn test_load_script() {
    let package_json = Json::Object(vec![(
        "scripts".to_string(),
        Json::Object(vec![("test".to_string(), Json::Text("echo \"test\"".to_string()))]),
    )]);

    let result = load_script(&package_json, "test");
    assert!(result.is_some());
    assert_eq!(result.unwrap(), "echo \"test\"");

    let result = load_script(&package_json, "test2");
    assert!(result.is_none());
}

#[test]
fn load_script_needs_a_string_under_scripts() {
    let manifest = Json::Object(vec![
        ("name".to_string(), Json::Text("x".to_string())),
        (
            "scripts".to_string(),
            Json::Object(vec![
                ("n".to_string(), Json::Number("1".to_string())),
                ("s".to_string(), Json::Text("go".to_string())),
            ]),
        ),
    ]);
    assert_eq!(load_script(&manifest, "n"), None);
    assert_eq!(load_script(&manifest, "s"), Some("go".to_string()));
    assert_eq!(load_script(&Json::Array(vec![]), "s"), None);
}

#[test]
fn test_construct_path_env() {
    assert_eq!(
        construct_path_env(&DirPath::parse("/project/nested")),
        "/project/nested/node_modules/.bin:/project/node_modules/.bin:/node_modules/.bin:"
    );
}

#[test]
fn command_run_from_package_json() {
    let mock_fs = fs_with(&[("/project/package.json", r#"{"scripts": {"test": "mocha \"*.ts\""}}"#)]);
    let extra = strings(&["--no-timeout", "--bail"]);
    let result = run(&mock_fs, "test", &DirPath::parse("/project"), Some(&extra));
    assert_eq!(
        result,
        Ok(RunPlan {
            echo: r#"$ mocha "*.ts" --no-timeout --bail"#.to_string(),
            invocation: Invocation {
                program: "sh".to_string(),
                args: strings(&["-c", r#"mocha "*.ts" --no-timeout --bail"#]),
                extra_path: Some("/project/node_modules/.bin:/node_modules/.bin:".to_string()),
                verbose: false,
                silence_stdout: false,
            },
        })
    );
}

#[test]
fn command_run_from_node_modules() {
    let mock_fs = fs_with(&[("/project/package.json", r#"{"scripts": {}}"#)]);
    let extra = strings(&["--help"]);
    let result = run(&mock_fs, "mocha", &DirPath::parse("/project"), Some(&extra));
    assert_eq!(
        result,
        Ok(RunPlan {
            echo: "$ mocha".to_string(),
            invocation: Invocation {
                program: "mocha".to_string(),
                args: strings(&["--help"]),
                extra_path: Some("/project/node_modules/.bin:/node_modules/.bin:".to_string()),
                verbose: false,
                silence_stdout: false,
            },
        })
    );
}

#[test]
fn run_script_with_bail_from_nested_dir() {
    let mock_fs = fs_with(&[("/project/package.json", r#"{"scripts": {"test": "mocha \"*.ts\""}}"#)]);
    let extra = strings(&["--bail"]);
    let plan = run(&mock_fs, "test", &DirPath::parse("/project/src"), Some(&extra)).unwrap();
    assert_eq!(plan.invocation.args, strings(&["-c", r#"mocha "*.ts" --bail"#]));
    assert_eq!(plan.invocation.extra_path, Some("/project/node_modules/.bin:/node_modules/.bin:".to_string()));
}

#[test]
fn run_without_extra_args_leaves_script_alone() {
    let mock_fs = fs_with(&[("/p/package.json", r#"{"scripts": {"b": "tsc -b"}}"#)]);
    let plan = run(&mock_fs, "b", &DirPath::parse("/p"), None).unwrap();
    assert_eq!(plan.echo, "$ tsc -b");
    assert_eq!(plan.invocation.args, strings(&["-c", "tsc -b"]));
    let plan = run(&mock_fs, "b", &DirPath::parse("/p"), Some(&[])).unwrap();
    assert_eq!(plan.invocation.args, strings(&["-c", "tsc -b"]));
}

#[test]
fn non_string_script_is_a_program() {
    let mock_fs = fs_with(&[("/p/package.json", r#"{"scripts": {"lint": {"cmd": "x"}}}"#)]);
    let extra = strings(&["a b", "c"]);
    let plan = run(&mock_fs, "lint", &DirPath::parse("/p"), Some(&extra)).unwrap();
    assert_eq!(plan.invocation.program, "lint");
    assert_eq!(plan.invocation.args, strings(&["a b", "c"]));
}

#[test]
fn run_errors() {
    let none = fs_with(&[]);
    assert_eq!(
        run(&none, "t", &DirPath::parse("/a/b"), None),
        Err(CommandError::ManifestNotFound { dir: "/a/b".to_string() })
    );
    let broken = fs_with(&[("/a/package.json", "{not json")]);
    assert_eq!(
        run(&broken, "t", &DirPath::parse("/a/b"), None),
        Err(CommandError::ManifestParse { path: "/a/package.json".to_string() })
    );
}

#[test]
fn plan_run_joins_extra_args_with_spaces() {
    let plan = plan_run("t", &strings(&["x", "y"]), Some("go".to_string()), "/bin:".to_string());
    assert_eq!(plan.echo, "$ go x y");
    assert_eq!(plan.invocation.args, strings(&["-c", "go x y"]));
    assert_eq!(plan.invocation.extra_path, Some("/bin:".to_string()));
}
