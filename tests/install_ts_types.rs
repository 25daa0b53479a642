use ny::agent::Agent;
use ny::execute::Invocation;
use ny::fs::{DirPath, Filesystem};
use ny::http::HttpClient;
use ny::install_ts_types::{
    check_if_package_exists_in_registry, check_if_package_exists_locally, check_if_package_has_types,
    check_if_ts_repo, install_ts_types, package_name_to_types_package_name, select_types_packages,
    types_install, TypesInstall,
};

struct FakeFs {
    files: Vec<(String, String)>,
}

impl Filesystem for FakeFs {
    fn path_exists(&self, path: &str) -> bool {
        self.files.iter().any(|(p, _)| p == path)
    }

    fn read_to_string(&self, path: &str) -> Result<String, String> {
        match self.files.iter().find(|(p, _)| p == path) {
            Some((_, c)) => Ok(c.clone()),
            None => Err(format!("no file at {path}")),
        }
    }
}

fn fs_with(files: &[(&str, &str)]) -> FakeFs {
    FakeFs { files: files.iter().map(|(p, c)| (p.to_string(), c.to_string())).collect() }
}

/// Answers only the addresses it was given; any other request is a test failure.
struct FakeRegistry {
    answers: Vec<(String, bool)>,
}

impl HttpClient for FakeRegistry {
    fn request_if_success(&self, url: &str) -> Result<bool, String> {
        match self.answers.iter().find(|(u, _)| u == url) {
            Some((_, ok)) => Ok(*ok),
            None => panic!("unexpected request: {url}"),
        }
    }
}

fn registry(answers: &[(&str, bool)]) -> FakeRegistry {
    FakeRegistry {
        answers: answers
            .iter()
            .map(|(p, ok)| (format!("https://registry.npmjs.org/{p}"), *ok))
            .collect(),
    }
}

fn strings(v: &[&str]) -> Vec<String> {
    v.iter().map(|s| s.to_string()).collect()
}

#[test]
fn test_package_name_to_types_package_name() {
    assert_eq!(package_name_to_types_package_name("foo".to_string()), "@types/foo".to_owned());
    assert_eq!(package_name_to_types_package_name("foo@tag".to_string()), "@types/foo".to_owned());
    assert_eq!(package_name_to_types_package_name("@foo/bar".to_string()), "@types/foo__bar".to_owned());
}

#[test]
fn types_package_name_drops_versions() {
    assert_eq!(package_name_to_types_package_name("foo@1.2.3".to_string()), "@types/foo");
    assert_eq!(package_name_to_types_package_name("@foo/bar@^2".to_string()), "@types/foo__bar");
    assert_eq!(package_name_to_types_package_name("@a/b/c".to_string()), "@types/a__b__c");
}

#[test]
fn test_check_if_ts_repo() {
    let mock_fs = fs_with(&[("/project/tsconfig.json", "")]);
    assert_eq!(check_if_ts_repo(&mock_fs, &DirPath::parse("/project")), true);
}

#[test]
fn test_check_if_not_ts_repo() {
    let mock_fs = fs_with(&[]);
    assert_eq!(check_if_ts_repo(&mock_fs, &DirPath::parse("/project")), false);
}

#[test]
fn test_check_if_package_has_types() {
    let mock_fs = fs_with(&[("/project/node_modules/package/package.json", r#"{"types": "index.d.ts"}"#)]);
    assert_eq!(check_if_package_has_types(&mock_fs, &DirPath::parse("/project"), "package"), true);
}

#[test]
fn test_check_if_package_has_types_with_typings_key() {
    let mock_fs = fs_with(&[("/project/node_modules/package/package.json", r#"{"typings": "index.d.ts"}"#)]);
    assert_eq!(check_if_package_has_types(&mock_fs, &DirPath::parse("/project"), "package"), true);
}

#[test]
fn test_check_if_package_has_no_types() {
    let mock_fs = fs_with(&[("/project/node_modules/package/package.json", r#"{}"#)]);
    assert_eq!(check_if_package_has_types(&mock_fs, &DirPath::parse("/project"), "package"), false);
}

#[test]
fn unreadable_or_invalid_manifest_means_no_types() {
    let broken = fs_with(&[("/project/node_modules/package/package.json", "{oops")]);
    assert_eq!(check_if_package_has_types(&broken, &DirPath::parse("/project"), "package"), false);
    assert_eq!(check_if_package_has_types(&fs_with(&[]), &DirPath::parse("/project"), "package"), false);
}

#[test]
fn local_and_registry_checks() {
    let mock_fs = fs_with(&[("/node_modules/@types/x/package.json", "{}")]);
    assert!(check_if_package_exists_locally(&mock_fs, &DirPath::parse("/p"), "@types/x"));
    assert!(!check_if_package_exists_locally(&mock_fs, &DirPath::parse("/p"), "@types/y"));
    let reg = registry(&[("@types/x", true), ("@types/y", false)]);
    assert!(check_if_package_exists_in_registry(&reg, "@types/x"));
    assert!(!check_if_package_exists_in_registry(&reg, "@types/y"));
}

/// A registry that cannot be reached.
struct Down;

impl HttpClient for Down {
    fn request_if_success(&self, _url: &str) -> Result<bool, String> {
        Err("offline".to_string())
    }
}

#[test]
fn failed_registry_request_means_absent() {
    assert!(!check_if_package_exists_in_registry(&Down, "@types/x"));
}

#[test]
fn test_integration_install_ts_types() {
    let mock_fs = fs_with(&[
        ("/project/node_modules/package-a/package.json", r#"{}"#),
        ("/project/node_modules/package-b/package.json", r#"{"types":"exists"}"#),
        ("/project/node_modules/package-c/package.json", r#"{}"#),
        ("/project/node_modules/@types/package-c/package.json", r#"{}"#),
    ]);
    let reg = registry(&[("@types/package-a", true)]);
    let result = install_ts_types(
        &mock_fs,
        &reg,
        &Agent::Npm,
        &DirPath::parse("/project"),
        &strings(&["package-a", "package-b", "package-c"]),
        false,
    )
    .unwrap();
    let install = result.unwrap();
    assert_eq!(
        install.invocation,
        Invocation {
            program: "npm".to_string(),
            args: strings(&["install", "--save-dev", "@types/package-a"]),
            extra_path: None,
            verbose: true,
            silence_stdout: true,
        }
    );
    assert_eq!(install.heading, "Installing missing types: ");
    assert_eq!(install.names, "@types/package-a");
}

#[test]
fn test_integration_package_with_types_missing_in_registry() {
    let mock_fs = fs_with(&[("/project/node_modules/package-a/package.json", r#"{}"#)]);
    let reg = registry(&[("@types/package-a", false)]);
    let result = install_ts_types(
        &mock_fs,
        &reg,
        &Agent::Npm,
        &DirPath::parse("/project"),
        &strings(&["package-a"]),
        false,
    );
    assert_eq!(result, Ok(None));
}

#[test]
fn test_integration_install_ts_types_when_empty() {
    let mock_fs = fs_with(&[("/project/node_modules/package-a/package.json", r#"{"types":"exists"}"#)]);
    let reg = registry(&[]);
    let result = install_ts_types(
        &mock_fs,
        &reg,
        &Agent::Npm,
        &DirPath::parse("/project"),
        &strings(&["package-a"]),
        false,
    );
    assert_eq!(result, Ok(None));
}

#[test]
fn declaration_packages_are_never_looked_up() {
    let result = install_ts_types(
        &fs_with(&[]),
        &registry(&[]),
        &Agent::Pnpm,
        &DirPath::parse("/p"),
        &strings(&["@types/node"]),
        true,
    );
    assert_eq!(result, Ok(None));
}

#[test]
fn several_missing_types_in_one_batch() {
    let reg = registry(&[("@types/a", true), ("@types/s__b", true), ("@types/c", false)]);
    let result = install_ts_types(
        &fs_with(&[]),
        &reg,
        &Agent::Yarn,
        &DirPath::parse("/p"),
        &strings(&["a@1", "@s/b", "c"]),
        true,
    )
    .unwrap()
    .unwrap();
    assert_eq!(result.heading, "Installing missing types for 2 packages: ");
    assert_eq!(result.names, "@types/a, @types/s__b");
    assert_eq!(result.invocation.program, "yarn");
    assert_eq!(result.invocation.args, strings(&["add", "-D", "-W", "@types/a", "@types/s__b"]));
    assert!(result.invocation.silence_stdout);
}

#[test]
fn bun_workspace_root_batch_fails() {
    let reg = registry(&[("@types/a", true)]);
    let result = install_ts_types(&fs_with(&[]), &reg, &Agent::Bun, &DirPath::parse("/p"), &strings(&["a"]), true);
    assert!(result.is_err());
}

#[test]
fn selection_filters_each_reason() {
    let packages = strings(&["keep", "typed", "local", "unlisted", "@types/x"]);
    let chosen = select_types_packages(
        &packages,
        &[false, true, false, false, false],
        &[false, false, true, false, false],
        &[true, true, true, false, true],
    );
    assert_eq!(chosen, strings(&["@types/keep"]));
}

#[test]
fn types_install_counts_in_decimal() {
    let names: Vec<String> = (0..12).map(|i| format!("@types/p{i}")).collect();
    let result = types_install(&Agent::Npm, false, &names).unwrap().unwrap();
    assert_eq!(result.heading, "Installing missing types for 12 packages: ");
    assert_eq!(types_install(&Agent::Npm, false, &[]), Ok(None::<TypesInstall>));
}
