use ny::agent::Agent;
use ny::fs::{DirPath, Filesystem};

struct FakeFs {
    present: Vec<String>,
}

impl Filesystem for FakeFs {
    fn path_exists(&self, path: &str) -> bool {
        self.present.iter().any(|p| p == path)
    }

    fn read_to_string(&self, path: &str) -> Result<String, String> {
        Err(format!("no file at {path}"))
    }
}

fn fs_with(paths: &[&str]) -> FakeFs {
    FakeFs { present: paths.iter().map(|p| p.to_string()).collect() }
}

#[test]
fn test_recognize_in_path() {
    let dir = DirPath::parse("/npm-project");
    let mock_fs = fs_with(&["/npm-project/package-lock.json"]);
    assert_eq!(Agent::recognize(&mock_fs, &dir), Some(Agent::Npm));
}

#[test]
fn test_recognize_in_parent() {
    let dir = DirPath::parse("/npm-project");
    let mock_fs = fs_with(&["/yarn.lock"]);
    assert_eq!(Agent::recognize(&mock_fs, &dir), Some(Agent::Yarn));
}

#[test]
fn test_recognize_bun_new_lockfile_in_parent() {
    let dir = DirPath::parse("/npm-project");
    let mock_fs = fs_with(&["/bun.lock"]);
    assert_eq!(Agent::recognize(&mock_fs, &dir), Some(Agent::Bun));
}

#[test]
fn test_not_recognized() {
    let dir = DirPath::parse("/any-project");
    let mock_fs = fs_with(&[]);
    assert_eq!(Agent::recognize(&mock_fs, &dir), None);
}

#[test]
fn recognize_prefers_nearest_lockfile() {
    let dir = DirPath::parse("/work/app/web");
    let mock_fs = fs_with(&["/work/yarn.lock", "/work/app/pnpm-lock.yaml", "/bun.lockb"]);
    assert_eq!(Agent::recognize(&mock_fs, &dir), Some(Agent::Pnpm));
}

#[test]
fn recognize_each_lockfile_name() {
    let cases = [
        ("package-lock.json", Agent::Npm),
        ("npm-shrinkwrap.json", Agent::Npm),
        ("yarn.lock", Agent::Yarn),
        ("pnpm-lock.yaml", Agent::Pnpm),
        ("bun.lockb", Agent::Bun),
        ("bun.lock", Agent::Bun),
    ];
    for (name, agent) in cases {
        let mock_fs = fs_with(&[&format!("/p/q/{name}")]);
        assert_eq!(Agent::recognize(&mock_fs, &DirPath::parse("/p/q")), Some(agent));
    }
}

#[test]
fn recognize_from_root() {
    let mock_fs = fs_with(&["/pnpm-lock.yaml"]);
    assert_eq!(Agent::recognize(&mock_fs, &DirPath::parse("/")), Some(Agent::Pnpm));
    assert_eq!(Agent::recognize(&fs_with(&[]), &DirPath::root()), None);
}
