//! Package-manager identities and their recognition from lockfiles.
use vstd::prelude::*;
use crate::fs::{DirPath, Filesystem};
use crate::fs;

verus! {

/// The package manager that governs a project.
#[derive(Debug, Clone, Copy, PartialEq, Eq, Structural)]
pub enum Agent {
    Npm,
    Yarn,
    Pnpm,
    Bun,
}

/// The recognized lockfiles with the agent that each identifies, in the order
/// in which a directory is searched.
pub open spec fn lockfiles() -> Seq<(Seq<char>, Agent)> {
    seq![
        ("package-lock.json"@, Agent::Npm),
        ("npm-shrinkwrap.json"@, Agent::Npm),
        ("yarn.lock"@, Agent::Yarn),
        ("pnpm-lock.yaml"@, Agent::Pnpm),
        ("bun.lockb"@, Agent::Bun),
        ("bun.lock"@, Agent::Bun),
    ]
}

/// Each lockfile's path in the directory, with its agent.
pub open spec fn dir_probes(dir: Seq<Seq<char>>) -> Seq<(Seq<char>, Agent)> {
    lockfiles().map_values(|e: (Seq<char>, Agent)| (fs::file_text(dir, e.0), e.1))
}

/// The lockfile probes of the directory and then of each ancestor, nearest first.
pub open spec fn lockfile_probes(dir: Seq<Seq<char>>) -> Seq<(Seq<char>, Agent)>
    decreases dir.len(),
{
    if dir.len() == 0 {
        dir_probes(dir)
    } else {
        dir_probes(dir) + lockfile_probes(dir.drop_last())
    }
}

/// The agent of a probe that was hit.
pub open spec fn agent_of(hit: Option<(Seq<char>, Agent)>) -> Option<Agent> {
    match hit {
        Some(p) => Some(p.1),
        None => None,
    }
}

/// How a directory tree, as the set of the paths in it, answers probes.
pub open spec fn tree_answers(tree: Set<Seq<char>>, probes: Seq<(Seq<char>, Agent)>) -> Seq<bool> {
    probes.map_values(|p: (Seq<char>, Agent)| tree.contains(p.0))
}

/// The directory holds a recognized lockfile in the tree.
pub open spec fn holds_lockfile(tree: Set<Seq<char>>, dir: Seq<Seq<char>>) -> bool {
    exists|l: int| 0 <= l < lockfiles().len() && tree.contains(#[trigger] fs::file_text(dir, lockfiles()[l].0))
}

/// The agent of the directory's first recognized lockfile in the tree.
pub open spec fn dir_agent(tree: Set<Seq<char>>, dir: Seq<Seq<char>>) -> Option<Agent> {
    agent_of(fs::first_hit(dir_probes(dir), tree_answers(tree, dir_probes(dir))))
}

/// The directory tree that a filesystem answers from.
pub open spec fn fs_tree<F: Filesystem>(fs: &F) -> Set<Seq<char>> {
    Set::new(|p: Seq<char>| fs.has(p))
}

/// What recognition gives on a directory tree.
pub open spec fn recognized_in_tree(tree: Set<Seq<char>>, dir: Seq<Seq<char>>) -> Option<Agent> {
    agent_of(fs::first_hit(lockfile_probes(dir), tree_answers(tree, lockfile_probes(dir))))
}

proof fn lemma_dir_probes_hit(tree: Set<Seq<char>>, dir: Seq<Seq<char>>)
    ensures
        holds_lockfile(tree, dir) <==> dir_agent(tree, dir) is Some,
{
    let dp = dir_probes(dir);
    let ans = tree_answers(tree, dp);
    fs::lemma_first_hit_some(dp, ans);
    if holds_lockfile(tree, dir) {
        let l = choose|l: int| 0 <= l < lockfiles().len() && tree.contains(#[trigger] fs::file_text(dir, lockfiles()[l].0));
        assert(ans[l]);
    }
    if dir_agent(tree, dir) is Some {
        let x = fs::first_hit(dp, ans)->0;
        let i = choose|i: int| 0 <= i < dp.len() && ans[i] && x == dp[i] && forall|j: int| 0 <= j < i ==> !ans[j];
        assert(tree.contains(fs::file_text(dir, lockfiles()[i].0)));
    }
}

/// Recognition on a directory tree gives the agent of the nearest directory,
/// from `dir` itself up to the root, that holds a recognized lockfile, and
/// nothing where none of them does.
pub proof fn lemma_recognize_nearest(tree: Set<Seq<char>>, dir: Seq<Seq<char>>)
    ensures
        recognized_in_tree(tree, dir) is None <==> forall|k: int|
            0 <= k <= dir.len() ==> !holds_lockfile(tree, #[trigger] dir.subrange(0, k)),
        recognized_in_tree(tree, dir) is Some ==> exists|k: int|
            0 <= k <= dir.len() && holds_lockfile(tree, #[trigger] dir.subrange(0, k))
                && recognized_in_tree(tree, dir) == dir_agent(tree, dir.subrange(0, k))
                && forall|m: int| k < m <= dir.len() ==> !holds_lockfile(tree, #[trigger] dir.subrange(0, m)),
    decreases dir.len(),
{
    let dp = dir_probes(dir);
    lemma_dir_probes_hit(tree, dir);
    assert(dir.subrange(0, dir.len() as int) =~= dir);
    if dir.len() == 0 {
        assert forall|k: int| 0 <= k <= dir.len() implies #[trigger] dir.subrange(0, k) == dir by {
            assert(dir.subrange(0, k) =~= dir);
        }
    } else {
        let up = dir.drop_last();
        let rest = lockfile_probes(up);
        assert(tree_answers(tree, dp + rest) =~= tree_answers(tree, dp) + tree_answers(tree, rest));
        fs::lemma_first_hit_concat(dp, rest, tree_answers(tree, dp), tree_answers(tree, rest));
        lemma_recognize_nearest(tree, up);
        assert forall|k: int| 0 <= k <= up.len() implies #[trigger] up.subrange(0, k) == dir.subrange(0, k) by {
            assert(up.subrange(0, k) =~= dir.subrange(0, k));
        }
        if holds_lockfile(tree, dir) {
            assert(holds_lockfile(tree, dir.subrange(0, dir.len() as int)));
        } else {
            if recognized_in_tree(tree, up) is Some {
                let k = choose|k: int|
                    0 <= k <= up.len() && holds_lockfile(tree, #[trigger] up.subrange(0, k))
                        && recognized_in_tree(tree, up) == dir_agent(tree, up.subrange(0, k))
                        && forall|m: int| k < m <= up.len() ==> !holds_lockfile(tree, #[trigger] up.subrange(0, m));
                assert(holds_lockfile(tree, dir.subrange(0, k)));
                assert forall|m: int| k < m <= dir.len() implies !holds_lockfile(tree, #[trigger] dir.subrange(0, m)) by {
                    if m < dir.len() {
                        assert(!holds_lockfile(tree, up.subrange(0, m)));
                    }
                }
            } else {
                assert forall|k: int| 0 <= k <= dir.len() implies !holds_lockfile(tree, #[trigger] dir.subrange(0, k)) by {
                    if k < dir.len() {
                        assert(!holds_lockfile(tree, up.subrange(0, k)));
                    }
                }
            }
        }
    }
}

/// The `i`-th recognized lockfile and its agent.
fn lockfile(i: usize) -> (r: (&'static str, Agent))
    requires
        i < 6,
    ensures
        r.0@ == lockfiles()[i as int].0,
        r.1 == lockfiles()[i as int].1,
{
    match i {
        0 => ("package-lock.json", Agent::Npm),
        1 => ("npm-shrinkwrap.json", Agent::Npm),
        2 => ("yarn.lock", Agent::Yarn),
        3 => ("pnpm-lock.yaml", Agent::Pnpm),
        4 => ("bun.lockb", Agent::Bun),
        _ => ("bun.lock", Agent::Bun),
    }
}

impl Agent {
    /// The agent of the first recognized lockfile (in the order of
    /// [`lockfiles`]) in the nearest directory, from `dir` up to the root,
    /// that holds one; `None` where none does. The search stops at the first
    /// lockfile found.
    pub fn recognize<F: Filesystem>(fs: &F, dir: &DirPath) -> (r: Option<Self>)
        ensures
            r == recognized_in_tree(fs_tree(fs), dir@),
            r is None <==> forall|k: int|
                0 <= k <= dir@.len() ==> !holds_lockfile(fs_tree(fs), #[trigger] dir@.subrange(0, k)),
            r is Some ==> exists|k: int|
                0 <= k <= dir@.len() && holds_lockfile(fs_tree(fs), #[trigger] dir@.subrange(0, k))
                    && r == dir_agent(fs_tree(fs), dir@.subrange(0, k))
                    && forall|m: int| k < m <= dir@.len() ==> !holds_lockfile(fs_tree(fs), #[trigger] dir@.subrange(0, m)),
    {
        let ghost tree = fs_tree(fs);
        let mut k: usize = dir.parts.len();
        assert(dir@.subrange(0, k as int) =~= dir@);
        loop
            invariant
                k <= dir@.len(),
                tree == fs_tree(fs),
                recognized_in_tree(tree, dir@) == recognized_in_tree(tree, dir@.subrange(0, k as int)),
            decreases k,
        {
            let ghost sub = dir@.subrange(0, k as int);
            let ghost dp = dir_probes(sub);
            let ghost rest = if k == 0 { Seq::<(Seq<char>, Agent)>::empty() } else { lockfile_probes(sub.drop_last()) };
            assert(lockfile_probes(sub) =~= dp + rest);
            assert(tree_answers(tree, dp + rest) =~= tree_answers(tree, dp) + tree_answers(tree, rest));
            proof {
                fs::lemma_first_hit_concat(dp, rest, tree_answers(tree, dp), tree_answers(tree, rest));
                lemma_recognize_nearest(tree, dir@);
            }
            let found_here = Self::recognize_in_dir(fs, dir, k);
            if found_here.is_some() {
                return found_here;
            }
            if k == 0 {
                return None;
            }
            assert(sub.drop_last() =~= dir@.subrange(0, k - 1));
            k = k - 1;
        }
    }

    /// The agent of the first recognized lockfile in the ancestor of `dir`
    /// made of its first `k` components.
    fn recognize_in_dir<F: Filesystem>(fs: &F, dir: &DirPath, k: usize) -> (r: Option<Self>)
        requires
            k <= dir@.len(),
        ensures
            r == dir_agent(fs_tree(fs), dir@.subrange(0, k as int)),
    {
        let ghost tree = fs_tree(fs);
        let ghost sub = dir@.subrange(0, k as int);
        let ghost dp = dir_probes(sub);
        let mut i: usize = 0;
        while i < 6
            invariant
                i <= 6,
                k <= dir@.len(),
                tree == fs_tree(fs),
                sub == dir@.subrange(0, k as int),
                dp == dir_probes(sub),
                dp.len() == 6,
                forall|j: int| 0 <= j < i ==> !tree.contains(#[trigger] dp[j].0),
            decreases 6 - i,
        {
            let (name, agent) = lockfile(i);
            let path = dir.file_at(k, name);
            assert(dp[i as int] == (path@, agent));
            if fs.path_exists(path.as_str()) {
                proof {
                    let before = dp.subrange(0, i as int);
                    let after = dp.subrange(i as int, 6);
                    assert(dp =~= before + after);
                    assert(tree_answers(tree, dp) =~= tree_answers(tree, before) + tree_answers(tree, after));
                    fs::lemma_first_hit_none(before, tree_answers(tree, before));
                    fs::lemma_first_hit_concat(before, after, tree_answers(tree, before), tree_answers(tree, after));
                    assert(tree_answers(tree, after)[0]);
                }
                return Some(agent);
            }
            i = i + 1;
        }
        proof {
            fs::lemma_first_hit_none(dp, tree_answers(tree, dp));
        }
        None
    }
}

} // verus!
