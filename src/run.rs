//! Resolution of `run`: a manifest script through a shell, else a program.
use vstd::prelude::*;
use crate::error::CommandError;
use crate::execute::{Invocation, InvocationView};
use crate::fs::{DirPath, Filesystem};
use crate::fs;
use crate::json;
use crate::text;
use crate::text::texts;

verus! {

/// The search path for a manifest directory: the `node_modules/.bin` of the
/// directory and of each ancestor up to the root, nearest first, each
/// followed by `:`.
pub open spec fn path_env(dir: Seq<Seq<char>>) -> Seq<char>
    decreases dir.len(),
{
    let here = fs::file_text(dir, "node_modules/.bin"@) + ":"@;
    if dir.len() == 0 {
        here
    } else {
        here + path_env(dir.drop_last())
    }
}

/// The script text with the extra arguments appended, space separated.
pub open spec fn script_line(script: Seq<char>, extra_args: Seq<Seq<char>>) -> Seq<char> {
    if extra_args.len() == 0 {
        script
    } else {
        script + " "@ + text::joined(extra_args, " "@)
    }
}

/// What `run` starts: the script through `sh -c` where the manifest has one
/// for the task, else the task itself as a program with the extra arguments
/// as its argument vector; either way with the search path, not echoed by
/// the port and with output shown.
pub open spec fn run_invocation(
    task: Seq<char>,
    extra_args: Seq<Seq<char>>,
    script: Option<Seq<char>>,
    search_path: Seq<char>,
) -> InvocationView {
    match script {
        Some(s) => InvocationView {
            program: "sh"@,
            args: seq!["-c"@, script_line(s, extra_args)],
            extra_path: Some(search_path),
            verbose: false,
            silence_stdout: false,
        },
        None => InvocationView {
            program: task,
            args: extra_args,
            extra_path: Some(search_path),
            verbose: false,
            silence_stdout: false,
        },
    }
}

/// The line shown before the run: the final script text, else the program.
pub open spec fn run_echo(task: Seq<char>, extra_args: Seq<Seq<char>>, script: Option<Seq<char>>) -> Seq<char> {
    match script {
        Some(s) => "$ "@ + script_line(s, extra_args),
        None => "$ "@ + task,
    }
}

/// A resolved `run`: the line to show, then the invocation.
#[derive(Debug, Clone, PartialEq, Eq)]
pub struct RunPlan {
    pub echo: String,
    pub invocation: Invocation,
}

/// The extra arguments of a `run`, none where absent.
pub open spec fn extra_texts(extra_args: Option<&[String]>) -> Seq<Seq<char>> {
    match extra_args {
        Some(a) => texts(a@),
        None => seq![],
    }
}

/// The plan is the one for these inputs.
pub open spec fn plans(
    plan: RunPlan,
    task: Seq<char>,
    extra_args: Seq<Seq<char>>,
    script: Option<Seq<char>>,
    search_path: Seq<char>,
) -> bool {
    plan.echo@ == run_echo(task, extra_args, script) && plan.invocation@ == run_invocation(
        task,
        extra_args,
        script,
        search_path,
    )
}

/// Where the manifest has no script for the task, the task itself is started
/// as a program, its argument vector exactly the extra arguments, with no
/// shell in between; where it has one, the script goes through `sh -c` as
/// one argument.
pub proof fn lemma_script_or_program(
    task: Seq<char>,
    extra_args: Seq<Seq<char>>,
    script: Option<Seq<char>>,
    search_path: Seq<char>,
)
    ensures
        script is None ==> run_invocation(task, extra_args, script, search_path).program == task
            && run_invocation(task, extra_args, script, search_path).args == extra_args,
        script matches Some(s) ==> run_invocation(task, extra_args, script, search_path).program == "sh"@
            && run_invocation(task, extra_args, script, search_path).args.len() == 2
            && run_invocation(task, extra_args, script, search_path).args[1] == script_line(s, extra_args),
        run_invocation(task, extra_args, script, search_path).extra_path == Some(search_path),
{
}

/// The search path for executables of a project whose manifest is in `dir`.
pub fn construct_path_env(dir: &DirPath) -> (r: String)
    ensures
        r@ == path_env(dir@),
{
    let mut s = String::new();
    let mut k: usize = dir.parts.len();
    assert(dir@.subrange(0, k as int) =~= dir@);
    loop
        invariant
            k <= dir@.len(),
            s@ + path_env(dir@.subrange(0, k as int)) == path_env(dir@),
        decreases k,
    {
        let ghost before = s@;
        let ghost sub = dir@.subrange(0, k as int);
        s.append(dir.file_at(k, "node_modules/.bin").as_str());
        s.append(":");
        if k == 0 {
            assert(s@ =~= before + path_env(sub));
            return s;
        }
        proof {
            assert(sub.drop_last() =~= dir@.subrange(0, k - 1));
            assert(s@ + path_env(dir@.subrange(0, k - 1)) =~= before + path_env(sub));
        }
        k = k - 1;
    }
}

/// The plan of a `run` of `task`, given the manifest's script for it (if
/// any) and the search path.
pub fn plan_run(task: &str, extra_args: &[String], script: Option<String>, search_path: String) -> (r: RunPlan)
    ensures
        plans(r, task@, texts(extra_args@), text::opt_view(script), search_path@),
{
    let mut echo = String::new();
    echo.append("$ ");
    match script {
        Some(s) => {
            let mut line = s;
            if extra_args.len() > 0 {
                line.append(" ");
                line.append(text::join_strings(extra_args, " ").as_str());
            }
            echo.append(line.as_str());
            let mut args: Vec<String> = Vec::new();
            args.push("-c".to_owned());
            args.push(line);
            let r = RunPlan {
                echo,
                invocation: Invocation {
                    program: "sh".to_owned(),
                    args,
                    extra_path: Some(search_path),
                    verbose: false,
                    silence_stdout: false,
                },
            };
            assert(r.invocation@.args =~= seq!["-c"@, script_line(s@, texts(extra_args@))]);
            r
        },
        None => {
            echo.append(task);
            RunPlan {
                echo,
                invocation: Invocation {
                    program: task.to_owned(),
                    args: crate::execute::copy_strings(extra_args),
                    extra_path: Some(search_path),
                    verbose: false,
                    silence_stdout: false,
                },
            }
        },
    }
}

/// The manifest's script for the task: the string under the task's name in
/// `scripts`; `None` where there is no such member or it is not a string.
pub open spec fn script_entry(manifest: json::Json, task: Seq<char>) -> Option<Seq<char>> {
    match json::get(manifest, "scripts"@) {
        Some(scripts) => match json::get(scripts, task) {
            Some(entry) => json::text_of(entry),
            None => None,
        },
        None => None,
    }
}

/// What a `run` of `task` from `cwd` gives on the filesystem: no manifest
/// up to the root is `ManifestNotFound` naming `cwd`; the nearest manifest
/// unreadable or not JSON is `ManifestParse` naming it; else the plan of its
/// script for the task (or of the task as a program) with the search path of
/// the manifest's directory.
pub open spec fn run_outcome<F: Filesystem>(
    fs: &F,
    r: Result<RunPlan, CommandError>,
    task: Seq<char>,
    cwd: Seq<Seq<char>>,
    extra_args: Seq<Seq<char>>,
) -> bool {
    match fs::nearest_depth(fs, cwd, "package.json"@) {
        None => r matches Err(CommandError::ManifestNotFound { dir }) && dir@ == fs::dir_text(cwd),
        Some(k) => {
            let path = fs::file_text(cwd.subrange(0, k), "package.json"@);
            let doc = match fs.read(path) {
                Some(text) => json::json_of(text),
                None => None,
            };
            match doc {
                None => r matches Err(CommandError::ManifestParse { path: p }) && p@ == path,
                Some(manifest) => r matches Ok(plan) && plans(
                    plan,
                    task,
                    extra_args,
                    script_entry(manifest, task),
                    path_env(cwd.subrange(0, k)),
                ),
            }
        },
    }
}

/// The text of the manifest's script for the task, where `scripts` holds a
/// string under that name.
pub fn load_script(manifest: &json::Json, task: &str) -> (r: Option<String>)
    ensures
        text::opt_view(r) == script_entry(*manifest, task@),
{
    match json::json_get(manifest, "scripts") {
        Some(scripts) => match json::json_get(scripts, task) {
            Some(entry) => match json::json_text(entry) {
                Some(s) => Some(s.to_owned()),
                None => None,
            },
            None => None,
        },
        None => None,
    }
}

/// Resolves a `run` of `task` from `cwd`: finds the nearest `package.json`,
/// reads it, and plans the task's script, or the task as a program where the
/// manifest has no script of that name, with the search path of the
/// manifest's directory.
pub fn run<F: Filesystem>(
    fs: &F,
    task: &str,
    cwd: &DirPath,
    extra_args: Option<&[String]>,
) -> (r: Result<RunPlan, CommandError>)
    ensures
        run_outcome(fs, r, task@, cwd@, extra_texts(extra_args)),
{
    let depth = fs::find_depth_in_parents(fs, cwd, "package.json");
    let k = match depth {
        Some(k) => k,
        None => {
            return Err(CommandError::ManifestNotFound { dir: cwd.to_text() });
        },
    };
    let path = cwd.file_at(k, "package.json");
    let contents = match fs.read_to_string(path.as_str()) {
        Ok(c) => c,
        Err(_) => {
            return Err(CommandError::ManifestParse { path });
        },
    };
    let manifest = match json::parse_json(contents.as_str()) {
        Ok(v) => v,
        Err(_) => {
            return Err(CommandError::ManifestParse { path });
        },
    };
    let script = load_script(&manifest, task);
    let search_path = construct_path_env(&cwd.ancestor(k));
    let empty: Vec<String> = Vec::new();
    let extra: &[String] = match extra_args {
        Some(a) => a,
        None => empty.as_slice(),
    };
    assert(texts(extra@) =~= extra_texts(extra_args));
    let plan = plan_run(task, extra, script, search_path);
    Ok(plan)
}

} // verus!
