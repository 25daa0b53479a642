//! The command-line grammar: `install`, `run <task> [args...]`,
//! `add <packages...> [-d] [-w]`, and a bare task name as a `run`.
use vstd::prelude::*;
use crate::text;
use crate::text::texts;

verus! {

/// A parsed command line; no command means `install`.
#[derive(Debug, Clone, PartialEq, Eq)]
pub struct Cli {
    pub command: Option<Commands>,
}

/// The commands.
#[derive(Debug, Clone, PartialEq, Eq)]
pub enum Commands {
    /// Install dependencies.
    Install,
    /// Run a `package.json` task, or a program, with extra arguments passed on verbatim.
    Run { task: String, extra_args: Vec<String> },
    /// Add dependencies.
    Add { packages: Vec<String>, dev: bool, workspace_root: bool },
}

/// Why a command line gives no command.
#[derive(Debug, Clone, Copy, PartialEq, Eq, Structural)]
pub enum CliError {
    /// Help was asked for.
    Help,
    /// The version was asked for.
    Version,
    /// The command line does not follow the grammar.
    Usage,
}

/// The mathematical content of [`Commands`].
pub enum CommandView {
    Install,
    Run { task: Seq<char>, extra_args: Seq<Seq<char>> },
    Add { packages: Seq<Seq<char>>, dev: bool, workspace_root: bool },
}

impl View for Commands {
    type V = CommandView;

    open spec fn view(&self) -> CommandView {
        match self {
            Commands::Install => CommandView::Install,
            Commands::Run { task, extra_args } => CommandView::Run {
                task: task@,
                extra_args: texts(extra_args@),
            },
            Commands::Add { packages, dev, workspace_root } => CommandView::Add {
                packages: texts(packages@),
                dev: *dev,
                workspace_root: *workspace_root,
            },
        }
    }
}

/// The content of a parse result.
pub open spec fn parsed_view(r: Result<Cli, CliError>) -> Result<Option<CommandView>, CliError> {
    match r {
        Ok(cli) => Ok(
            match cli.command {
                Some(c) => Some(c@),
                None => None,
            },
        ),
        Err(e) => Err(e),
    }
}

/// The help options.
pub open spec fn is_help(a: Seq<char>) -> bool {
    a == "-h"@ || a == "--help"@
}

/// The version options.
pub open spec fn is_version(a: Seq<char>) -> bool {
    a == "-V"@ || a == "--version"@
}

/// The options that make added packages development dependencies.
pub open spec fn is_dev_flag(a: Seq<char>) -> bool {
    a == "-d"@ || a == "--dev"@ || a == "--save-dev"@ || a == "-D"@
}

/// The options that add packages to the workspace root.
pub open spec fn is_workspace_flag(a: Seq<char>) -> bool {
    a == "-w"@ || a == "--workspace-root"@ || a == "-W"@
}

/// A letter of a short option that `add` takes.
pub open spec fn is_add_letter(c: char) -> bool {
    c == 'd' || c == 'D' || c == 'w' || c == 'W'
}

/// Several short options of `add` behind one dash, such as `-dw`.
pub open spec fn is_cluster(a: Seq<char>) -> bool {
    a.len() > 2 && a[0] == '-' && forall|i: int| 1 <= i < a.len() ==> is_add_letter(#[trigger] a[i])
}

/// The cluster holds the development option.
pub open spec fn cluster_dev(a: Seq<char>) -> bool {
    exists|i: int| 1 <= i < a.len() && (#[trigger] a[i] == 'd' || a[i] == 'D')
}

/// The cluster holds the workspace-root option.
pub open spec fn cluster_workspace(a: Seq<char>) -> bool {
    exists|i: int| 1 <= i < a.len() && (#[trigger] a[i] == 'w' || a[i] == 'W')
}

/// A word that reads as an option: a dash and more (a lone `-` is a value).
pub open spec fn is_option(a: Seq<char>) -> bool {
    a.len() > 1 && text::starts_with(a, "-"@)
}

/// The words after `install`.
pub open spec fn parse_install(rest: Seq<Seq<char>>) -> Result<Option<CommandView>, CliError> {
    if rest.len() == 0 {
        Ok(Some(CommandView::Install))
    } else if is_help(rest[0]) {
        Err(CliError::Help)
    } else {
        Err(CliError::Usage)
    }
}

/// The words after `run`: the task, then everything else verbatim.
pub open spec fn parse_run(rest: Seq<Seq<char>>) -> Result<Option<CommandView>, CliError> {
    if rest.len() == 0 {
        Err(CliError::Usage)
    } else if is_help(rest[0]) {
        Err(CliError::Help)
    } else if rest[0] == "--"@ {
        if rest.len() == 1 {
            Err(CliError::Usage)
        } else {
            Ok(Some(CommandView::Run { task: rest[1], extra_args: rest.subrange(2, rest.len() as int) }))
        }
    } else if is_option(rest[0]) {
        Err(CliError::Usage)
    } else {
        Ok(Some(CommandView::Run { task: rest[0], extra_args: rest.subrange(1, rest.len() as int) }))
    }
}

/// The words after `add`, from word `i` on, with what was read before it:
/// options anywhere before a `--`, packages in order, at least one package.
pub open spec fn scan_add(
    words: Seq<Seq<char>>,
    i: int,
    dev: bool,
    workspace_root: bool,
    packages: Seq<Seq<char>>,
    escaped: bool,
) -> Result<Option<CommandView>, CliError>
    decreases words.len() - i,
{
    if i < 0 || i >= words.len() {
        if packages.len() == 0 {
            Err(CliError::Usage)
        } else {
            Ok(Some(CommandView::Add { packages, dev, workspace_root }))
        }
    } else {
        let w = words[i];
        if escaped || !is_option(w) {
            scan_add(words, i + 1, dev, workspace_root, packages.push(w), escaped)
        } else if w == "--"@ {
            scan_add(words, i + 1, dev, workspace_root, packages, true)
        } else if is_help(w) {
            Err(CliError::Help)
        } else if is_dev_flag(w) {
            scan_add(words, i + 1, true, workspace_root, packages, escaped)
        } else if is_workspace_flag(w) {
            scan_add(words, i + 1, dev, true, packages, escaped)
        } else if is_cluster(w) {
            scan_add(words, i + 1, dev || cluster_dev(w), workspace_root || cluster_workspace(w), packages, escaped)
        } else {
            Err(CliError::Usage)
        }
    }
}

/// The command of a command line whose first word is the program.
pub open spec fn parse_args(args: Seq<Seq<char>>) -> Result<Option<CommandView>, CliError> {
    if args.len() <= 1 {
        Ok(None)
    } else {
        let a = args[1];
        let rest = args.subrange(2, args.len() as int);
        if a == "install"@ || a == "i"@ {
            parse_install(rest)
        } else if a == "run"@ || a == "r"@ {
            parse_run(rest)
        } else if a == "add"@ || a == "a"@ {
            scan_add(rest, 0, false, false, seq![], false)
        } else if text::starts_with(a, "-"@) {
            if is_help(a) {
                Err(CliError::Help)
            } else if is_version(a) {
                Err(CliError::Version)
            } else {
                Err(CliError::Usage)
            }
        } else {
            Ok(Some(CommandView::Run { task: a, extra_args: rest }))
        }
    }
}

/// Whether the word asks for help.
fn help_word(a: &str) -> (r: bool)
    ensures
        r == is_help(a@),
{
    text::same_text(a, "-h") || text::same_text(a, "--help")
}

/// The options of a cluster such as `-dw`: whether it holds the development
/// and the workspace-root option; `None` where the word is no such cluster.
fn cluster_word(a: &str) -> (r: Option<(bool, bool)>)
    ensures
        r is Some <==> is_cluster(a@),
        r matches Some(flags) ==> flags.0 == cluster_dev(a@) && flags.1 == cluster_workspace(a@),
{
    let v = text::char_vec(a);
    if v.len() <= 2 || v[0] != '-' {
        return None;
    }
    let mut dev = false;
    let mut workspace_root = false;
    let mut i: usize = 1;
    while i < v.len()
        invariant
            v@ == a@,
            1 <= i <= v@.len(),
            v@.len() > 2,
            v@[0] == '-',
            forall|j: int| 1 <= j < i ==> is_add_letter(#[trigger] v@[j]),
            dev <==> exists|j: int| 1 <= j < i && (#[trigger] v@[j] == 'd' || v@[j] == 'D'),
            workspace_root <==> exists|j: int| 1 <= j < i && (#[trigger] v@[j] == 'w' || v@[j] == 'W'),
        decreases v.len() - i,
    {
        let c = v[i];
        if c == 'd' || c == 'D' {
            dev = true;
        } else if c == 'w' || c == 'W' {
            workspace_root = true;
        } else {
            assert(!is_add_letter(a@[i as int]));
            return None;
        }
        i = i + 1;
    }
    Some((dev, workspace_root))
}

/// Whether the word reads as an option.
fn option_word(a: &str) -> (r: bool)
    ensures
        r == is_option(a@),
{
    a.unicode_len() > 1 && text::text_starts_with(a, "-")
}

/// Copies of `args[from..]`.
fn tail(args: &Vec<String>, from: usize) -> (r: Vec<String>)
    requires
        from <= args@.len(),
    ensures
        texts(r@) == texts(args@).subrange(from as int, args@.len() as int),
{
    let mut r: Vec<String> = Vec::new();
    let mut i: usize = from;
    while i < args.len()
        invariant
            from <= i <= args@.len(),
            r@.len() == i - from,
            forall|j: int| 0 <= j < r@.len() ==> (#[trigger] r@[j])@ == args@[from + j]@,
        decreases args.len() - i,
    {
        r.push(args[i].clone());
        i = i + 1;
    }
    assert(texts(r@) =~= texts(args@).subrange(from as int, args@.len() as int));
    r
}

/// A `run` of the word at `task_at` with the words after it.
fn run_command(args: &Vec<String>, task_at: usize) -> (r: Cli)
    requires
        task_at < args@.len(),
    ensures
        r.command matches Some(c) && c@ == (CommandView::Run {
            task: args@[task_at as int]@,
            extra_args: texts(args@).subrange(task_at + 1, args@.len() as int),
        }),
{
    let n = args.len();
    let from = task_at + 1;
    assert(from <= n);
    Cli { command: Some(Commands::Run { task: args[task_at].clone(), extra_args: tail(args, from) }) }
}

/// The `add` command of a command line whose second word is `add`.
fn parse_add(args: &Vec<String>) -> (r: Result<Cli, CliError>)
    requires
        args@.len() >= 2,
    ensures
        parsed_view(r) == scan_add(texts(args@).subrange(2, args@.len() as int), 0, false, false, seq![], false),
{
    let ghost words = texts(args@).subrange(2, args@.len() as int);
    let mut dev = false;
    let mut workspace_root = false;
    let mut escaped = false;
    let mut packages: Vec<String> = Vec::new();
    let mut i: usize = 2;
    assert(texts(packages@) =~= Seq::<Seq<char>>::empty());
    while i < args.len()
        invariant
            2 <= i <= args@.len(),
            words == texts(args@).subrange(2, args@.len() as int),
            scan_add(words, 0, false, false, seq![], false) == scan_add(words, i - 2, dev, workspace_root, texts(packages@), escaped),
        decreases args.len() - i,
    {
        let w = args[i].as_str();
        assert(words[i - 2] == w@);
        if escaped || !option_word(w) {
            let ghost before = packages@;
            packages.push(args[i].clone());
            assert(texts(packages@) =~= texts(before).push(w@));
        } else if text::same_text(w, "--") {
            escaped = true;
        } else if help_word(w) {
            return Err(CliError::Help);
        } else if text::same_text(w, "-d") || text::same_text(w, "--dev") || text::same_text(w, "--save-dev")
            || text::same_text(w, "-D") {
            dev = true;
        } else if text::same_text(w, "-w") || text::same_text(w, "--workspace-root") || text::same_text(w, "-W") {
            workspace_root = true;
        } else {
            match cluster_word(w) {
                Some(flags) => {
                    dev = dev || flags.0;
                    workspace_root = workspace_root || flags.1;
                },
                None => {
                    return Err(CliError::Usage);
                },
            }
        }
        i = i + 1;
    }
    if packages.len() == 0 {
        return Err(CliError::Usage);
    }
    Ok(Cli { command: Some(Commands::Add { packages, dev, workspace_root }) })
}

/// The command of a command line whose first word is the program. A first
/// word that is neither a command (`install`/`i`, `run`/`r`, `add`/`a`) nor
/// an option is a task to run, with the remaining words as its arguments.
pub fn parse_from(args: Vec<String>) -> (r: Result<Cli, CliError>)
    ensures
        parsed_view(r) == parse_args(texts(args@)),
{
    if args.len() <= 1 {
        return Ok(Cli { command: None });
    }
    let ghost all = texts(args@);
    let ghost rest = all.subrange(2, all.len() as int);
    let a = args[1].as_str();
    assert(all[1] == a@);
    if text::same_text(a, "install") || text::same_text(a, "i") {
        if args.len() == 2 {
            return Ok(Cli { command: Some(Commands::Install) });
        }
        assert(rest[0] == args@[2]@);
        if help_word(args[2].as_str()) {
            return Err(CliError::Help);
        }
        return Err(CliError::Usage);
    }
    if text::same_text(a, "run") || text::same_text(a, "r") {
        if args.len() == 2 {
            return Err(CliError::Usage);
        }
        let t = args[2].as_str();
        assert(rest[0] == t@);
        if help_word(t) {
            return Err(CliError::Help);
        }
        if text::same_text(t, "--") {
            if args.len() == 3 {
                return Err(CliError::Usage);
            }
            let r = run_command(&args, 3);
            assert(rest.subrange(2, rest.len() as int) =~= all.subrange(4, all.len() as int));
            return Ok(r);
        }
        if option_word(t) {
            return Err(CliError::Usage);
        }
        let r = run_command(&args, 2);
        assert(rest.subrange(1, rest.len() as int) =~= all.subrange(3, all.len() as int));
        return Ok(r);
    }
    if text::same_text(a, "add") || text::same_text(a, "a") {
        return parse_add(&args);
    }
    if text::text_starts_with(a, "-") {
        if help_word(a) {
            return Err(CliError::Help);
        }
        if text::same_text(a, "-V") || text::same_text(a, "--version") {
            return Err(CliError::Version);
        }
        return Err(CliError::Usage);
    }
    Ok(run_command(&args, 1))
}

} // verus!
