//! Planning of `add`, in each agent's own words.
use vstd::prelude::*;
use crate::agent::Agent;
use crate::error::CommandError;
use crate::execute::{Invocation, InvocationView};
use crate::text::texts;

verus! {

/// The agent's executable.
pub open spec fn program_of(agent: Agent) -> Seq<char> {
    match agent {
        Agent::Npm => "npm"@,
        Agent::Yarn => "yarn"@,
        Agent::Pnpm => "pnpm"@,
        Agent::Bun => "bun"@,
    }
}

/// The sub-command that adds dependencies.
pub open spec fn add_command(agent: Agent) -> Seq<char> {
    if agent is Npm {
        "install"@
    } else {
        "add"@
    }
}

/// The flag that makes them development dependencies.
pub open spec fn dev_flag(agent: Agent) -> Seq<char> {
    if agent is Npm {
        "--save-dev"@
    } else {
        "-D"@
    }
}

/// The flag that adds them to the workspace root, where the agent has one
/// that is passed (npm needs none; Bun has none).
pub open spec fn workspace_flag(agent: Agent) -> Option<Seq<char>> {
    match agent {
        Agent::Yarn => Some("-W"@),
        Agent::Pnpm => Some("-w"@),
        _ => None,
    }
}

/// The arguments of an `add`: sub-command, dev flag, workspace flag, packages.
pub open spec fn add_args(agent: Agent, dev: bool, workspace_root: bool, packages: Seq<Seq<char>>) -> Seq<Seq<char>> {
    seq![add_command(agent)] + (if dev {
        seq![dev_flag(agent)]
    } else {
        seq![]
    }) + (if workspace_root && workspace_flag(agent) is Some {
        seq![workspace_flag(agent)->0]
    } else {
        seq![]
    }) + packages
}

/// The invocation that adds the packages.
pub open spec fn add_invocation(
    agent: Agent,
    dev: bool,
    workspace_root: bool,
    packages: Seq<Seq<char>>,
    silence_stdout: bool,
) -> InvocationView {
    InvocationView {
        program: program_of(agent),
        args: add_args(agent, dev, workspace_root, packages),
        extra_path: None,
        verbose: true,
        silence_stdout,
    }
}

/// The agent's executable.
pub fn program_name(agent: &Agent) -> (r: &'static str)
    ensures
        r@ == program_of(*agent),
{
    match agent {
        Agent::Npm => "npm",
        Agent::Yarn => "yarn",
        Agent::Pnpm => "pnpm",
        Agent::Bun => "bun",
    }
}

/// The invocation that adds `packages` as dependencies of the project
/// (development ones where `dev`; to the workspace root where
/// `workspace_root`), echoing its command line. Fails, before anything is
/// started, exactly for Bun asked for the workspace root.
pub fn add(
    agent: &Agent,
    dev: bool,
    workspace_root: bool,
    packages: &[String],
    silence_stdout: bool,
) -> (r: Result<Invocation, CommandError>)
    ensures
        r is Err <==> *agent is Bun && workspace_root,
        r matches Err(e) ==> e matches CommandError::UnsupportedFlag { agent: a, flag } && a is Bun
            && flag@ == "workspace_root"@,
        r matches Ok(inv) ==> inv@ == add_invocation(
            *agent,
            dev,
            workspace_root,
            texts(packages@),
            silence_stdout,
        ),
{
    if workspace_root {
        if let Agent::Bun = agent {
            return Err(CommandError::UnsupportedFlag { agent: Agent::Bun, flag: "workspace_root".to_owned() });
        }
    }
    let mut args: Vec<String> = Vec::new();
    let base = match agent {
        Agent::Npm => "install",
        _ => "add",
    };
    args.push(base.to_owned());
    if dev {
        let flag = match agent {
            Agent::Npm => "--save-dev",
            _ => "-D",
        };
        args.push(flag.to_owned());
    }
    if workspace_root {
        match agent {
            Agent::Yarn => args.push("-W".to_owned()),
            Agent::Pnpm => args.push("-w".to_owned()),
            _ => {},
        }
    }
    let ghost head = texts(args@);
    let ghost n0 = args@.len();
    let mut i: usize = 0;
    while i < packages.len()
        invariant
            i <= packages@.len(),
            args@.len() == n0 + i,
            n0 == head.len(),
            forall|j: int| 0 <= j < n0 ==> (#[trigger] args@[j])@ == head[j],
            forall|j: int| 0 <= j < i ==> (#[trigger] args@[n0 + j])@ == packages@[j]@,
        decreases packages.len() - i,
    {
        args.push(packages[i].clone());
        i = i + 1;
    }
    proof {
        let want = add_args(*agent, dev, workspace_root, texts(packages@));
        assert(want =~= head + texts(packages@));
        assert forall|j: int| 0 <= j < args@.len() implies (#[trigger] texts(args@)[j]) == want[j] by {
            if j >= n0 {
                assert(args@[n0 + (j - n0)]@ == packages@[j - n0]@);
            }
        }
        assert(texts(args@) =~= want);
    }
    Ok(Invocation {
        program: program_name(agent).to_owned(),
        args,
        extra_path: None,
        verbose: true,
        silence_stdout,
    })
}

} // verus!
