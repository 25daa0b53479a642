//! Planning of `install`.
use vstd::prelude::*;
use crate::add::{program_name, program_of};
use crate::agent::Agent;
use crate::execute::{Invocation, InvocationView};

verus! {

/// The invocation of the agent's `install`, echoed, output shown.
pub open spec fn install_invocation(agent: Agent) -> InvocationView {
    InvocationView {
        program: program_of(agent),
        args: seq!["install"@],
        extra_path: None,
        verbose: true,
        silence_stdout: false,
    }
}

/// The invocation that installs the project's dependencies.
pub fn install(agent: &Agent) -> (r: Invocation)
    ensures
        r@ == install_invocation(*agent),
{
    let mut args: Vec<String> = Vec::new();
    args.push("install".to_owned());
    let r = Invocation {
        program: program_name(agent).to_owned(),
        args,
        extra_path: None,
        verbose: true,
        silence_stdout: false,
    };
    assert(r@.args =~= seq!["install"@]);
    r
}

} // verus!
