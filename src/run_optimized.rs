//! Flattening of scripts that only chain `<manager> run <task>` steps.
use vstd::prelude::*;
use crate::agent::Agent;
use crate::text;

verus! {

/// The prefix with which a script invokes the agent's own `run` sub-command.
pub open spec fn run_prefix(agent: Agent) -> Seq<char> {
    match agent {
        Agent::Npm => "npm run "@,
        Agent::Yarn => "yarn run "@,
        Agent::Pnpm => "pnpm run "@,
        Agent::Bun => "bun run "@,
    }
}

/// The flag whose presence keeps a step as it is, so that its fan-out is kept.
pub open spec fn fan_out_flag(agent: Agent) -> Option<Seq<char>> {
    match agent {
        Agent::Npm => Some("--workspaces"@),
        Agent::Pnpm => Some("--filter"@),
        _ => None,
    }
}

/// The direct command for one trimmed step, or `None` where the step is not a
/// nested `run` of the same agent (Bun steps never are).
pub open spec fn direct_step(agent: Agent, step: Seq<char>) -> Option<Seq<char>> {
    let prefix = run_prefix(agent);
    if agent is Bun || !text::starts_with(step, prefix) {
        None
    } else if fan_out_flag(agent) matches Some(flag) && text::contains(step, flag) {
        Some(step)
    } else {
        Some(text::trim(step.subrange(prefix.len() as int, step.len() as int)))
    }
}

/// The trimmed steps of a script chained with `&&`.
pub open spec fn steps(script: Seq<char>) -> Seq<Seq<char>> {
    text::split(script, "&&"@).map_values(|c: Seq<char>| text::trim(c))
}

/// Whether every step of the script has a direct command.
pub open spec fn all_direct(agent: Agent, script: Seq<char>) -> bool {
    forall|i: int| 0 <= i < steps(script).len() ==> (#[trigger] direct_step(agent, steps(script)[i])) is Some
}

/// The agent's `run` prefix.
fn run_prefix_text(agent: &Agent) -> (r: &'static str)
    ensures
        r@ == run_prefix(*agent),
{
    match agent {
        Agent::Npm => "npm run ",
        Agent::Yarn => "yarn run ",
        Agent::Pnpm => "pnpm run ",
        Agent::Bun => "bun run ",
    }
}

/// The agent's fan-out flag, if it has one.
fn fan_out_flag_text(agent: &Agent) -> (r: Option<&'static str>)
    ensures
        r matches Some(f) ==> fan_out_flag(*agent) == Some(f@),
        r is None ==> fan_out_flag(*agent) is None,
{
    match agent {
        Agent::Npm => Some("--workspaces"),
        Agent::Pnpm => Some("--filter"),
        _ => None,
    }
}

/// The direct command for one trimmed step of a script.
pub fn optimize_script<'a>(agent: &Agent, script: &'a str) -> (r: Option<&'a str>)
    ensures
        r matches Some(s) ==> direct_step(*agent, script@) == Some(s@),
        r is None ==> direct_step(*agent, script@) is None,
{
    if let Agent::Bun = agent {
        return None;
    }
    let prefix = run_prefix_text(agent);
    if !text::text_starts_with(script, prefix) {
        return None;
    }
    if let Some(flag) = fan_out_flag_text(agent) {
        if text::text_contains(script, flag) {
            return Some(script);
        }
    }
    let rest = script.substring_char(prefix.unicode_len(), script.unicode_len());
    Some(text::text_trim(rest))
}

/// The direct commands of a script whose every `&&`-step runs a task of the
/// same agent, in order; `None` as soon as one step does not.
pub fn try_optimize_script_execution<'a>(agent: &'a Agent, script: &'a str) -> (r: Option<
    Vec<&'a str>,
>)
    ensures
        r is Some <==> all_direct(*agent, script@),
        r matches Some(v) ==> v@.len() == steps(script@).len() && forall|i: int|
            0 <= i < v@.len() ==> direct_step(*agent, steps(script@)[i]) == Some(
                (#[trigger] v@[i])@,
            ),
{
    proof {
        reveal_strlit("&&");
    }
    let chunks = text::text_split(script, "&&");
    let mut out: Vec<&'a str> = Vec::new();
    let mut i: usize = 0;
    while i < chunks.len()
        invariant
            chunks@.len() == text::split(script@, "&&"@).len(),
            forall|k: int| 0 <= k < chunks@.len() ==> (#[trigger] chunks@[k])@ == text::split(script@, "&&"@)[k],
            i <= chunks@.len(),
            out@.len() == i,
            forall|k: int| 0 <= k < i ==> direct_step(*agent, steps(script@)[k]) == Some(
                (#[trigger] out@[k])@,
            ),
        decreases chunks.len() - i,
    {
        let step = text::text_trim(chunks[i]);
        match optimize_script(agent, step) {
            Some(direct) => {
                out.push(direct);
            },
            None => {
                assert(!(direct_step(*agent, steps(script@)[i as int]) is Some));
                return None;
            },
        }
        i = i + 1;
    }
    assert(all_direct(*agent, script@)) by {
        assert forall|k: int| 0 <= k < steps(script@).len() implies (#[trigger] direct_step(*agent, steps(script@)[k])) is Some by {
            assert(direct_step(*agent, steps(script@)[k]) == Some(out@[k]@));
        }
    }
    Some(out)
}

} // verus!
