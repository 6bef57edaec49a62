//! What a task's process is started as.
use vstd::prelude::*;

use crate::ids::TaskId;
use crate::protocol::{copy_env, EnvMap, PolicyDecision, RunSpec};

verus! {

/// A process to start.
#[derive(Debug)]
pub struct SandboxCommand {
    pub program: String,
    pub args: Vec<String>,
    pub cwd: String,
    pub env: EnvMap,
    pub kill_process_group: bool,
}

/// What is left to clean up after a task.
#[derive(Clone, Debug)]
pub struct SandboxHandle {
    pub task_id: TaskId,
}

/// Why no process can be started.
#[derive(Debug)]
pub enum SandboxError {
    EmptyCommand,
}

impl SandboxError {
    /// The error in words.
    pub fn message(&self) -> (r: String)
        ensures
            r@ == "run spec argv cannot be empty"@,
    {
        "run spec argv cannot be empty".to_owned()
    }
}

/// Who turns a run into a process.
pub trait SandboxBackend: Send + Sync {
    /// Whether a run becomes this process, or none for this reason.
    spec fn prepares(
        &self,
        spec: RunSpec,
        decision: PolicyDecision,
        r: Result<SandboxCommand, SandboxError>,
    ) -> bool;

    /// The process of a run.
    fn prepare(&self, spec: &RunSpec, decision: &PolicyDecision) -> (r: Result<
        SandboxCommand,
        SandboxError,
    >)
        ensures
            self.prepares(*spec, *decision, r),
    ;

    /// Cleans up after a task.
    fn cleanup(&self, handle: &SandboxHandle) -> (r: Result<(), SandboxError>);
}

/// Whether a process is that of a run without a sandbox: the command itself, in its directory and
/// environment, in a process group of its own.
pub open spec fn is_plain_process(spec: RunSpec, command: SandboxCommand) -> bool {
    &&& spec.argv@.len() > 0
    &&& command.program == spec.argv@[0]
    &&& command.args@ == spec.argv@.skip(1)
    &&& command.cwd == spec.cwd
    &&& command.env@ == spec.env@
    &&& command.kill_process_group
}

/// No sandbox.
#[derive(Clone, Debug)]
pub struct NoneSandbox;

impl Default for NoneSandbox {
    fn default() -> Self {
        NoneSandbox
    }
}

impl SandboxBackend for NoneSandbox {
    open spec fn prepares(
        &self,
        spec: RunSpec,
        decision: PolicyDecision,
        r: Result<SandboxCommand, SandboxError>,
    ) -> bool {
        match r {
            Ok(command) => is_plain_process(spec, command),
            Err(e) => spec.argv@.len() == 0 && e == SandboxError::EmptyCommand,
        }
    }

    fn prepare(&self, spec: &RunSpec, _decision: &PolicyDecision) -> (r: Result<
        SandboxCommand,
        SandboxError,
    >) {
        if spec.argv.len() == 0 {
            return Err(SandboxError::EmptyCommand);
        }
        let mut args: Vec<String> = Vec::new();
        for i in 1..spec.argv.len()
            invariant
                args@ == spec.argv@.subrange(1, i as int),
                1 <= i <= spec.argv@.len(),
        {
            args.push(spec.argv[i].clone());
            proof {
                assert(spec.argv@.subrange(1, i + 1) =~= spec.argv@.subrange(1, i as int).push(
                    spec.argv@[i as int],
                ));
            }
        }
        proof {
            assert(spec.argv@.subrange(1, spec.argv@.len() as int) =~= spec.argv@.skip(1));
        }
        Ok(
            SandboxCommand {
                program: spec.argv[0].clone(),
                args,
                cwd: spec.cwd.clone(),
                env: copy_env(&spec.env),
                kill_process_group: true,
            },
        )
    }

    fn cleanup(&self, _handle: &SandboxHandle) -> (r: Result<(), SandboxError>)
        ensures
            r is Ok,
    {
        Ok(())
    }
}

/// Without a sandbox a run becomes its own first word with the others as arguments, in its own
/// directory and environment and in a process group of its own; a run without words becomes none.
pub proof fn law_plain_process_is_the_command(
    sandbox: NoneSandbox,
    spec: RunSpec,
    decision: PolicyDecision,
    r: Result<SandboxCommand, SandboxError>,
)
    requires
        sandbox.prepares(spec, decision, r),
    ensures
        r is Ok <==> spec.argv@.len() > 0,
        r matches Ok(command) ==> {
            &&& command.program@ == spec.argv@[0]@
            &&& command.args@.len() + 1 == spec.argv@.len()
            &&& forall|i: int|
                0 <= i < command.args@.len() ==> #[trigger] command.args@[i] == spec.argv@[i + 1]
            &&& command.cwd@ == spec.cwd@
            &&& command.env@ == spec.env@
            &&& command.kill_process_group
        },
{
}

} // verus!
