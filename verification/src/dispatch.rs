//! Running a command for a caller: the caller's role is held against the
//! capability that the command demands before the handler sees anything.

use vstd::prelude::*;

use crate::authz::{grants, Capability, Role};
use crate::json::{Json, JsonView};
use crate::powershell::{ShellOutput, ShellOutputView};
use crate::registry::{
    CommandContext, CommandError, CommandErrorView, CommandHandler, ContextView, Step, StepView,
};

verus! {

/// Why a dispatched command did not give a result.
#[derive(Debug)]
pub enum DispatchError {
    /// The caller's role lacks the capability that the command demands.
    Forbidden { role: Role, capability: Capability, command: &'static str },
    /// The command ran and did not give a result.
    Command(CommandError),
}

#[verifier::ext_equal]
pub enum DispatchErrorView {
    Forbidden { role: Role, capability: Capability, command: Seq<char> },
    Command(CommandErrorView),
}

impl View for DispatchError {
    type V = DispatchErrorView;

    open spec fn view(&self) -> DispatchErrorView {
        match self {
            DispatchError::Forbidden { role, capability, command } => {
                DispatchErrorView::Forbidden {
                    role: *role,
                    capability: *capability,
                    command: command@,
                }
            },
            DispatchError::Command(error) => DispatchErrorView::Command(error@),
        }
    }
}

/// What a caller gets of a command that would give them `result`.
pub open spec fn gated<H: CommandHandler, T>(
    handler: H,
    role: Role,
    result: Result<T, CommandErrorView>,
) -> Result<T, DispatchErrorView> {
    if !grants(role, handler.spec_capability()) {
        Err(
            DispatchErrorView::Forbidden {
                role,
                capability: handler.spec_capability(),
                command: handler.spec_name(),
            },
        )
    } else {
        match result {
            Ok(value) => Ok(value),
            Err(error) => Err(DispatchErrorView::Command(error)),
        }
    }
}

/// The view of a dispatched command's first half.
pub open spec fn begun(r: Result<Step, DispatchError>) -> Result<StepView, DispatchErrorView> {
    match r {
        Ok(step) => Ok(step@),
        Err(error) => Err(error@),
    }
}

/// The view of a dispatched command's end.
pub open spec fn finished(r: Result<Json, DispatchError>) -> Result<JsonView, DispatchErrorView> {
    match r {
        Ok(document) => Ok(document@),
        Err(error) => Err(error@),
    }
}

fn forbidden<H: CommandHandler>(handler: &H, role: Role) -> (r: Option<DispatchError>)
    ensures
        match r {
            Some(error) => !grants(role, handler.spec_capability()) && error@ == (
            DispatchErrorView::Forbidden {
                role,
                capability: handler.spec_capability(),
                command: handler.spec_name(),
            }),
            None => grants(role, handler.spec_capability()),
        },
{
    let capability = handler.required_capability();
    if role.has(capability) {
        None
    } else {
        Some(DispatchError::Forbidden { role, capability, command: handler.name() })
    }
}

/// Hold the caller's role against the command, then check the parameters and say
/// what to run.
pub fn begin<H: CommandHandler>(handler: &H, role: Role, ctx: &CommandContext) -> (r: Result<
    Step,
    DispatchError,
>)
    ensures
        begun(r) == gated(*handler, role, handler.step(ctx@)),
{
    match forbidden(handler, role) {
        Some(error) => Err(error),
        None => match handler.prepare(ctx) {
            Ok(step) => Ok(step),
            Err(error) => Err(DispatchError::Command(error)),
        },
    }
}

/// Hold the caller's role against the command, then give the end of the command
/// for what the shell answered.
pub fn finish<H: CommandHandler>(
    handler: &H,
    role: Role,
    ctx: &CommandContext,
    answer: &ShellOutput,
) -> (r: Result<Json, DispatchError>)
    ensures
        finished(r) == gated(*handler, role, handler.outcome(ctx@, answer@)),
{
    match forbidden(handler, role) {
        Some(error) => Err(error),
        None => match handler.execute(ctx, answer) {
            Ok(document) => Ok(document),
            Err(error) => Err(DispatchError::Command(error)),
        },
    }
}

/// A guest gets something to run only out of commands that observe: every other
/// command is forbidden to them, whatever the parameters and whatever the shell
/// would have answered.
pub proof fn guests_only_observe<H: CommandHandler>(
    handler: H,
    ctx: ContextView,
    answer: ShellOutputView,
)
    ensures
        handler.spec_capability() != Capability::VmRead ==> {
            &&& gated(handler, Role::Guest, handler.step(ctx)) == Err::<StepView, _>(
                DispatchErrorView::Forbidden {
                    role: Role::Guest,
                    capability: handler.spec_capability(),
                    command: handler.spec_name(),
                },
            )
            &&& gated(handler, Role::Guest, handler.outcome(ctx, answer)) == Err::<JsonView, _>(
                DispatchErrorView::Forbidden {
                    role: Role::Guest,
                    capability: handler.spec_capability(),
                    command: handler.spec_name(),
                },
            )
        },
{
}

/// No role but an operator's gets a command to run that runs anything at all.
pub proof fn arbitrary_execution_is_for_operators<H: CommandHandler>(
    handler: H,
    role: Role,
    ctx: ContextView,
)
    ensures
        handler.spec_capability() == Capability::VmExecArbitrary && gated(
            handler,
            role,
            handler.step(ctx),
        ) is Ok ==> role == Role::Operator,
{
}

/// A command that was refused before the shell ran, for the caller's role or for
/// its parameters, ends with that same refusal whatever the shell would have
/// answered.
pub proof fn refusal_is_final<H: CommandHandler>(
    handler: H,
    role: Role,
    ctx: ContextView,
    answer: ShellOutputView,
)
    ensures
        gated(handler, role, handler.step(ctx)) matches Err(error) ==> gated(
            handler,
            role,
            handler.outcome(ctx, answer),
        ) == Err::<JsonView, _>(error),
{
    handler.refusal_stands(ctx, answer);
}

} // verus!
