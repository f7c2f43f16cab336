//! Commands and what they are given: parameters, errors, and the contract that
//! every command handler keeps.

use vstd::hash_map::StringHashMap;
use vstd::prelude::*;

use crate::authz::Capability;
use crate::commands::dns::{records_view, PlannedDnsRecord, PlannedDnsRecordView};
use crate::json::{Json, JsonView};
use crate::powershell::{
    PowerShellError, PowerShellErrorView, ShellCall, ShellCallView, ShellOutput, ShellOutputView,
};

verus! {

/// Why a command did not give a result.
#[derive(Debug)]
pub enum CommandError {
    /// A parameter that the command cannot do without was not given.
    MissingParam(String),
    /// A parameter has a value that the command does not take.
    InvalidParam { name: String, reason: String },
    /// The shell did not do what it was asked.
    Shell(PowerShellError),
}

#[verifier::ext_equal]
pub enum CommandErrorView {
    MissingParam(Seq<char>),
    InvalidParam { name: Seq<char>, reason: Seq<char> },
    Shell(PowerShellErrorView),
}

impl View for CommandError {
    type V = CommandErrorView;

    open spec fn view(&self) -> CommandErrorView {
        match self {
            CommandError::MissingParam(name) => CommandErrorView::MissingParam(name@),
            CommandError::InvalidParam { name, reason } => CommandErrorView::InvalidParam {
                name: name@,
                reason: reason@,
            },
            CommandError::Shell(error) => CommandErrorView::Shell(error@),
        }
    }
}

/// The parameters of a command, by name.
pub struct Params {
    values: StringHashMap<String>,
}

impl View for Params {
    type V = Map<Seq<char>, Seq<char>>;

    closed spec fn view(&self) -> Map<Seq<char>, Seq<char>> {
        self.values@.map_values(|value: String| value@)
    }
}

impl Params {
    /// No parameters.
    pub fn new() -> (r: Params)
        ensures
            r@ == Map::<Seq<char>, Seq<char>>::empty(),
    {
        let r = Params { values: StringHashMap::new() };
        assert(r@ =~= Map::<Seq<char>, Seq<char>>::empty());
        r
    }

    /// Give the parameter `name` a value, in place of any it had.
    pub fn insert(&mut self, name: String, value: String)
        ensures
            final(self)@ == old(self)@.insert(name@, value@),
    {
        self.values.insert(name, value);
        assert(self@ =~= old(self)@.insert(name@, value@));
    }

    /// The value of the parameter `name`.
    pub fn get(&self, name: &str) -> (r: Option<&str>)
        ensures
            match r {
                Some(value) => self@.contains_key(name@) && value@ == self@[name@],
                None => !self@.contains_key(name@),
            },
    {
        match self.values.get(name) {
            Some(value) => Some(value.as_str()),
            None => None,
        }
    }
}

/// What a command is run with.
pub struct CommandContext {
    pub params: Params,
    /// The parameter `records` as a list of DNS resources; `None` where it is
    /// not given or does not decode as a JSON array of them.
    pub records: Option<Vec<PlannedDnsRecord>>,
}

#[verifier::ext_equal]
pub struct ContextView {
    pub params: Map<Seq<char>, Seq<char>>,
    pub records: Option<Seq<PlannedDnsRecordView>>,
}

impl View for CommandContext {
    type V = ContextView;

    open spec fn view(&self) -> ContextView {
        ContextView {
            params: self.params@,
            records: match self.records {
                Some(list) => Some(records_view(list@)),
                None => None,
            },
        }
    }
}

/// What an accepted command does next: report progress, and run the shell where
/// it needs to.
#[derive(Debug)]
pub struct Step {
    pub phase: &'static str,
    /// How far along the command reports to be, of a hundred.
    pub percent: u8,
    pub shell: Option<ShellCall>,
}

#[verifier::ext_equal]
pub struct StepView {
    pub phase: Seq<char>,
    pub percent: int,
    pub shell: Option<ShellCallView>,
}

impl View for Step {
    type V = StepView;

    open spec fn view(&self) -> StepView {
        StepView {
            phase: self.phase@,
            percent: self.percent as int,
            shell: match self.shell {
                Some(call) => Some(call@),
                None => None,
            },
        }
    }
}

/// The step that runs `script` on `args`.
pub open spec fn running(
    phase: Seq<char>,
    percent: int,
    script: Seq<char>,
    args: Seq<Seq<char>>,
) -> StepView {
    StepView { phase, percent, shell: Some(ShellCallView { script, args }) }
}

/// The view of what a handler made of its context.
pub open spec fn step_view(r: Result<Step, CommandError>) -> Result<StepView, CommandErrorView> {
    match r {
        Ok(step) => Ok(step@),
        Err(error) => Err(error@),
    }
}

/// The view of how a command ended.
pub open spec fn outcome_view(r: Result<Json, CommandError>) -> Result<JsonView, CommandErrorView> {
    match r {
        Ok(document) => Ok(document@),
        Err(error) => Err(error@),
    }
}

/// One command: a name, the capability it demands, what it runs for given
/// parameters, and what it returns for a given answer of the shell.
pub trait CommandHandler {
    spec fn spec_name(&self) -> Seq<char>;

    spec fn spec_capability(&self) -> Capability;

    /// What the command does next, or why it refuses its parameters.
    spec fn step(&self, ctx: ContextView) -> Result<StepView, CommandErrorView>;

    /// How the command ends once the shell has answered.
    spec fn outcome(&self, ctx: ContextView, answer: ShellOutputView) -> Result<
        JsonView,
        CommandErrorView,
    >;

    /// A refused command ends with the error of its refusal, whatever the shell
    /// would have answered.
    proof fn refusal_stands(&self, ctx: ContextView, answer: ShellOutputView)
        ensures
            self.step(ctx) matches Err(error) ==> self.outcome(ctx, answer) == Err::<JsonView, _>(
                error,
            ),
    ;

    /// A command whose shell run fails ends with the exit code and the error
    /// output of that run.
    proof fn failed_run_is_reported(&self, ctx: ContextView, answer: ShellOutputView)
        ensures
            self.step(ctx) matches Ok(step) && step.shell is Some && answer.exit_code != 0
                ==> self.outcome(ctx, answer) == Err::<JsonView, _>(
                CommandErrorView::Shell(
                    PowerShellErrorView::NonZeroExit {
                        exit_code: answer.exit_code,
                        stderr: answer.stderr,
                    },
                ),
            ),
    ;

    /// The name that the command is dispatched by.
    fn name(&self) -> (r: &'static str)
        ensures
            r@ == self.spec_name(),
    ;

    /// The capability that a caller needs.
    fn required_capability(&self) -> (r: Capability)
        ensures
            r == self.spec_capability(),
    ;

    /// Check the parameters and say what to run.
    fn prepare(&self, ctx: &CommandContext) -> (r: Result<Step, CommandError>)
        ensures
            step_view(r) == self.step(ctx@),
    ;

    /// The end of the command, given what the shell answered to the call that
    /// `prepare` asks for. A command that asks for no call ignores the answer.
    fn execute(&self, ctx: &CommandContext, answer: &ShellOutput) -> (r: Result<
        Json,
        CommandError,
    >)
        ensures
            outcome_view(r) == self.outcome(ctx@, answer@),
    ;
}

} // verus!
