//! The shell at the edge: what it is asked to run and what it answers.

use vstd::prelude::*;

use crate::text::texts;

verus! {

/// One run of the shell: a script and the arguments it reads as `$1`, `$2`, ...
/// (or, under PowerShell, as its declared parameters).
#[derive(Debug)]
pub struct ShellCall {
    pub script: &'static str,
    pub args: Vec<String>,
}

#[verifier::ext_equal]
pub struct ShellCallView {
    pub script: Seq<char>,
    pub args: Seq<Seq<char>>,
}

impl View for ShellCall {
    type V = ShellCallView;

    open spec fn view(&self) -> ShellCallView {
        ShellCallView { script: self.script@, args: texts(self.args@) }
    }
}

/// What a finished run left behind.
#[derive(Debug)]
pub struct ShellOutput {
    pub exit_code: i32,
    pub stdout: String,
    pub stderr: String,
}

#[verifier::ext_equal]
pub struct ShellOutputView {
    pub exit_code: int,
    pub stdout: Seq<char>,
    pub stderr: Seq<char>,
}

impl View for ShellOutput {
    type V = ShellOutputView;

    open spec fn view(&self) -> ShellOutputView {
        ShellOutputView {
            exit_code: self.exit_code as int,
            stdout: self.stdout@,
            stderr: self.stderr@,
        }
    }
}

/// A run that did not succeed.
#[derive(Debug)]
pub enum PowerShellError {
    NonZeroExit { exit_code: i32, stderr: String },
}

#[verifier::ext_equal]
pub enum PowerShellErrorView {
    NonZeroExit { exit_code: int, stderr: Seq<char> },
}

impl View for PowerShellError {
    type V = PowerShellErrorView;

    open spec fn view(&self) -> PowerShellErrorView {
        match self {
            PowerShellError::NonZeroExit { exit_code, stderr } => PowerShellErrorView::NonZeroExit {
                exit_code: *exit_code as int,
                stderr: stderr@,
            },
        }
    }
}

} // verus!
