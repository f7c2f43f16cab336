//! The words that the laws are written in.

use vstd::prelude::*;

use crate::json::{json_document, JsonView};
use crate::number::{decimal, unsigned};
use crate::powershell::PowerShellErrorView;
use crate::registry::{CommandErrorView, StepView};
use crate::split::joined;

verus! {

/// An ASCII letter or digit, by its code.
pub open spec fn letter_or_digit(c: char) -> bool {
    let code = c as u32;
    48 <= code <= 57 || 65 <= code <= 90 || 97 <= code <= 122
}

/// An ASCII digit, by its code.
pub open spec fn figure(c: char) -> bool {
    48 <= c as u32 <= 57
}

/// A text of ASCII letters, digits and the characters of `extra`.
pub open spec fn drawn_from(s: Seq<char>, extra: Seq<char>) -> bool {
    forall|i: int| 0 <= i < s.len() ==> letter_or_digit(#[trigger] s[i]) || extra.contains(s[i])
}

/// A text of none of the characters of `banned`.
pub open spec fn avoids(s: Seq<char>, banned: Seq<char>) -> bool {
    !exists|i: int, k: int|
        0 <= i < s.len() && 0 <= k < banned.len() && #[trigger] s[i] == #[trigger] banned[k]
}

/// A text of one to `most` characters out of letters, digits and `extra`.
pub open spec fn short_name(s: Seq<char>, most: nat, extra: Seq<char>) -> bool {
    0 < s.len() && s.len() <= most && drawn_from(s, extra)
}

/// Letters, digits and inner hyphens, one to 63 of them.
pub open spec fn label(s: Seq<char>) -> bool {
    &&& short_name(s, 63, seq!['-'])
    &&& s[0] != '-'
    &&& s[s.len() - 1] != '-'
}

/// `s` is these labels with a dot between each two, 253 characters at most.
pub open spec fn spells(labels: Seq<Seq<char>>, s: Seq<char>) -> bool {
    &&& labels.len() > 0
    &&& forall|i: int| 0 <= i < labels.len() ==> label(#[trigger] labels[i])
    &&& s == joined(labels, seq!['.'])
    &&& s.len() <= 253
}

/// A domain name: labels with dots between them, and maybe one dot at the end.
pub open spec fn domain_name(s: Seq<char>) -> bool {
    ||| exists|labels: Seq<Seq<char>>| spells(labels, s)
    ||| s.len() > 0 && s[s.len() - 1] == '.' && exists|labels: Seq<Seq<char>>|
        spells(labels, s.drop_last())
}

/// Domain names, all of them.
pub open spec fn domain_names(list: Seq<Seq<char>>) -> bool {
    forall|i: int| 0 <= i < list.len() ==> domain_name(#[trigger] list[i])
}

/// Four numbers in their shortest decimal writing, a dot between each two.
pub open spec fn quad(a: nat, b: nat, c: nat, d: nat) -> Seq<char> {
    joined(seq![decimal(a), decimal(b), decimal(c), decimal(d)], seq!['.'])
}

/// An IPv4 address: four numbers up to 255 in their shortest decimal writing.
pub open spec fn address(s: Seq<char>) -> bool {
    exists|a: nat, b: nat, c: nat, d: nat|
        a < 256 && b < 256 && c < 256 && d < 256 && s == #[trigger] quad(a, b, c, d)
}

/// One to three digits that write a number up to 255.
pub open spec fn padded_byte(s: Seq<char>) -> bool {
    &&& 0 < s.len() <= 3
    &&& forall|i: int| 0 <= i < s.len() ==> figure(#[trigger] s[i])
    &&& counts(s, 0, 255)
}

/// `s` is these four bytes, a dot between each two.
pub open spec fn padded_quad(bytes: Seq<Seq<char>>, s: Seq<char>) -> bool {
    &&& bytes.len() == 4
    &&& forall|i: int| 0 <= i < 4 ==> padded_byte(#[trigger] bytes[i])
    &&& s == joined(bytes, seq!['.'])
}

/// An IPv4 address whose numbers may be padded with zeros up to three digits.
pub open spec fn padded_address(s: Seq<char>) -> bool {
    exists|bytes: Seq<Seq<char>>| padded_quad(bytes, s)
}

/// `s` writes a number from `low` to `high`.
pub open spec fn counts(s: Seq<char>, low: nat, high: nat) -> bool {
    exists|n: nat| low <= n <= high && unsigned(s) == Some(n)
}

/// `s` begins with `prefix`.
pub open spec fn starts(s: Seq<char>, prefix: Seq<char>) -> bool {
    exists|rest: Seq<char>| s == #[trigger] (prefix + rest)
}

/// An absolute path of letters, digits, dots, dashes and underscores.
pub open spec fn file_path(s: Seq<char>) -> bool {
    s.len() > 0 && s[0] == '/' && drawn_from(s, seq!['/', '.', '_', '-'])
}

/// A URL over HTTP or HTTPS, of none of the characters of `banned`.
pub open spec fn web_url(s: Seq<char>, banned: Seq<char>) -> bool {
    (starts(s, "http://"@) || starts(s, "https://"@)) && avoids(s, banned)
}

/// The parameter called `name`, or `default` where it is not given.
pub open spec fn given_or(
    p: Map<Seq<char>, Seq<char>>,
    name: Seq<char>,
    default: Seq<char>,
) -> Seq<char> {
    if p.dom().contains(name) {
        p[name]
    } else {
        default
    }
}

/// A result whose members have these names, in this order.
pub open spec fn has_members(result: JsonView, names: Seq<Seq<char>>) -> bool {
    result matches JsonView::Object(list) && list.len() == names.len() && forall|i: int|
        0 <= i < names.len() ==> (#[trigger] list[i]).0 == names[i]
}

/// A result that has `value` under `name`.
pub open spec fn tells(result: JsonView, name: Seq<char>, value: JsonView) -> bool {
    result matches JsonView::Object(list) && exists|i: int|
        0 <= i < list.len() && #[trigger] list[i] == (name, value)
}

/// The value that an output decodes to, null where it is not JSON.
pub open spec fn decoded(stdout: Seq<char>) -> JsonView {
    match json_document(stdout) {
        Some(document) => document,
        None => JsonView::Null,
    }
}

/// What ends here ends because the parameter called `name` is not given.
pub open spec fn lacks<T>(end: Result<T, CommandErrorView>, name: Seq<char>) -> bool {
    end matches Err(error) && error == CommandErrorView::MissingParam(name)
}

/// What ends here ends because of the parameter called `name`, for this reason.
pub open spec fn blames<T>(
    end: Result<T, CommandErrorView>,
    name: Seq<char>,
    reason: Seq<char>,
) -> bool {
    end matches Err(error) && error == (CommandErrorView::InvalidParam { name, reason })
}

/// What ends here ends as a run of the shell does that fails with this code and
/// this error output.
pub open spec fn breaks<T>(
    end: Result<T, CommandErrorView>,
    exit_code: int,
    stderr: Seq<char>,
) -> bool {
    end matches Err(error) && error == CommandErrorView::Shell(
        PowerShellErrorView::NonZeroExit { exit_code, stderr },
    )
}

/// What starts here reports this phase and this percentage.
pub open spec fn reports(
    start: Result<StepView, CommandErrorView>,
    phase: Seq<char>,
    percent: int,
) -> bool {
    start matches Ok(step) && step.phase == phase && step.percent == percent
}

/// What starts here runs this script on these arguments.
pub open spec fn runs(
    start: Result<StepView, CommandErrorView>,
    script: Seq<char>,
    args: Seq<Seq<char>>,
) -> bool {
    start matches Ok(step) && step.shell matches Some(call) && call.script == script && call.args
        == args
}

} // verus!
