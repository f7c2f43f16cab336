//! What the handlers share: reading parameters, the rules for names and paths,
//! and the way from a shell answer to a result.

use vstd::prelude::*;

use crate::json::{decode_document, json_document, Json, JsonView};
use crate::powershell::{PowerShellError, PowerShellErrorView, ShellOutput, ShellOutputView};
use crate::registry::{CommandContext, CommandError, CommandErrorView};
use crate::split::{join_undoes_split, joined, pieces, split, Separator};
use crate::text::{begins_with, chars_of, is_alphanumeric, made_of, only, text_between, texts};

verus! {

/// The value of the parameter `name`, or `default` where it is not given.
pub open spec fn param_or(
    params: Map<Seq<char>, Seq<char>>,
    name: Seq<char>,
    default: Seq<char>,
) -> Seq<char> {
    if params.contains_key(name) {
        params[name]
    } else {
        default
    }
}

/// The error for a parameter that is not given.
pub open spec fn missing(name: Seq<char>) -> CommandErrorView {
    CommandErrorView::MissingParam(name)
}

/// The error for a parameter that is not taken.
pub open spec fn refused(name: Seq<char>, reason: Seq<char>) -> CommandErrorView {
    CommandErrorView::InvalidParam { name, reason }
}

/// The error for a shell run that failed.
pub open spec fn shell_failure(exit_code: int, stderr: Seq<char>) -> CommandErrorView {
    CommandErrorView::Shell(PowerShellErrorView::NonZeroExit { exit_code, stderr })
}

/// `then`, unless there is a reason to refuse.
pub open spec fn unless_refused<T>(refusal: Option<CommandErrorView>, then: T) -> Result<
    T,
    CommandErrorView,
> {
    match refusal {
        Some(error) => Err(error),
        None => Ok(then),
    }
}

/// `result`, unless there is a reason to refuse.
pub open spec fn judged(
    refusal: Option<CommandErrorView>,
    result: Result<JsonView, CommandErrorView>,
) -> Result<JsonView, CommandErrorView> {
    match refusal {
        Some(error) => Err(error),
        None => result,
    }
}

/// How a command ends that runs the shell: with the reason to refuse it, if
/// there is one; else with the failure of the run, if it failed; else with
/// `result`.
pub open spec fn concluded(
    refusal: Option<CommandErrorView>,
    answer: ShellOutputView,
    result: Result<JsonView, CommandErrorView>,
) -> Result<JsonView, CommandErrorView> {
    judged(
        refusal,
        if answer.exit_code != 0 {
            Err(shell_failure(answer.exit_code, answer.stderr))
        } else {
            result
        },
    )
}

/// The error for a parameter that is not taken.
pub fn invalid(name: &str, reason: &str) -> (r: CommandError)
    ensures
        r@ == refused(name@, reason@),
{
    CommandError::InvalidParam { name: name.to_owned(), reason: reason.to_owned() }
}

/// The error of a shell run that ended well but whose output is of no use.
pub fn unusable(stderr: &str) -> (r: CommandError)
    ensures
        r@ == shell_failure(1, stderr@),
{
    CommandError::Shell(PowerShellError::NonZeroExit { exit_code: 1, stderr: stderr.to_owned() })
}

/// The value of an optional parameter.
pub fn param<'a>(ctx: &'a CommandContext, name: &str) -> (r: Option<&'a str>)
    ensures
        match r {
            Some(value) => ctx@.params.contains_key(name@) && value@ == ctx@.params[name@],
            None => !ctx@.params.contains_key(name@),
        },
{
    ctx.params.get(name)
}

/// The value of an optional parameter, `default` where it is not given.
pub fn optional<'a>(ctx: &'a CommandContext, name: &str, default: &'a str) -> (r: &'a str)
    ensures
        r@ == param_or(ctx@.params, name@, default@),
{
    match param(ctx, name) {
        Some(value) => value,
        None => default,
    }
}

/// The value of an optional parameter, empty where it is not given.
pub fn optional_text<'a>(ctx: &'a CommandContext, name: &str) -> (r: &'a str)
    ensures
        r@ == param_or(ctx@.params, name@, Seq::empty()),
{
    proof {
        reveal_strlit("");
        assert(""@ =~= Seq::<char>::empty());
    }
    optional(ctx, name, "")
}

/// The value of a parameter that must be given.
pub fn required<'a>(ctx: &'a CommandContext, name: &str) -> (r: Result<&'a str, CommandError>)
    ensures
        match r {
            Ok(value) => ctx@.params.contains_key(name@) && value@ == ctx@.params[name@],
            Err(error) => !ctx@.params.contains_key(name@) && error@ == missing(name@),
        },
{
    match param(ctx, name) {
        Some(value) => Ok(value),
        None => Err(CommandError::MissingParam(name.to_owned())),
    }
}

/// Pass a successful run on; a run with another exit code than zero is an error.
pub fn require_success(answer: &ShellOutput) -> (r: Result<(), CommandError>)
    ensures
        match r {
            Ok(_) => answer@.exit_code == 0,
            Err(error) => answer@.exit_code != 0 && error@ == shell_failure(
                answer@.exit_code,
                answer@.stderr,
            ),
        },
{
    if answer.exit_code == 0 {
        Ok(())
    } else {
        Err(
            CommandError::Shell(
                PowerShellError::NonZeroExit {
                    exit_code: answer.exit_code,
                    stderr: answer.stderr.clone(),
                },
            ),
        )
    }
}

/// The JSON document on a command's output; JSON null where there is none.
pub open spec fn document_on(stdout: Seq<char>) -> JsonView {
    match json_document(stdout) {
        Some(document) => document,
        None => JsonView::Null,
    }
}

/// The JSON document on a command's output; JSON null where there is none.
pub fn parse_json(stdout: &str) -> (r: Json)
    ensures
        r@ == document_on(stdout@),
{
    match decode_document(stdout) {
        Ok(document) => document,
        Err(_) => Json::Null,
    }
}

/// A label of a DNS name: one to 63 letters, digits and hyphens, with no hyphen
/// at either end.
pub open spec fn is_dns_label(s: Seq<char>) -> bool {
    &&& 1 <= s.len() <= 63
    &&& only(s, seq!['-'])
    &&& s.first() != '-'
    &&& s.last() != '-'
}

/// `s` without the dot that may stand at its end for the root.
pub open spec fn without_root_dot(s: Seq<char>) -> Seq<char> {
    if s.len() > 0 && s.last() == '.' {
        s.drop_last()
    } else {
        s
    }
}

/// Every text of the list is a label of a DNS name.
pub open spec fn are_dns_labels(labels: Seq<Seq<char>>) -> bool {
    forall|i: int| 0 <= i < labels.len() ==> is_dns_label(#[trigger] labels[i])
}

/// A DNS name: labels with a dot between each two, 253 characters at most, and
/// an optional dot at the end for the root.
pub open spec fn is_dns_name(s: Seq<char>) -> bool {
    &&& 1 <= without_root_dot(s).len() <= 253
    &&& are_dns_labels(pieces(without_root_dot(s), Separator::Char('.')))
}

/// An absolute path in the portable file name characters of POSIX.
pub open spec fn is_posix_path(s: Seq<char>) -> bool {
    &&& seq!['/'].is_prefix_of(s)
    &&& only(s, "/._-"@)
}

fn dns_label(s: &str) -> (r: bool)
    ensures
        r == is_dns_label(s@),
{
    let chars = chars_of(s);
    proof {
        reveal_strlit("-");
        assert("-"@ =~= seq!['-']);
    }
    chars.len() >= 1 && chars.len() <= 63 && made_of(s, "-") && chars[0] != '-' && chars[chars.len()
        - 1] != '-'
}

/// Whether `value` is a DNS name.
pub fn valid_dns_name(value: &str) -> (r: bool)
    ensures
        r == is_dns_name(value@),
{
    let chars = chars_of(value);
    let len: usize = if chars.len() > 0 && chars[chars.len() - 1] == '.' {
        chars.len() - 1
    } else {
        chars.len()
    };
    if len < 1 || len > 253 {
        return false;
    }
    let name = text_between(&chars, 0, len);
    assert(name@ =~= without_root_dot(value@));
    let labels = split(name.as_str(), Separator::Char('.'));
    let ghost parts = pieces(name@, Separator::Char('.'));
    let mut i: usize = 0;
    while i < labels.len()
        invariant
            i <= labels@.len(),
            texts(labels@) == parts,
            forall|k: int| 0 <= k < i ==> is_dns_label(#[trigger] parts[k]),
            is_dns_name(value@) == are_dns_labels(parts),
        decreases labels.len() - i,
    {
        assert(parts[i as int] == labels@[i as int]@);
        if !dns_label(labels[i].as_str()) {
            return false;
        }
        i += 1;
    }
    assert(parts.len() == labels@.len());
    true
}

/// Every text of the list is a DNS name.
pub open spec fn are_dns_names(list: Seq<Seq<char>>) -> bool {
    forall|i: int| 0 <= i < list.len() ==> is_dns_name(#[trigger] list[i])
}

/// Whether every text of the list, from the place `from` on, is a DNS name.
pub fn all_dns_names(list: &Vec<String>, from: usize) -> (r: bool)
    requires
        from <= list@.len(),
    ensures
        r == are_dns_names(texts(list@).skip(from as int)),
{
    let ghost rest = texts(list@).skip(from as int);
    let mut i: usize = from;
    while i < list.len()
        invariant
            from <= i <= list@.len(),
            rest == texts(list@).skip(from as int),
            forall|k: int| 0 <= k < i - from ==> is_dns_name(#[trigger] rest[k]),
        decreases list.len() - i,
    {
        assert(rest[i - from] == list@[i as int]@);
        if !valid_dns_name(list[i].as_str()) {
            return false;
        }
        i += 1;
    }
    true
}

/// Whether `value` is an absolute path in the portable file name characters of
/// POSIX.
pub fn valid_posix_path(value: &str) -> (r: bool)
    ensures
        r == is_posix_path(value@),
{
    proof {
        reveal_strlit("/");
        assert("/"@ =~= seq!['/']);
    }
    begins_with(value, "/") && made_of(value, "/._-")
}

proof fn lemma_joined_labels(labels: Seq<Seq<char>>)
    requires
        are_dns_labels(labels),
    ensures
        only(joined(labels, seq!['.']), "-."@),
    decreases labels.len(),
{
    reveal_strlit("-.");
    let plain = "-."@;
    assert(plain.contains(plain[0]) && plain.contains(plain[1]));
    if labels.len() > 0 {
        let rest = labels.drop_last();
        assert forall|i: int| 0 <= i < rest.len() implies is_dns_label(#[trigger] rest[i]) by {
            assert(rest[i] == labels[i]);
        }
        lemma_joined_labels(rest);
        assert(is_dns_label(labels[labels.len() - 1]));
        let front = joined(rest, seq!['.']);
        let label = labels.last();
        let whole = joined(labels, seq!['.']);
        assert forall|i: int| 0 <= i < label.len() implies is_alphanumeric(#[trigger] label[i])
            || plain.contains(label[i]) by {
            if !is_alphanumeric(label[i]) {
                assert(seq!['-'].contains(label[i]));
            }
        }
        if labels.len() > 1 {
            assert forall|i: int| 0 <= i < whole.len() implies is_alphanumeric(#[trigger] whole[i])
                || plain.contains(whole[i]) by {
                if i < front.len() {
                    assert(whole[i] == front[i]);
                } else if i > front.len() {
                    assert(whole[i] == label[i - front.len() - 1]);
                }
            }
        }
    }
}

/// A DNS name is made of letters, digits, hyphens and dots, 254 characters at
/// most: nothing that a shell, a list or a file of names could take for anything
/// else.
pub proof fn dns_names_are_plain(s: Seq<char>)
    requires
        is_dns_name(s),
    ensures
        only(s, "-."@),
        1 <= s.len() <= 254,
{
    let bare = without_root_dot(s);
    join_undoes_split(bare, '.');
    lemma_joined_labels(pieces(bare, Separator::Char('.')));
    reveal_strlit("-.");
    assert("-."@.contains("-."@[1]));
    assert forall|i: int| 0 <= i < s.len() implies is_alphanumeric(#[trigger] s[i])
        || "-."@.contains(s[i]) by {
        if i < bare.len() {
            assert(s[i] == bare[i]);
        }
    }
}

} // verus!
