//! Laws of who may run which command, and of what the views show.

use vstd::prelude::*;

use crate::authz::{lacking, Capability, Role};
use crate::commands::certsecure::{
    AptRefresh, CertSecureHarden, CertSecureInstall, CertSecureMakeCert, CertSecureVerify,
    CertSecureWriteHosts,
};
use crate::commands::dns::{
    DnsApplyResources, DnsCreateRecord, DnsSetClient, DnsVerify, PlannedDnsRecord,
};
use crate::commands::linux::{
    FileRead, FileWrite, HostnameRead, SystemBootInfo, SystemIdentity, SystemReboot,
};
use crate::commands::pki_verify::PkiVerify;
use crate::dispatch::{begun, finished, gated, DispatchError, DispatchErrorView};
use crate::json::{members, text_values, Json, JsonView};
use crate::powershell::{PowerShellError, ShellCall, ShellOutput};
use crate::registry::{
    outcome_view, step_view, CommandContext, CommandError, CommandErrorView, CommandHandler, Step,
};
use crate::text::texts;

verus! {

/// A command of this name that demands this capability.
pub open spec fn known<H: CommandHandler>(
    handler: H,
    name: Seq<char>,
    capability: Capability,
) -> bool {
    handler.spec_name() == name && handler.spec_capability() == capability
}

/// The names that commands answer to and the capabilities they demand: those that
/// only look demand no more than looking, all others that their caller may build a
/// machine up.
pub proof fn commands_by_name(boot_info: SystemBootInfo)
    ensures
        known(AptRefresh, "apt.refresh"@, Capability::VmProvision),
        known(CertSecureWriteHosts, "certsecure.write_hosts"@, Capability::VmProvision),
        known(CertSecureMakeCert, "certsecure.make_cert"@, Capability::VmProvision),
        known(CertSecureInstall, "certsecure.install"@, Capability::VmProvision),
        known(CertSecureHarden, "certsecure.harden"@, Capability::VmProvision),
        known(CertSecureVerify, "certsecure.verify"@, Capability::VmRead),
        known(DnsSetClient, "dns.set_client"@, Capability::VmProvision),
        known(DnsCreateRecord, "dns.create_record"@, Capability::VmProvision),
        known(DnsApplyResources, "dns.apply_resources"@, Capability::VmProvision),
        known(DnsVerify, "dns.verify"@, Capability::VmRead),
        known(HostnameRead, "hostname.read"@, Capability::VmRead),
        known(SystemIdentity, "system.identity"@, Capability::VmRead),
        known(SystemReboot, "system.reboot"@, Capability::VmProvision),
        known(boot_info, "system.boot_info"@, Capability::VmRead),
        known(FileRead, "file.read"@, Capability::VmProvision),
        known(FileWrite, "file.write"@, Capability::VmProvision),
        known(PkiVerify, "pki.verify"@, Capability::VmRead),
{
}

/// Whoever may run a command gets what the command gives: an operator always, a
/// guest where the command only looks. Everyone else is told who they are, what
/// they lack and for which command.
pub proof fn callers_get_what_they_may<H: CommandHandler, T>(
    handler: H,
    role: Role,
    result: Result<T, CommandErrorView>,
)
    ensures
        ({
            let got = gated(handler, role, result);
            if role == Role::Operator || handler.spec_capability() == Capability::VmRead {
                match result {
                    Ok(value) => got == Ok::<T, DispatchErrorView>(value),
                    Err(error) => got == Err::<T, DispatchErrorView>(
                        DispatchErrorView::Command(error),
                    ),
                }
            } else {
                got == Err::<T, DispatchErrorView>(
                    DispatchErrorView::Forbidden {
                        role,
                        capability: handler.spec_capability(),
                        command: handler.spec_name(),
                    },
                )
            }
        }),
{
}

/// A caller who lacks a capability is told their role, the capability and the
/// command by name.
pub proof fn lacking_names_all_three(role: Role, capability: Capability, command: Seq<char>)
    ensures
        ({
            let who = if role == Role::Guest {
                "Guest"@
            } else {
                "Operator"@
            };
            let what = if capability == Capability::VmRead {
                "VmRead"@
            } else if capability == Capability::VmUpdate {
                "VmUpdate"@
            } else if capability == Capability::VmProvision {
                "VmProvision"@
            } else {
                "VmExecArbitrary"@
            };
            lacking(role, capability, command) == "role "@ + who + " lacks capability "@ + what
                + " required by '"@ + command + "'"@
        }),
{
}

/// Every part of a step, a call and an answer shows in its view.
pub proof fn steps_show_every_part(step: Step, call: ShellCall, answer: ShellOutput, i: int)
    ensures
        step@.phase == step.phase@,
        step@.percent == step.percent,
        step.shell is None <==> step@.shell is None,
        step.shell matches Some(run) ==> step@.shell == Some(run@),
        call@.script == call.script@,
        call@.args.len() == call.args@.len(),
        0 <= i < call.args@.len() ==> call@.args[i] == call.args@[i]@,
        answer@.exit_code == answer.exit_code,
        answer@.stdout == answer.stdout@,
        answer@.stderr == answer.stderr@,
{
}

/// Every part of an error shows in its view, and so does what came out well.
pub proof fn ends_show_every_part(
    error: CommandError,
    refusal: DispatchError,
    step: Step,
    document: Json,
)
    ensures
        match error {
            CommandError::MissingParam(name) => error@ == CommandErrorView::MissingParam(name@),
            CommandError::InvalidParam { name, reason } => error@
                == (CommandErrorView::InvalidParam { name: name@, reason: reason@ }),
            CommandError::Shell(PowerShellError::NonZeroExit { exit_code, stderr }) => {
                &&& error@ is Shell
                &&& error@->Shell_0->exit_code == exit_code
                &&& error@->Shell_0->stderr == stderr@
            },
        },
        match refusal {
            DispatchError::Forbidden { role, capability, command } => refusal@
                == (DispatchErrorView::Forbidden { role, capability, command: command@ }),
            DispatchError::Command(inner) => refusal@ == DispatchErrorView::Command(inner@),
        },
        step_view(Ok(step)) matches Ok(view) && view == step@,
        step_view(Err(error)) matches Err(view) && view == error@,
        outcome_view(Ok(document)) matches Ok(view) && view == document@,
        outcome_view(Err(error)) matches Err(view) && view == error@,
        begun(Ok(step)) matches Ok(view) && view == step@,
        begun(Err(refusal)) matches Err(view) && view == refusal@,
        finished(Ok(document)) matches Ok(view) && view == document@,
        finished(Err(refusal)) matches Err(view) && view == refusal@,
{
}

/// Every part of what a command is given shows in its view.
pub proof fn contexts_show_every_part(ctx: CommandContext, record: PlannedDnsRecord, i: int)
    ensures
        ctx@.params == ctx.params@,
        ctx.records is None <==> ctx@.records is None,
        ctx.records matches Some(list) ==> {
            &&& ctx@.records.unwrap().len() == list@.len()
            &&& 0 <= i < list@.len() ==> ctx@.records.unwrap()[i] == list@[i]@
        },
        record@.id == record.id@,
        record@.kind == record.kind,
        record@.zone == record.zone@,
        record@.name == record.name@,
        record@.value == record.value@,
{
}

/// Every part of a JSON value shows in its view, in order.
pub proof fn documents_show_every_part(document: Json, i: int)
    ensures
        match document {
            Json::Null => document@ == JsonView::Null,
            Json::Bool(b) => document@ == JsonView::Bool(b),
            Json::Number(n) => document@ == JsonView::Number(n as nat),
            Json::Text(s) => document@ == JsonView::Text(s@),
            Json::Numeral(s) => document@ == JsonView::Numeral(s@),
            Json::Array(items) => document@ matches JsonView::Array(list) && list.len()
                == items@.len() && (0 <= i < list.len() ==> list[i] == items@[i]@),
            Json::Object(items) => document@ matches JsonView::Object(list) && list.len()
                == items@.len() && (0 <= i < list.len() ==> list[i] == (items@[i].0@, items@[i].1@)),
        },
{
}

/// Texts and members are shown one by one, in order.
pub proof fn lists_show_every_item(
    list: Seq<String>,
    named: Seq<(String, Json)>,
    values: Seq<Seq<char>>,
    i: int,
)
    ensures
        texts(list).len() == list.len(),
        0 <= i < list.len() ==> texts(list)[i] == list[i]@,
        members(named).len() == named.len(),
        0 <= i < named.len() ==> members(named)[i] == (named[i].0@, named[i].1@),
        text_values(values).len() == values.len(),
        0 <= i < values.len() ==> text_values(values)[i] == JsonView::Text(values[i]),
{
}

} // verus!
