//! Laws of the commands that have a Linux implementation of their own.

use vstd::prelude::*;

use crate::commands::linux::{
    FileRead, FileWrite, HostnameRead, SystemBootInfo, SystemIdentity, SystemReboot,
    FILE_READ_SCRIPT, FILE_WRITE_SCRIPT, IDENTITY_SCRIPT, REBOOT_SCRIPT,
};
use crate::json::{member, JsonView};
use crate::laws::names::{continues, dots_in_a_row, relay_paths_by_prefix};
use crate::laws::terms::{
    blames, breaks, counts, decoded, drawn_from, file_path, given_or, has_members, lacks, reports,
    runs, tells,
};
use crate::laws::text::{made_of_by_code, ranges_hold_numbers};
use crate::number::decimal;
use crate::powershell::ShellOutputView;
use crate::registry::{CommandErrorView, CommandHandler, ContextView};
use crate::split::trim;
use crate::text::byte_len;

verus! {

/// The host name is what `uname -n` prints, trimmed.
pub proof fn hostname_is_asked_of_the_system(ctx: ContextView, answer: ShellOutputView)
    ensures
        reports(HostnameRead.step(ctx), "reading"@, 50),
        runs(HostnameRead.step(ctx), "uname -n"@, seq![]),
        answer.exit_code == 0 ==> (HostnameRead.outcome(ctx, answer) matches Ok(result) && {
            &&& has_members(result, seq!["hostname"@])
            &&& tells(result, "hostname"@, JsonView::Text(trim(answer.stdout)))
        }),
{
    if answer.exit_code == 0 {
        let list = HostnameRead.outcome(ctx, answer)->Ok_0->Object_0;
        assert(list[0].0 == "hostname"@);
    }
}

/// The identity takes no parameters and is the object that the run printed; a run
/// that printed none failed.
pub proof fn identity_is_what_was_printed(ctx: ContextView, answer: ShellOutputView)
    ensures
        reports(SystemIdentity.step(ctx), "reading system identity"@, 50),
        runs(SystemIdentity.step(ctx), IDENTITY_SCRIPT@, seq![]),
        answer.exit_code == 0 ==> {
            let end = SystemIdentity.outcome(ctx, answer);
            if decoded(answer.stdout) is Object {
                end == Ok::<JsonView, CommandErrorView>(decoded(answer.stdout))
            } else {
                breaks(end, 1, "system.identity returned invalid JSON"@)
            }
        },
{
}

/// A reboot is scheduled exactly for 5 to 120 seconds, ten where none are given,
/// and tells the seconds that the script was given.
pub proof fn reboot_waits_as_asked(ctx: ContextView, answer: ShellOutputView)
    ensures
        ({
            let delay = given_or(ctx.params, "delaySeconds"@, "10"@);
            let start = SystemReboot.step(ctx);
            if !counts(delay, 5, 120) {
                blames(start, "delaySeconds"@, "must be an integer in 5-120"@)
            } else {
                &&& reports(start, "scheduling reboot"@, 50)
                &&& runs(start, REBOOT_SCRIPT@, seq![delay])
                &&& answer.exit_code == 0 ==> (SystemReboot.outcome(ctx, answer) matches Ok(result)
                    && {
                    &&& has_members(result, seq!["rebooting"@, "delay_seconds"@])
                    &&& tells(result, "rebooting"@, JsonView::Bool(true))
                    &&& tells(result, "delay_seconds"@, JsonView::Text(delay))
                })
            }
        }),
{
    ranges_hold_numbers(given_or(ctx.params, "delaySeconds"@, "10"@), 5, 120);
    if SystemReboot.step(ctx) is Ok && answer.exit_code == 0 {
        let list = SystemReboot.outcome(ctx, answer)->Ok_0->Object_0;
        assert(list[0].0 == "rebooting"@);
        assert(list[1].0 == "delay_seconds"@);
    }
}

/// The boot information tells the whole seconds since boot, in number and in words,
/// and that nothing is pending or running, without asking the shell.
pub proof fn boot_info_tells_whole_seconds(
    handler: SystemBootInfo,
    ctx: ContextView,
    answer: ShellOutputView,
    seconds: nat,
)
    requires
        1000 * seconds <= handler.uptime() < 1000 * (seconds + 1),
    ensures
        reports(handler.step(ctx), "reading boot info"@, 50),
        handler.step(ctx) matches Ok(step) && step.shell is None,
        handler.outcome(ctx, answer) matches Ok(result) && {
            &&& has_members(
                result,
                seq!["uptimeS"@, "finalizePending"@, "finalizeRunning"@, "raw"@],
            )
            &&& tells(result, "uptimeS"@, JsonView::Number(seconds))
            &&& tells(result, "finalizePending"@, JsonView::Bool(false))
            &&& tells(result, "finalizeRunning"@, JsonView::Bool(false))
            &&& tells(
                result,
                "raw"@,
                JsonView::Text(
                    "/proc/uptime "@ + decimal(seconds) + "s; no firstboot finalize task on Linux"@,
                ),
            )
        },
{
    assert(handler.uptime() / 1000 == seconds);
    let list = handler.outcome(ctx, answer)->Ok_0->Object_0;
    assert(list[0].0 == "uptimeS"@);
    assert(list[1].0 == "finalizePending"@);
    assert(list[2].0 == "finalizeRunning"@);
    assert(list[3].0 == "raw"@);
}

/// A path below one of the relay's directories, without two dots in a row.
pub open spec fn in_relay(path: Seq<char>) -> bool {
    &&& file_path(path)
    &&& !dots_in_a_row(path)
    &&& continues(path, "/opt/certsecure-manager/"@) || continues(
        path,
        "/var/lib/pki-executor/transfer/"@,
    )
}

/// The reason that a path outside the relay's directories is refused for.
pub open spec fn outside_relay() -> Seq<char> {
    "must be an absolute path under /opt/certsecure-manager/ or /var/lib/pki-executor/transfer/"@
}

/// A file is read exactly from a path in the relay, 256 KiB of it at most.
pub proof fn file_read_asks_for_the_path(ctx: ContextView)
    ensures
        ({
            let p = ctx.params;
            let start = FileRead.step(ctx);
            if !p.dom().contains("path"@) {
                lacks(start, "path"@)
            } else if !in_relay(p["path"@]) {
                blames(start, "path"@, outside_relay())
            } else {
                &&& reports(start, "reading file"@, 30)
                &&& runs(start, FILE_READ_SCRIPT@, seq![p["path"@], decimal(262144)])
            }
        }),
{
    relay_paths_by_prefix(ctx.params["path"@]);
}

/// A file that was read is told with its path and with the content, the checksum
/// and the size that the run printed; without content it could not be read.
pub proof fn file_read_tells_the_file(ctx: ContextView, answer: ShellOutputView)
    ensures
        FileRead.step(ctx) is Ok && answer.exit_code == 0 ==> {
            let document = decoded(answer.stdout);
            let end = FileRead.outcome(ctx, answer);
            if member(document, "contentB64"@) !is Text {
                blames(end, "path"@, "file could not be read"@)
            } else {
                end matches Ok(result) && {
                    &&& has_members(result, seq!["path"@, "contentB64"@, "sha256"@, "size"@])
                    &&& tells(result, "path"@, JsonView::Text(ctx.params["path"@]))
                    &&& tells(result, "contentB64"@, member(document, "contentB64"@))
                    &&& tells(result, "sha256"@, member(document, "sha256"@))
                    &&& tells(result, "size"@, member(document, "size"@))
                }
            }
        },
{
    let end = FileRead.outcome(ctx, answer);
    if FileRead.step(ctx) is Ok && end is Ok {
        let list = end->Ok_0->Object_0;
        assert(list[0].0 == "path"@);
        assert(list[1].0 == "contentB64"@);
        assert(list[2].0 == "sha256"@);
        assert(list[3].0 == "size"@);
    }
}

/// A file is written exactly to a path in the relay, from base64 of at most 349528
/// bytes that is not empty.
pub proof fn file_write_hands_over_the_content(ctx: ContextView)
    ensures
        ({
            let p = ctx.params;
            let start = FileWrite.step(ctx);
            let content = p["contentB64"@];
            if !p.dom().contains("path"@) {
                lacks(start, "path"@)
            } else if !in_relay(p["path"@]) {
                blames(start, "path"@, outside_relay())
            } else if !p.dom().contains("contentB64"@) {
                lacks(start, "contentB64"@)
            } else if byte_len(content) > 349528 {
                blames(start, "contentB64"@, "exceeds the 256 KiB relay cap"@)
            } else if content.len() == 0 || !drawn_from(content, "+/="@) {
                blames(start, "contentB64"@, "must be base64"@)
            } else {
                &&& reports(start, "writing file"@, 30)
                &&& runs(start, FILE_WRITE_SCRIPT@, seq![p["path"@], content])
            }
        }),
{
    relay_paths_by_prefix(ctx.params["path"@]);
    made_of_by_code(ctx.params["contentB64"@], "+/="@);
}

/// A file that was written is told with its path and the checksum that the run
/// printed.
pub proof fn file_write_tells_the_checksum(ctx: ContextView, answer: ShellOutputView)
    ensures
        FileWrite.step(ctx) is Ok && answer.exit_code == 0 ==> (FileWrite.outcome(
            ctx,
            answer,
        ) matches Ok(result) && {
            &&& has_members(result, seq!["path"@, "sha256"@])
            &&& tells(result, "path"@, JsonView::Text(ctx.params["path"@]))
            &&& tells(result, "sha256"@, JsonView::Text(trim(answer.stdout)))
        }),
{
    if FileWrite.step(ctx) is Ok && answer.exit_code == 0 {
        let list = FileWrite.outcome(ctx, answer)->Ok_0->Object_0;
        assert(list[0].0 == "path"@);
        assert(list[1].0 == "sha256"@);
    }
}

} // verus!
