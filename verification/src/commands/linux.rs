//! Linux implementations of the shared command names.
//!
//! The commands here answer to the same names, demand the same capabilities and
//! return results of the same shape as on Windows: whoever reads a result does
//! so without asking which system gave it.

use vstd::prelude::*;
use vstd::utf8::is_ascii_chars_encode_utf8;

use crate::authz::Capability;
use crate::commands::paths::{
    dotless_paths_do_not_climb, double_dot, has_double_dot, lies_under, under, PRODUCT_TREE,
    TRANSFER_DIR,
};
use crate::commands::util::{
    concluded, document_on, invalid, is_posix_path, judged, missing, optional, param_or,
    parse_json, refused, require_success, required, shell_failure, unless_refused, unusable,
    valid_posix_path,
};
use crate::json::{entry, lemma_value_at, member, object, text, Json, JsonView};
use crate::number::{decimal, in_range, to_decimal, unsigned, within};
use crate::powershell::{ShellCall, ShellOutput, ShellOutputView};
use crate::registry::{
    outcome_view, running, CommandContext, CommandError, CommandErrorView, CommandHandler,
    ContextView, Step, StepView,
};
use crate::split::{pieces, trim, trimmed, Separator};
use crate::text::{byte_len, is_alphanumeric, made_of, only, texts, utf8_len};

verus! {

/// The most bytes that a relayed file may have: 256 KiB.
pub const RELAY_CAP_BYTES: u64 = 256 * 1024;

/// The most characters of base64 that a relayed file may take.
pub const RELAY_CAP_B64: u64 = RELAY_CAP_BYTES / 3 * 4 + 4;

pub const HOSTNAME_SCRIPT: &'static str = "uname -n";

pub const IDENTITY_SCRIPT: &'static str = r#"set -eu
. /etc/os-release
printf '{"hostname":"%s","operating_system":"%s","version":"%s","product_type":3,"server":true}' \
  "$(uname -n)" "${PRETTY_NAME:-${NAME:-Linux}}" "$(uname -r)"
"#;

pub const REBOOT_SCRIPT: &'static str = r#"set -eu
delay="$1"
if command -v systemd-run >/dev/null 2>&1; then
  systemd-run --quiet --on-active="${delay}s" /usr/bin/systemctl reboot
else
  # Detached from this shell so the executor's wait on it returns immediately
  # and the reboot still happens after the grace window.
  nohup sh -c "sleep ${delay}; /sbin/shutdown -r now" >/dev/null 2>&1 &
fi
"#;

pub const FILE_READ_SCRIPT: &'static str = r#"set -eu
path="$1"
cap="$2"
size=$(stat -c %s "$path")
if [ "$size" -gt "$cap" ]; then
  echo "file exceeds the relay cap" >&2
  exit 1
fi
printf '{"contentB64":"%s","sha256":"%s","size":%s}' \
  "$(base64 -w0 "$path")" "$(sha256sum "$path" | cut -d' ' -f1)" "$size"
"#;

pub const FILE_WRITE_SCRIPT: &'static str = r#"set -eu
path="$1"
mkdir -p "$(dirname "$path")"
printf '%s' "$2" | base64 -d > "$path"
sha256sum "$path" | cut -d' ' -f1
"#;

/// A path that files may be relayed from and to. Deliberately narrow: the product
/// tree, and a scratch directory that nothing else owns.
pub open spec fn is_relay_path(path: Seq<char>) -> bool {
    &&& is_posix_path(path)
    &&& !has_double_dot(path)
    &&& lies_under(path, PRODUCT_TREE@) || lies_under(path, TRANSFER_DIR@)
}

/// The error for a path outside the relay's reach.
pub open spec fn relay_path_refused() -> CommandErrorView {
    refused(
        "path"@,
        "must be an absolute path under /opt/certsecure-manager/ or /var/lib/pki-executor/transfer/"@,
    )
}

/// Whether files may be relayed from and to `path`.
pub fn relay_path_ok(path: &str) -> (r: bool)
    ensures
        r == is_relay_path(path@),
{
    valid_posix_path(path) && !double_dot(path) && (under(path, PRODUCT_TREE) || under(
        path,
        TRANSFER_DIR,
    ))
}

/// The error for a path outside the relay's reach.
pub fn invalid_relay_path() -> (r: CommandError)
    ensures
        r@ == relay_path_refused(),
{
    invalid(
        "path",
        "must be an absolute path under /opt/certsecure-manager/ or /var/lib/pki-executor/transfer/",
    )
}

/// `uname -n`.
pub struct HostnameRead;

/// The result of reading the host name.
pub open spec fn hostname_result(stdout: Seq<char>) -> JsonView {
    JsonView::Object(seq![("hostname"@, JsonView::Text(trim(stdout)))])
}

impl CommandHandler for HostnameRead {
    open spec fn spec_name(&self) -> Seq<char> {
        "hostname.read"@
    }

    open spec fn spec_capability(&self) -> Capability {
        Capability::VmRead
    }

    open spec fn step(&self, ctx: ContextView) -> Result<StepView, CommandErrorView> {
        Ok(running("reading"@, 50, HOSTNAME_SCRIPT@, seq![]))
    }

    open spec fn outcome(&self, ctx: ContextView, answer: ShellOutputView) -> Result<
        JsonView,
        CommandErrorView,
    > {
        concluded(None, answer, Ok(hostname_result(answer.stdout)))
    }

    proof fn refusal_stands(&self, ctx: ContextView, answer: ShellOutputView) {
    }

    proof fn failed_run_is_reported(&self, ctx: ContextView, answer: ShellOutputView) {
    }

    fn name(&self) -> &'static str {
        "hostname.read"
    }

    fn required_capability(&self) -> Capability {
        Capability::VmRead
    }

    fn prepare(&self, ctx: &CommandContext) -> Result<Step, CommandError> {
        let call = ShellCall { script: HOSTNAME_SCRIPT, args: Vec::new() };
        assert(texts(call.args@) =~= seq![]);
        Ok(Step { phase: "reading", percent: 50, shell: Some(call) })
    }

    fn execute(&self, ctx: &CommandContext, answer: &ShellOutput) -> Result<Json, CommandError> {
        require_success(answer)?;
        let result = object(
            vec![entry("hostname", Json::Text(trimmed(answer.stdout.as_str())))],
        );
        assert(result@->Object_0 =~= hostname_result(answer@.stdout)->Object_0);
        Ok(result)
    }
}

/// `/etc/os-release` and `uname -r`, in the shape of the Windows answer. A Linux
/// product appliance is a server and never a domain controller.
pub struct SystemIdentity;

/// The result of reading the identity: the document on the shell's output, which
/// must be an object.
pub open spec fn identity_result(document: JsonView) -> Result<JsonView, CommandErrorView> {
    match document {
        JsonView::Object(_) => Ok(document),
        _ => Err(shell_failure(1, "system.identity returned invalid JSON"@)),
    }
}

impl SystemIdentity {
    /// The end of the command, given the document on the shell's output.
    pub fn conclude(&self, document: Json) -> (r: Result<Json, CommandError>)
        ensures
            outcome_view(r) == identity_result(document@),
    {
        if !document.is_object() {
            return Err(unusable("system.identity returned invalid JSON"));
        }
        Ok(document)
    }
}

impl CommandHandler for SystemIdentity {
    open spec fn spec_name(&self) -> Seq<char> {
        "system.identity"@
    }

    open spec fn spec_capability(&self) -> Capability {
        Capability::VmRead
    }

    open spec fn step(&self, ctx: ContextView) -> Result<StepView, CommandErrorView> {
        Ok(running("reading system identity"@, 50, IDENTITY_SCRIPT@, seq![]))
    }

    open spec fn outcome(&self, ctx: ContextView, answer: ShellOutputView) -> Result<
        JsonView,
        CommandErrorView,
    > {
        concluded(None, answer, identity_result(document_on(answer.stdout)))
    }

    proof fn refusal_stands(&self, ctx: ContextView, answer: ShellOutputView) {
    }

    proof fn failed_run_is_reported(&self, ctx: ContextView, answer: ShellOutputView) {
    }

    fn name(&self) -> &'static str {
        "system.identity"
    }

    fn required_capability(&self) -> Capability {
        Capability::VmRead
    }

    fn prepare(&self, ctx: &CommandContext) -> Result<Step, CommandError> {
        let call = ShellCall { script: IDENTITY_SCRIPT, args: Vec::new() };
        assert(texts(call.args@) =~= seq![]);
        Ok(Step { phase: "reading system identity", percent: 50, shell: Some(call) })
    }

    fn execute(&self, ctx: &CommandContext, answer: &ShellOutput) -> Result<Json, CommandError> {
        require_success(answer)?;
        self.conclude(parse_json(answer.stdout.as_str()))
    }
}

/// Schedule a reboot after a grace window, so that the result gets out before
/// the machine goes down.
pub struct SystemReboot;

/// The grace window, in seconds.
pub open spec fn reboot_delay(p: Map<Seq<char>, Seq<char>>) -> Seq<char> {
    param_or(p, "delaySeconds"@, "10"@)
}

/// Why the parameters are refused, if they are.
pub open spec fn reboot_refusal(p: Map<Seq<char>, Seq<char>>) -> Option<CommandErrorView> {
    if !in_range(reboot_delay(p), 5, 120) {
        Some(refused("delaySeconds"@, "must be an integer in 5-120"@))
    } else {
        None
    }
}

/// The result of scheduling a reboot.
pub open spec fn reboot_result(p: Map<Seq<char>, Seq<char>>) -> JsonView {
    JsonView::Object(
        seq![
            ("rebooting"@, JsonView::Bool(true)),
            ("delay_seconds"@, JsonView::Text(reboot_delay(p))),
        ],
    )
}

impl SystemReboot {
    fn delay<'a>(&self, ctx: &'a CommandContext) -> (r: Result<&'a str, CommandError>)
        ensures
            match r {
                Ok(delay) => reboot_refusal(ctx@.params) is None && delay@ == reboot_delay(
                    ctx@.params,
                ),
                Err(error) => reboot_refusal(ctx@.params) == Some(error@),
            },
    {
        let delay = optional(ctx, "delaySeconds", "10");
        if !within(delay, 5, 120) {
            return Err(invalid("delaySeconds", "must be an integer in 5-120"));
        }
        Ok(delay)
    }
}

impl CommandHandler for SystemReboot {
    open spec fn spec_name(&self) -> Seq<char> {
        "system.reboot"@
    }

    open spec fn spec_capability(&self) -> Capability {
        Capability::VmProvision
    }

    open spec fn step(&self, ctx: ContextView) -> Result<StepView, CommandErrorView> {
        unless_refused(
            reboot_refusal(ctx.params),
            running("scheduling reboot"@, 50, REBOOT_SCRIPT@, seq![reboot_delay(ctx.params)]),
        )
    }

    open spec fn outcome(&self, ctx: ContextView, answer: ShellOutputView) -> Result<
        JsonView,
        CommandErrorView,
    > {
        concluded(reboot_refusal(ctx.params), answer, Ok(reboot_result(ctx.params)))
    }

    proof fn refusal_stands(&self, ctx: ContextView, answer: ShellOutputView) {
    }

    proof fn failed_run_is_reported(&self, ctx: ContextView, answer: ShellOutputView) {
    }

    fn name(&self) -> &'static str {
        "system.reboot"
    }

    fn required_capability(&self) -> Capability {
        Capability::VmProvision
    }

    fn prepare(&self, ctx: &CommandContext) -> Result<Step, CommandError> {
        let delay = self.delay(ctx)?;
        let call = ShellCall { script: REBOOT_SCRIPT, args: vec![delay.to_owned()] };
        assert(texts(call.args@) =~= seq![delay@]);
        Ok(Step { phase: "scheduling reboot", percent: 50, shell: Some(call) })
    }

    fn execute(&self, ctx: &CommandContext, answer: &ShellOutput) -> Result<Json, CommandError> {
        let delay = self.delay(ctx)?;
        require_success(answer)?;
        let result = object(
            vec![entry("rebooting", Json::Bool(true)), entry("delay_seconds", text(delay))],
        );
        assert(result@->Object_0 =~= reboot_result(ctx@.params)->Object_0);
        Ok(result)
    }
}

/// The time since boot, without running the shell: a boot is when a cold
/// interpreter is least to be trusted.
///
/// The Linux first boot registers no task to finish later, so none is ever
/// pending or running.
pub struct SystemBootInfo {
    uptime_ms: u64,
}

/// The result of reading the boot information.
pub open spec fn boot_info_result(uptime_ms: nat) -> JsonView {
    JsonView::Object(
        seq![
            ("uptimeS"@, JsonView::Number(uptime_ms / 1000)),
            ("finalizePending"@, JsonView::Bool(false)),
            ("finalizeRunning"@, JsonView::Bool(false)),
            (
                "raw"@,
                JsonView::Text(
                    "/proc/uptime "@ + decimal(uptime_ms / 1000)
                        + "s; no firstboot finalize task on Linux"@,
                ),
            ),
        ],
    )
}

impl SystemBootInfo {
    /// Milliseconds since boot.
    pub closed spec fn uptime(&self) -> nat {
        self.uptime_ms as nat
    }

    /// The handler on a machine that booted `uptime_ms` milliseconds ago.
    pub fn with_uptime(uptime_ms: u64) -> (r: SystemBootInfo)
        ensures
            r.uptime() == uptime_ms,
    {
        SystemBootInfo { uptime_ms }
    }
}

impl CommandHandler for SystemBootInfo {
    open spec fn spec_name(&self) -> Seq<char> {
        "system.boot_info"@
    }

    open spec fn spec_capability(&self) -> Capability {
        Capability::VmRead
    }

    open spec fn step(&self, ctx: ContextView) -> Result<StepView, CommandErrorView> {
        Ok(StepView { phase: "reading boot info"@, percent: 50, shell: None })
    }

    open spec fn outcome(&self, ctx: ContextView, answer: ShellOutputView) -> Result<
        JsonView,
        CommandErrorView,
    > {
        Ok(boot_info_result(self.uptime()))
    }

    proof fn refusal_stands(&self, ctx: ContextView, answer: ShellOutputView) {
    }

    proof fn failed_run_is_reported(&self, ctx: ContextView, answer: ShellOutputView) {
    }

    fn name(&self) -> &'static str {
        "system.boot_info"
    }

    fn required_capability(&self) -> Capability {
        Capability::VmRead
    }

    fn prepare(&self, ctx: &CommandContext) -> Result<Step, CommandError> {
        Ok(Step { phase: "reading boot info", percent: 50, shell: None })
    }

    fn execute(&self, ctx: &CommandContext, answer: &ShellOutput) -> Result<Json, CommandError> {
        let uptime_s: u64 = self.uptime_ms / 1000;
        let mut raw = "/proc/uptime ".to_owned();
        raw.append(to_decimal(uptime_s).as_str());
        raw.append("s; no firstboot finalize task on Linux");
        let result = object(
            vec![
                entry("uptimeS", Json::Number(uptime_s)),
                entry("finalizePending", Json::Bool(false)),
                entry("finalizeRunning", Json::Bool(false)),
                entry("raw", Json::Text(raw)),
            ],
        );
        assert(result@->Object_0 =~= boot_info_result(self.uptime())->Object_0);
        Ok(result)
    }
}

/// Read one relayed file as base64, with its SHA-256.
pub struct FileRead;

/// Why the path is refused, if it is.
pub open spec fn path_refusal(p: Map<Seq<char>, Seq<char>>) -> Option<CommandErrorView> {
    if !p.contains_key("path"@) {
        Some(missing("path"@))
    } else if !is_relay_path(p["path"@]) {
        Some(relay_path_refused())
    } else {
        None
    }
}

/// The result of reading a file, from its path and the document on the shell's
/// output.
pub open spec fn file_read_result(path: Seq<char>, document: JsonView) -> Result<
    JsonView,
    CommandErrorView,
> {
    match member(document, "contentB64"@) {
        JsonView::Text(_) => Ok(
            JsonView::Object(
                seq![
                    ("path"@, JsonView::Text(path)),
                    ("contentB64"@, member(document, "contentB64"@)),
                    ("sha256"@, member(document, "sha256"@)),
                    ("size"@, member(document, "size"@)),
                ],
            ),
        ),
        _ => Err(refused("path"@, "file could not be read"@)),
    }
}

/// The path to relay.
fn required_relay_path<'a>(ctx: &'a CommandContext) -> (r: Result<&'a str, CommandError>)
    ensures
        match r {
            Ok(path) => path_refusal(ctx@.params) is None && path@ == ctx@.params["path"@],
            Err(error) => path_refusal(ctx@.params) == Some(error@),
        },
{
    let path = required(ctx, "path")?;
    if !relay_path_ok(path) {
        return Err(invalid_relay_path());
    }
    Ok(path)
}

impl FileRead {
    fn report(&self, path: &str, document: &Json) -> (r: Result<Json, CommandError>)
        ensures
            outcome_view(r) == file_read_result(path@, document@),
    {
        let content = document.get("contentB64");
        match content {
            Json::Text(_) => {},
            _ => {
                return Err(invalid("path", "file could not be read"));
            },
        }
        let result = object(
            vec![
                entry("path", text(path)),
                entry("contentB64", content),
                entry("sha256", document.get("sha256")),
                entry("size", document.get("size")),
            ],
        );
        assert(result@->Object_0 =~= file_read_result(path@, document@)->Ok_0->Object_0);
        Ok(result)
    }

    /// The end of the command, given the document on the shell's output.
    pub fn conclude(&self, ctx: &CommandContext, document: &Json) -> (r: Result<Json, CommandError>)
        ensures
            outcome_view(r) == judged(
                path_refusal(ctx@.params),
                file_read_result(ctx@.params["path"@], document@),
            ),
    {
        let path = required_relay_path(ctx)?;
        self.report(path, document)
    }
}

impl CommandHandler for FileRead {
    open spec fn spec_name(&self) -> Seq<char> {
        "file.read"@
    }

    open spec fn spec_capability(&self) -> Capability {
        Capability::VmProvision
    }

    open spec fn step(&self, ctx: ContextView) -> Result<StepView, CommandErrorView> {
        unless_refused(
            path_refusal(ctx.params),
            running(
                "reading file"@,
                30,
                FILE_READ_SCRIPT@,
                seq![ctx.params["path"@], decimal(RELAY_CAP_BYTES as nat)],
            ),
        )
    }

    open spec fn outcome(&self, ctx: ContextView, answer: ShellOutputView) -> Result<
        JsonView,
        CommandErrorView,
    > {
        concluded(
            path_refusal(ctx.params),
            answer,
            file_read_result(ctx.params["path"@], document_on(answer.stdout)),
        )
    }

    proof fn refusal_stands(&self, ctx: ContextView, answer: ShellOutputView) {
    }

    proof fn failed_run_is_reported(&self, ctx: ContextView, answer: ShellOutputView) {
    }

    fn name(&self) -> &'static str {
        "file.read"
    }

    fn required_capability(&self) -> Capability {
        Capability::VmProvision
    }

    fn prepare(&self, ctx: &CommandContext) -> Result<Step, CommandError> {
        let path = required_relay_path(ctx)?;
        let call = ShellCall {
            script: FILE_READ_SCRIPT,
            args: vec![path.to_owned(), to_decimal(RELAY_CAP_BYTES)],
        };
        assert(texts(call.args@) =~= self.step(ctx@)->Ok_0.shell->Some_0.args);
        Ok(Step { phase: "reading file", percent: 30, shell: Some(call) })
    }

    fn execute(&self, ctx: &CommandContext, answer: &ShellOutput) -> Result<Json, CommandError> {
        let _ = required_relay_path(ctx)?;
        require_success(answer)?;
        self.conclude(ctx, &parse_json(answer.stdout.as_str()))
    }
}

/// Write one relayed file from base64, and read its SHA-256 back.
pub struct FileWrite;

/// Why the parameters are refused, if they are.
pub open spec fn file_write_refusal(p: Map<Seq<char>, Seq<char>>) -> Option<CommandErrorView> {
    if path_refusal(p) is Some {
        path_refusal(p)
    } else if !p.contains_key("contentB64"@) {
        Some(missing("contentB64"@))
    } else if byte_len(p["contentB64"@]) > RELAY_CAP_B64 {
        Some(refused("contentB64"@, "exceeds the 256 KiB relay cap"@))
    } else if p["contentB64"@].len() == 0 || !only(p["contentB64"@], "+/="@) {
        Some(refused("contentB64"@, "must be base64"@))
    } else {
        None
    }
}

/// The result of writing a file.
pub open spec fn file_write_result(path: Seq<char>, stdout: Seq<char>) -> JsonView {
    JsonView::Object(
        seq![
            ("path"@, JsonView::Text(path)),
            ("sha256"@, JsonView::Text(trim(stdout))),
        ],
    )
}

impl FileWrite {
    fn request<'a>(&self, ctx: &'a CommandContext) -> (r: Result<(&'a str, &'a str), CommandError>)
        ensures
            match r {
                Ok((path, content)) => {
                    &&& file_write_refusal(ctx@.params) is None
                    &&& path@ == ctx@.params["path"@]
                    &&& content@ == ctx@.params["contentB64"@]
                },
                Err(error) => file_write_refusal(ctx@.params) == Some(error@),
            },
    {
        let path = required_relay_path(ctx)?;
        let content = required(ctx, "contentB64")?;
        if utf8_len(content) as u64 > RELAY_CAP_B64 {
            return Err(invalid("contentB64", "exceeds the 256 KiB relay cap"));
        }
        if content.is_empty() || !made_of(content, "+/=") {
            return Err(invalid("contentB64", "must be base64"));
        }
        Ok((path, content))
    }
}

impl CommandHandler for FileWrite {
    open spec fn spec_name(&self) -> Seq<char> {
        "file.write"@
    }

    open spec fn spec_capability(&self) -> Capability {
        Capability::VmProvision
    }

    open spec fn step(&self, ctx: ContextView) -> Result<StepView, CommandErrorView> {
        unless_refused(
            file_write_refusal(ctx.params),
            running(
                "writing file"@,
                30,
                FILE_WRITE_SCRIPT@,
                seq![ctx.params["path"@], ctx.params["contentB64"@]],
            ),
        )
    }

    open spec fn outcome(&self, ctx: ContextView, answer: ShellOutputView) -> Result<
        JsonView,
        CommandErrorView,
    > {
        concluded(
            file_write_refusal(ctx.params),
            answer,
            Ok(file_write_result(ctx.params["path"@], answer.stdout)),
        )
    }

    proof fn refusal_stands(&self, ctx: ContextView, answer: ShellOutputView) {
    }

    proof fn failed_run_is_reported(&self, ctx: ContextView, answer: ShellOutputView) {
    }

    fn name(&self) -> &'static str {
        "file.write"
    }

    fn required_capability(&self) -> Capability {
        Capability::VmProvision
    }

    fn prepare(&self, ctx: &CommandContext) -> Result<Step, CommandError> {
        let (path, content) = self.request(ctx)?;
        let call = ShellCall {
            script: FILE_WRITE_SCRIPT,
            args: vec![path.to_owned(), content.to_owned()],
        };
        assert(texts(call.args@) =~= self.step(ctx@)->Ok_0.shell->Some_0.args);
        Ok(Step { phase: "writing file", percent: 30, shell: Some(call) })
    }

    fn execute(&self, ctx: &CommandContext, answer: &ShellOutput) -> Result<Json, CommandError> {
        let (path, _) = self.request(ctx)?;
        require_success(answer)?;
        let result = object(
            vec![
                entry("path", text(path)),
                entry("sha256", Json::Text(trimmed(answer.stdout.as_str()))),
            ],
        );
        assert(result@->Object_0 =~= file_write_result(ctx@.params["path"@], answer@.stdout)->Object_0);
        Ok(result)
    }
}

/// A path below one of the relay's two directories that no component takes back
/// up.
pub open spec fn stays_in_relay(path: Seq<char>) -> bool {
    &&& lies_under(path, PRODUCT_TREE@) || lies_under(path, TRANSFER_DIR@)
    &&& !pieces(path, Separator::Char('/')).contains(".."@)
}

/// Files are only ever read from and written to paths that stay in the relay's
/// directories.
pub proof fn relay_stays_in_its_directories(ctx: ContextView)
    ensures
        FileRead.step(ctx) matches Ok(step) ==> stays_in_relay(step.shell->Some_0.args[0]),
        FileWrite.step(ctx) matches Ok(step) ==> stays_in_relay(step.shell->Some_0.args[0]),
{
    let path = ctx.params["path"@];
    if is_relay_path(path) {
        dotless_paths_do_not_climb(path);
    }
}

/// The number of base64 characters for a number of bytes, padding included.
pub open spec fn base64_len(bytes: nat) -> nat {
    (bytes + 2) / 3 * 4
}

/// The two caps of the relay are one: the largest file that may be read takes as
/// many base64 characters as may be written, and a smaller one takes no more.
pub proof fn relay_caps_agree(bytes: nat)
    requires
        bytes <= RELAY_CAP_BYTES,
    ensures
        base64_len(bytes) <= RELAY_CAP_B64,
        base64_len(RELAY_CAP_BYTES as nat) == RELAY_CAP_B64,
{
}

/// What may be read may be written: a file of at most the relay's cap, in base64
/// and not empty, is accepted for every path that it could have been read from.
pub proof fn what_is_read_can_be_written(ctx: ContextView, content: Seq<char>, bytes: nat)
    requires
        FileRead.step(ctx) is Ok,
        bytes <= RELAY_CAP_BYTES,
        0 < content.len() <= base64_len(bytes),
        only(content, "+/="@),
    ensures
        FileWrite.step(
            ContextView {
                params: ctx.params.insert("contentB64"@, content),
                records: ctx.records,
            },
        ) == Ok::<StepView, CommandErrorView>(
            running(
                "writing file"@,
                30,
                FILE_WRITE_SCRIPT@,
                seq![ctx.params["path"@], content],
            ),
        ),
{
    let p = ctx.params.insert("contentB64"@, content);
    reveal_strlit("path");
    reveal_strlit("contentB64");
    assert("path"@.len() == 4 && "contentB64"@.len() == 10);
    assert(p["path"@] == ctx.params["path"@]);
    relay_caps_agree(bytes);
    reveal_strlit("+/=");
    assert forall|i: int| 0 <= i < content.len() implies (#[trigger] content[i]) as nat <= 127 by {
        if !is_alphanumeric(content[i]) {
            let at = choose|at: int| 0 <= at < "+/="@.len() && "+/="@[at] == content[i];
            assert(at == 0 || at == 1 || at == 2);
        }
    }
    is_ascii_chars_encode_utf8(content);
}

/// The boot information takes no shell and never has a task to wait for, whatever
/// it was asked with.
pub proof fn boot_info_never_waits(
    handler: SystemBootInfo,
    ctx: ContextView,
    answer: ShellOutputView,
)
    ensures
        handler.step(ctx) matches Ok(step) && step.shell is None,
        handler.outcome(ctx, answer) matches Ok(result) && {
            &&& member(result, "uptimeS"@) == JsonView::Number(handler.uptime() / 1000)
            &&& member(result, "finalizePending"@) == JsonView::Bool(false)
            &&& member(result, "finalizeRunning"@) == JsonView::Bool(false)
        },
{
    let list = handler.outcome(ctx, answer)->Ok_0->Object_0;
    reveal_strlit("uptimeS");
    reveal_strlit("finalizePending");
    reveal_strlit("finalizeRunning");
    assert("uptimeS"@.len() == 7 && "finalizePending"@.len() == 15 && "finalizeRunning"@.len()
        == 15 && "finalizePending"@[8] != "finalizeRunning"@[8]);
    lemma_value_at(list, 0);
    lemma_value_at(list, 1);
    lemma_value_at(list, 2);
}

/// The uptime that is reported never goes back while the machine stays up, and has
/// gone up once a second has passed.
pub proof fn reported_uptime_advances(early: SystemBootInfo, late: SystemBootInfo)
    requires
        early.uptime() <= late.uptime(),
    ensures
        member(boot_info_result(early.uptime()), "uptimeS"@) matches JsonView::Number(before) && (
        member(boot_info_result(late.uptime()), "uptimeS"@) matches JsonView::Number(after)
            && before <= after && (early.uptime() + 1000 <= late.uptime() ==> before < after)),
{
    lemma_value_at(boot_info_result(early.uptime())->Object_0, 0);
    lemma_value_at(boot_info_result(late.uptime())->Object_0, 0);
}

/// A reboot that is scheduled leaves between 5 and 120 seconds for the result to
/// get out.
pub proof fn reboot_leaves_a_grace_window(ctx: ContextView)
    ensures
        SystemReboot.step(ctx) matches Ok(step) ==> {
            let args = step.shell->Some_0.args;
            args.len() == 1 && (unsigned(args[0]) matches Some(seconds) && 5 <= seconds <= 120)
        },
{
}

/// The identity of a machine is always an object.
pub proof fn identity_is_an_object(ctx: ContextView, answer: ShellOutputView)
    ensures
        SystemIdentity.outcome(ctx, answer) matches Ok(result) ==> result is Object,
{
}

} // verus!
