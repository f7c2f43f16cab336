//! CertSecure Manager provisioning: the Linux product half of the commands.
//!
//! `certsecure.install` runs the vendor's `install-linux.sh` as it is. Only the
//! four things that the installer cannot do for itself stand here: the `apt`
//! list refresh it needs before its first package (`apt.refresh`), the
//! `/etc/hosts` entries the lab has no resolver for yet
//! (`certsecure.write_hosts`), the TLS certificate it prompts for but does not
//! generate (`certsecure.make_cert`), and the file modes it leaves
//! world-readable (`certsecure.harden`).

use vstd::prelude::*;

use crate::authz::Capability;
use crate::commands::hosts::{
    block_lines_start_with_digits, block_reads_back, entry_lines, host_entries, hosts_block,
    hosts_lines, hosts_refusal, parse_hosts_entries,
};
use crate::commands::linux::is_relay_path;
use crate::commands::paths::{
    has_double_dot, inside_paths_resolve_inside, is_path_inside, lies_under, path_inside,
    resolved_path, PRODUCT_TREE,
};
use crate::commands::util::{
    all_dns_names, are_dns_names, concluded, document_on, invalid, is_dns_name, judged, missing,
    optional, optional_text, param_or, parse_json, refused, require_success, required,
    shell_failure, unless_refused, unusable, valid_dns_name,
};
use crate::ipv4::{is_loose_octet, is_loose_quad, valid_ipv4};
use crate::json::{
    entry, lemma_value_at, member, object, text, text_array, text_values, Json, JsonView,
};
use crate::number::{in_range, parse_up_to, unsigned, within};
use crate::powershell::{ShellCall, ShellOutput, ShellOutputView};
use crate::registry::{
    outcome_view, running, CommandContext, CommandError, CommandErrorView, CommandHandler,
    ContextView, Step, StepView,
};
use crate::split::{
    items, items_are_plain, join, join_undoes_split, joined, lemma_joined_chars, list_items,
    pieces, separates, split_undoes_join, split_words, trim, trimmed, unbroken, words, Separator,
};
use crate::text::{
    begins_with, chars_of, is_digit, made_of, named_within, only, text_between, texts,
};

verus! {

/// Where the product tree is unpacked. Fixed rather than a parameter: it is also
/// what the `file.*` relay allows, and the installer derives its own paths from
/// its working directory.
pub const INSTALL_DIR: &'static str = "/opt/certsecure-manager";

/// The lines around the managed `/etc/hosts` block, which a later run replaces
/// whole.
pub const HOSTS_BEGIN: &'static str = "# BEGIN pki-executor managed entries";

pub const HOSTS_END: &'static str = "# END pki-executor managed entries";

pub const APT_REFRESH_SCRIPT: &'static str = r#"set -eu
export DEBIAN_FRONTEND=noninteractive
apt-get update
"#;

pub const WRITE_HOSTS_SCRIPT: &'static str = r#"set -eu
begin="$1"
end="$2"
block="$3"
tmp="$(mktemp)"
# Drop any previous managed block, then append the current one. sed's range
# form deletes an unterminated block to EOF too, so a half-written file from an
# interrupted run converges rather than accumulating.
sed "/^${begin}\$/,/^${end}\$/d" /etc/hosts > "$tmp"
{
  printf '%s\n' "$begin"
  printf '%s\n' "$block"
  printf '%s\n' "$end"
} >> "$tmp"
# Preserve /etc/hosts' own mode and ownership rather than mktemp's 0600, which
# would make the file unreadable to every non-root resolver on the box.
chmod 0644 "$tmp"
chown root:root "$tmp"
cat "$tmp" > /etc/hosts
rm -f "$tmp"
grep -c . /etc/hosts
"#;

pub const MAKE_CERT_SCRIPT: &'static str = r#"set -eu
cert_path="$1"
key_path="$2"
subject_cn="$3"
san="$4"
days="$5"
mkdir -p "$(dirname "$cert_path")" "$(dirname "$key_path")"
openssl req -x509 -newkey rsa:2048 -sha256 -nodes \
  -days "$days" \
  -keyout "$key_path" -out "$cert_path" \
  -subj "/CN=${subject_cn}" \
  -addext "subjectAltName=${san}" \
  -addext "basicConstraints=critical,CA:FALSE" \
  -addext "keyUsage=critical,digitalSignature,keyEncipherment" \
  -addext "extendedKeyUsage=serverAuth" >/dev/null 2>&1
chmod 0600 "$key_path"
chmod 0644 "$cert_path"
printf '{"contentB64":"%s","sha256":"%s","notAfter":"%s"}' \
  "$(openssl x509 -in "$cert_path" -outform DER | base64 -w0)" \
  "$(openssl x509 -in "$cert_path" -outform DER | sha256sum | cut -d' ' -f1)" \
  "$(openssl x509 -in "$cert_path" -noout -enddate | cut -d= -f2)"
"#;

pub const INSTALL_SCRIPT: &'static str = r#"set -eu
install_dir="$1"
cd "$install_dir"
chmod +x ./install-linux.sh
# The six read_inputs prompts, in order: frontend host, backend host, SSL
# certificate path, SSL private key path, Keycloak host, Keycloak realm.
printf '%s\n%s\n%s\n%s\n%s\n%s\n' "$2" "$3" "$4" "$5" "$6" "$7" \
  | ./install-linux.sh
# The installer's own log is the record of what happened; echo its tail so a
# failed step carries something diagnosable in the op error.
tail -n 5 "${install_dir}/installation-logs.log" 2>/dev/null || true
"#;

pub const VERIFY_SCRIPT: &'static str = r#"set -eu
probe() {
  [ -z "$1" ] && { printf '0'; return; }
  curl -sk -o /dev/null -m 10 -w '%{http_code}' "$1" 2>/dev/null || printf '000'
}
printf '{"frontendStatus":"%s","keycloakStatus":"%s"}'   "$(probe "$1")" "$(probe "${2:-}")"
"#;

pub const HARDEN_SCRIPT: &'static str = r#"set -eu
install_dir="$1"
shift
changed=""
while [ "$#" -gt 0 ]; do
  rel="$1"
  mode="$2"
  shift 2
  path="${install_dir}/${rel}"
  if [ -f "$path" ]; then
    chown root:root "$path"
    chmod "$mode" "$path"
    changed="${changed}${rel} "
  fi
done
printf '%s' "$changed"
"#;

/// `apt-get update`.
///
/// A step of its own: the golden image's package lists are stale enough that
/// every build dependency is gone from its mirror, and a refresh that fails
/// should fail under its own name.
pub struct AptRefresh;

/// The result of a refresh.
pub open spec fn refresh_result(stdout: Seq<char>) -> JsonView {
    JsonView::Object(
        seq![
            ("refreshed"@, JsonView::Bool(true)),
            ("raw"@, JsonView::Text(trim(stdout))),
        ],
    )
}

impl CommandHandler for AptRefresh {
    open spec fn spec_name(&self) -> Seq<char> {
        "apt.refresh"@
    }

    open spec fn spec_capability(&self) -> Capability {
        Capability::VmProvision
    }

    open spec fn step(&self, ctx: ContextView) -> Result<StepView, CommandErrorView> {
        Ok(running("refreshing package lists"@, 30, APT_REFRESH_SCRIPT@, seq![]))
    }

    open spec fn outcome(&self, ctx: ContextView, answer: ShellOutputView) -> Result<
        JsonView,
        CommandErrorView,
    > {
        concluded(None, answer, Ok(refresh_result(answer.stdout)))
    }

    proof fn refusal_stands(&self, ctx: ContextView, answer: ShellOutputView) {
    }

    proof fn failed_run_is_reported(&self, ctx: ContextView, answer: ShellOutputView) {
    }

    fn name(&self) -> &'static str {
        "apt.refresh"
    }

    fn required_capability(&self) -> Capability {
        Capability::VmProvision
    }

    fn prepare(&self, ctx: &CommandContext) -> Result<Step, CommandError> {
        let call = ShellCall { script: APT_REFRESH_SCRIPT, args: Vec::new() };
        assert(texts(call.args@) =~= seq![]);
        Ok(Step { phase: "refreshing package lists", percent: 30, shell: Some(call) })
    }

    fn execute(&self, ctx: &CommandContext, answer: &ShellOutput) -> Result<Json, CommandError> {
        require_success(answer)?;
        let result = object(
            vec![
                entry("refreshed", Json::Bool(true)),
                entry("raw", Json::Text(trimmed(answer.stdout.as_str()))),
            ],
        );
        assert(result@->Object_0 =~= refresh_result(answer@.stdout)->Object_0);
        Ok(result)
    }
}

/// Rewrite this guest's managed `/etc/hosts` block.
///
/// The installer contacts the product's own names during the install itself,
/// before anything has verified DNS end to end; hosts entries make that
/// independent of the domain controller being reachable just then.
pub struct CertSecureWriteHosts;

/// Why the parameters are refused, if they are.
pub open spec fn write_hosts_refusal(p: Map<Seq<char>, Seq<char>>) -> Option<CommandErrorView> {
    if !p.contains_key("entries"@) {
        Some(missing("entries"@))
    } else {
        hosts_refusal(p["entries"@])
    }
}

/// The number on a shell's output, zero where there is none that fits 32 bits.
pub open spec fn count_on(stdout: Seq<char>) -> nat {
    if in_range(trim(stdout), 0, 0xffff_ffff) {
        unsigned(trim(stdout)).unwrap()
    } else {
        0
    }
}

/// The result of writing the block: its number of entries, and the number of
/// lines that the file then had.
pub open spec fn write_hosts_result(raw: Seq<char>, stdout: Seq<char>) -> JsonView {
    JsonView::Object(
        seq![
            ("entries"@, JsonView::Number(host_entries(raw).len())),
            ("totalLines"@, JsonView::Number(count_on(stdout))),
        ],
    )
}

impl CertSecureWriteHosts {
    fn lines(&self, ctx: &CommandContext) -> (r: Result<Vec<String>, CommandError>)
        ensures
            match r {
                Ok(lines) => write_hosts_refusal(ctx@.params) is None && texts(lines@)
                    == entry_lines(host_entries(ctx@.params["entries"@])),
                Err(error) => write_hosts_refusal(ctx@.params) == Some(error@),
            },
    {
        hosts_lines(required(ctx, "entries")?)
    }
}

impl CommandHandler for CertSecureWriteHosts {
    open spec fn spec_name(&self) -> Seq<char> {
        "certsecure.write_hosts"@
    }

    open spec fn spec_capability(&self) -> Capability {
        Capability::VmProvision
    }

    open spec fn step(&self, ctx: ContextView) -> Result<StepView, CommandErrorView> {
        unless_refused(
            write_hosts_refusal(ctx.params),
            running(
                "writing hosts entries"@,
                50,
                WRITE_HOSTS_SCRIPT@,
                seq![HOSTS_BEGIN@, HOSTS_END@, hosts_block(ctx.params["entries"@])],
            ),
        )
    }

    open spec fn outcome(&self, ctx: ContextView, answer: ShellOutputView) -> Result<
        JsonView,
        CommandErrorView,
    > {
        concluded(
            write_hosts_refusal(ctx.params),
            answer,
            Ok(write_hosts_result(ctx.params["entries"@], answer.stdout)),
        )
    }

    proof fn refusal_stands(&self, ctx: ContextView, answer: ShellOutputView) {
    }

    proof fn failed_run_is_reported(&self, ctx: ContextView, answer: ShellOutputView) {
    }

    fn name(&self) -> &'static str {
        "certsecure.write_hosts"
    }

    fn required_capability(&self) -> Capability {
        Capability::VmProvision
    }

    fn prepare(&self, ctx: &CommandContext) -> Result<Step, CommandError> {
        let block = parse_hosts_entries(required(ctx, "entries")?)?;
        let ghost written = block@;
        let call = ShellCall {
            script: WRITE_HOSTS_SCRIPT,
            args: vec![HOSTS_BEGIN.to_owned(), HOSTS_END.to_owned(), block],
        };
        assert(texts(call.args@) =~= seq![HOSTS_BEGIN@, HOSTS_END@, written]);
        Ok(Step { phase: "writing hosts entries", percent: 50, shell: Some(call) })
    }

    fn execute(&self, ctx: &CommandContext, answer: &ShellOutput) -> Result<Json, CommandError> {
        let lines = self.lines(ctx)?;
        require_success(answer)?;
        let total: u64 = match parse_up_to(trimmed(answer.stdout.as_str()).as_str(), 0xffff_ffff) {
            Some(n) => n,
            None => 0,
        };
        assert(texts(lines@).len() == lines@.len());
        let result = object(
            vec![
                entry("entries", Json::Number(lines.len() as u64)),
                entry("totalLines", Json::Number(total)),
            ],
        );
        assert(result@->Object_0 =~= write_hosts_result(
            ctx@.params["entries"@],
            answer@.stdout,
        )->Object_0);
        Ok(result)
    }
}

/// Generate the product's TLS certificate: self-signed RSA-2048/SHA-256, with a
/// subject alternative name for every name the service answers to, and one for
/// its address.
///
/// Deliberately not issued by the lab CA: its ML-DSA keys are nothing that a
/// shipping browser validates in a TLS chain. The certificate is trusted by
/// pushing it into each Windows node's machine root store instead, which is why
/// the result carries it whole, under `contentB64`.
pub struct CertSecureMakeCert;

/// An absolute path to something inside the product's install directory: below it,
/// and with no component that takes the path out of it again.
pub open spec fn in_install_dir(path: Seq<char>) -> bool {
    is_path_inside(path, PRODUCT_TREE@)
}

/// Why a certificate path or a key path is refused, if one is.
pub open spec fn paths_refusal(p: Map<Seq<char>, Seq<char>>) -> Option<CommandErrorView> {
    if !p.contains_key("certPath"@) {
        Some(missing("certPath"@))
    } else if !p.contains_key("keyPath"@) {
        Some(missing("keyPath"@))
    } else if !in_install_dir(p["certPath"@]) {
        Some(
            refused(
                "certPath"@,
                "must be an absolute path under the product install directory"@,
            ),
        )
    } else if !in_install_dir(p["keyPath"@]) {
        Some(
            refused("keyPath"@, "must be an absolute path under the product install directory"@),
        )
    } else {
        None
    }
}

/// The DNS names that a certificate is for.
pub open spec fn cert_names(p: Map<Seq<char>, Seq<char>>) -> Seq<Seq<char>> {
    items(p["names"@])
}

/// The address that a certificate is for, empty for none.
pub open spec fn cert_address(p: Map<Seq<char>, Seq<char>>) -> Seq<char> {
    param_or(p, "ip"@, Seq::empty())
}

/// How many days a certificate is to be good for.
pub open spec fn cert_days(p: Map<Seq<char>, Seq<char>>) -> Seq<char> {
    param_or(p, "days"@, "825"@)
}

/// Why the parameters are refused, if they are.
pub open spec fn make_cert_refusal(p: Map<Seq<char>, Seq<char>>) -> Option<CommandErrorView> {
    if !p.contains_key("names"@) {
        Some(missing("names"@))
    } else if cert_names(p).len() == 0 || !are_dns_names(cert_names(p)) {
        Some(refused("names"@, "must be a comma-separated list of DNS names"@))
    } else if cert_names(p).len() > 8 {
        Some(refused("names"@, "at most 8 subject alternative names"@))
    } else if cert_address(p).len() > 0 && !is_loose_quad(cert_address(p)) {
        Some(refused("ip"@, "must be an IPv4 address"@))
    } else if paths_refusal(p) is Some {
        paths_refusal(p)
    } else if !in_range(cert_days(p), 1, 3650) {
        Some(refused("days"@, "must be an integer in 1-3650"@))
    } else {
        None
    }
}

/// The subject alternative names: every DNS name, then the address if there is
/// one.
pub open spec fn alternative_names(names: Seq<Seq<char>>, address: Seq<char>) -> Seq<Seq<char>> {
    names.map_values(|name: Seq<char>| "DNS:"@ + name) + if address.len() > 0 {
        seq!["IP:"@ + address]
    } else {
        seq![]
    }
}

/// The result of generating a certificate, from the parameters and the document
/// on the shell's output.
pub open spec fn make_cert_result(p: Map<Seq<char>, Seq<char>>, document: JsonView) -> Result<
    JsonView,
    CommandErrorView,
> {
    match member(document, "contentB64"@) {
        JsonView::Text(_) => Ok(
            JsonView::Object(
                seq![
                    ("certPath"@, JsonView::Text(p["certPath"@])),
                    ("keyPath"@, JsonView::Text(p["keyPath"@])),
                    ("subject"@, JsonView::Text(cert_names(p)[0])),
                    (
                        "sans"@,
                        JsonView::Array(
                            text_values(alternative_names(cert_names(p), cert_address(p))),
                        ),
                    ),
                    ("contentB64"@, member(document, "contentB64"@)),
                    ("sha256"@, member(document, "sha256"@)),
                    ("notAfter"@, member(document, "notAfter"@)),
                ],
            ),
        ),
        _ => Err(shell_failure(1, "certsecure.make_cert produced no certificate"@)),
    }
}

/// Check the certificate path and the key path.
fn required_paths<'a>(ctx: &'a CommandContext) -> (r: Result<(&'a str, &'a str), CommandError>)
    ensures
        match r {
            Ok((cert_path, key_path)) => {
                &&& paths_refusal(ctx@.params) is None
                &&& cert_path@ == ctx@.params["certPath"@]
                &&& key_path@ == ctx@.params["keyPath"@]
            },
            Err(error) => paths_refusal(ctx@.params) == Some(error@),
        },
{
    let cert_path = required(ctx, "certPath")?;
    let key_path = required(ctx, "keyPath")?;
    if !path_inside(cert_path, PRODUCT_TREE) {
        return Err(
            invalid("certPath", "must be an absolute path under the product install directory"),
        );
    }
    if !path_inside(key_path, PRODUCT_TREE) {
        return Err(
            invalid("keyPath", "must be an absolute path under the product install directory"),
        );
    }
    Ok((cert_path, key_path))
}

/// The subject alternative names for `names` and `address`.
fn list_alternative_names(names: &Vec<String>, address: &str) -> (r: Vec<String>)
    ensures
        texts(r@) == alternative_names(texts(names@), address@),
{
    let mut out: Vec<String> = Vec::new();
    let mut i: usize = 0;
    while i < names.len()
        invariant
            i <= names@.len(),
            out@.len() == i,
            forall|k: int| 0 <= k < i ==> (#[trigger] out@[k])@ == "DNS:"@ + names@[k]@,
        decreases names.len() - i,
    {
        let mut name = "DNS:".to_owned();
        name.append(names[i].as_str());
        out.push(name);
        i += 1;
    }
    let ghost list = out@;
    let ghost dns = texts(names@).map_values(|name: Seq<char>| "DNS:"@ + name);
    assert(texts(list) =~= dns);
    if !address.is_empty() {
        let mut name = "IP:".to_owned();
        name.append(address);
        out.push(name);
        assert(texts(out@) =~= dns + seq!["IP:"@ + address@]);
    } else {
        assert(texts(out@) =~= dns + seq![]);
    }
    out
}

/// The checked parameters of a certificate.
struct CertRequest<'a> {
    names: Vec<String>,
    sans: Vec<String>,
    cert_path: &'a str,
    key_path: &'a str,
    days: &'a str,
}

impl<'a> CertRequest<'a> {
    /// The request holds what the accepted parameters ask for.
    spec fn asks(&self, p: Map<Seq<char>, Seq<char>>) -> bool {
        &&& make_cert_refusal(p) is None
        &&& texts(self.names@) == cert_names(p)
        &&& texts(self.sans@) == alternative_names(cert_names(p), cert_address(p))
        &&& self.cert_path@ == p["certPath"@]
        &&& self.key_path@ == p["keyPath"@]
        &&& self.days@ == cert_days(p)
    }
}

impl CertSecureMakeCert {
    fn request<'a>(&self, ctx: &'a CommandContext) -> (r: Result<CertRequest<'a>, CommandError>)
        ensures
            match r {
                Ok(request) => request.asks(ctx@.params),
                Err(error) => make_cert_refusal(ctx@.params) == Some(error@),
            },
    {
        let names = list_items(required(ctx, "names")?);
        assert(texts(names@).skip(0) =~= texts(names@));
        assert(texts(names@).len() == names@.len());
        if names.len() == 0 || !all_dns_names(&names, 0) {
            return Err(invalid("names", "must be a comma-separated list of DNS names"));
        }
        if names.len() > 8 {
            return Err(invalid("names", "at most 8 subject alternative names"));
        }
        let address = optional_text(ctx, "ip");
        if !address.is_empty() && !valid_ipv4(address) {
            return Err(invalid("ip", "must be an IPv4 address"));
        }
        let (cert_path, key_path) = required_paths(ctx)?;
        let days = optional(ctx, "days", "825");
        if !within(days, 1, 3650) {
            return Err(invalid("days", "must be an integer in 1-3650"));
        }
        let sans = list_alternative_names(&names, address);
        Ok(CertRequest { names, sans, cert_path, key_path, days })
    }

    fn report<'a>(
        &self,
        request: CertRequest<'a>,
        document: &Json,
        Ghost(p): Ghost<Map<Seq<char>, Seq<char>>>,
    ) -> (r: Result<Json, CommandError>)
        requires
            request.asks(p),
        ensures
            outcome_view(r) == make_cert_result(p, document@),
    {
        let content = document.get("contentB64");
        match content {
            Json::Text(_) => {},
            _ => {
                return Err(unusable("certsecure.make_cert produced no certificate"));
            },
        }
        assert(texts(request.names@)[0] == request.names@[0]@);
        let result = object(
            vec![
                entry("certPath", text(request.cert_path)),
                entry("keyPath", text(request.key_path)),
                entry("subject", Json::Text(request.names[0].clone())),
                entry("sans", text_array(&request.sans)),
                entry("contentB64", content),
                entry("sha256", document.get("sha256")),
                entry("notAfter", document.get("notAfter")),
            ],
        );
        assert(result@->Object_0 =~= make_cert_result(p, document@)->Ok_0->Object_0);
        Ok(result)
    }

    /// The end of the command, given the document on the shell's output.
    pub fn conclude(&self, ctx: &CommandContext, document: &Json) -> (r: Result<Json, CommandError>)
        ensures
            outcome_view(r) == judged(
                make_cert_refusal(ctx@.params),
                make_cert_result(ctx@.params, document@),
            ),
    {
        let request = self.request(ctx)?;
        self.report(request, document, Ghost(ctx@.params))
    }
}

impl CommandHandler for CertSecureMakeCert {
    open spec fn spec_name(&self) -> Seq<char> {
        "certsecure.make_cert"@
    }

    open spec fn spec_capability(&self) -> Capability {
        Capability::VmProvision
    }

    open spec fn step(&self, ctx: ContextView) -> Result<StepView, CommandErrorView> {
        let p = ctx.params;
        unless_refused(
            make_cert_refusal(p),
            running(
                "generating TLS certificate"@,
                30,
                MAKE_CERT_SCRIPT@,
                seq![
                    p["certPath"@],
                    p["keyPath"@],
                    cert_names(p)[0],
                    joined(alternative_names(cert_names(p), cert_address(p)), ","@),
                    cert_days(p),
                ],
            ),
        )
    }

    open spec fn outcome(&self, ctx: ContextView, answer: ShellOutputView) -> Result<
        JsonView,
        CommandErrorView,
    > {
        concluded(
            make_cert_refusal(ctx.params),
            answer,
            make_cert_result(ctx.params, document_on(answer.stdout)),
        )
    }

    proof fn refusal_stands(&self, ctx: ContextView, answer: ShellOutputView) {
    }

    proof fn failed_run_is_reported(&self, ctx: ContextView, answer: ShellOutputView) {
    }

    fn name(&self) -> &'static str {
        "certsecure.make_cert"
    }

    fn required_capability(&self) -> Capability {
        Capability::VmProvision
    }

    fn prepare(&self, ctx: &CommandContext) -> Result<Step, CommandError> {
        let request = self.request(ctx)?;
        assert(texts(request.names@).len() == request.names@.len());
        assert(texts(request.names@)[0] == request.names@[0]@);
        let call = ShellCall {
            script: MAKE_CERT_SCRIPT,
            args: vec![
                request.cert_path.to_owned(),
                request.key_path.to_owned(),
                request.names[0].clone(),
                join(&request.sans, ","),
                request.days.to_owned(),
            ],
        };
        assert(texts(call.args@) =~= self.step(ctx@)->Ok_0.shell->Some_0.args);
        Ok(Step { phase: "generating TLS certificate", percent: 30, shell: Some(call) })
    }

    fn execute(&self, ctx: &CommandContext, answer: &ShellOutput) -> Result<Json, CommandError> {
        let _ = self.request(ctx)?;
        require_success(answer)?;
        self.conclude(ctx, &parse_json(answer.stdout.as_str()))
    }
}

/// Run the vendor installer non-interactively.
///
/// `install-linux.sh` prompts for six values on standard input in a fixed order;
/// they are piped in rather than passed as flags because the installer accepts
/// none. It derives its own paths from its working directory, so it runs in the
/// product tree.
pub struct CertSecureInstall;

/// A realm name that the installer itself would take.
pub open spec fn is_realm(s: Seq<char>) -> bool {
    1 <= s.len() <= 64 && only(s, "._-"@)
}

/// Why the parameters are refused, if they are.
pub open spec fn install_refusal(p: Map<Seq<char>, Seq<char>>) -> Option<CommandErrorView> {
    if !p.contains_key("frontendHost"@) {
        Some(missing("frontendHost"@))
    } else if !p.contains_key("backendHost"@) {
        Some(missing("backendHost"@))
    } else if !p.contains_key("keycloakHost"@) {
        Some(missing("keycloakHost"@))
    } else if !is_dns_name(p["frontendHost"@]) {
        Some(refused("frontendHost"@, "must be a DNS name"@))
    } else if !is_dns_name(p["backendHost"@]) {
        Some(refused("backendHost"@, "must be a DNS name"@))
    } else if !is_dns_name(p["keycloakHost"@]) {
        Some(refused("keycloakHost"@, "must be a DNS name"@))
    } else if !p.contains_key("keycloakRealm"@) {
        Some(missing("keycloakRealm"@))
    } else if !is_realm(p["keycloakRealm"@]) {
        Some(
            refused("keycloakRealm"@, "may only contain letters, digits, dot, dash, underscore"@),
        )
    } else {
        paths_refusal(p)
    }
}

/// The result of an installation.
pub open spec fn install_result(p: Map<Seq<char>, Seq<char>>, stdout: Seq<char>) -> JsonView {
    JsonView::Object(
        seq![
            ("installDir"@, JsonView::Text(INSTALL_DIR@)),
            ("frontendHost"@, JsonView::Text(p["frontendHost"@])),
            ("backendHost"@, JsonView::Text(p["backendHost"@])),
            ("keycloakHost"@, JsonView::Text(p["keycloakHost"@])),
            ("keycloakRealm"@, JsonView::Text(p["keycloakRealm"@])),
            ("frontendUrl"@, JsonView::Text("https://"@ + p["frontendHost"@] + "/"@)),
            ("raw"@, JsonView::Text(trim(stdout))),
        ],
    )
}

/// Whether `value` is a realm name that the installer itself would take.
fn valid_realm(value: &str) -> (r: bool)
    ensures
        r == is_realm(value@),
{
    named_within(value, 64, "._-")
}

/// The checked parameters of an installation.
struct InstallRequest<'a> {
    frontend: &'a str,
    backend: &'a str,
    keycloak: &'a str,
    realm: &'a str,
    cert_path: &'a str,
    key_path: &'a str,
}

impl<'a> InstallRequest<'a> {
    /// The request holds what the accepted parameters ask for.
    spec fn asks(&self, p: Map<Seq<char>, Seq<char>>) -> bool {
        &&& install_refusal(p) is None
        &&& self.frontend@ == p["frontendHost"@]
        &&& self.backend@ == p["backendHost"@]
        &&& self.keycloak@ == p["keycloakHost"@]
        &&& self.realm@ == p["keycloakRealm"@]
        &&& self.cert_path@ == p["certPath"@]
        &&& self.key_path@ == p["keyPath"@]
    }
}

impl CertSecureInstall {
    fn request<'a>(&self, ctx: &'a CommandContext) -> (r: Result<InstallRequest<'a>, CommandError>)
        ensures
            match r {
                Ok(request) => request.asks(ctx@.params),
                Err(error) => install_refusal(ctx@.params) == Some(error@),
            },
    {
        let frontend = required(ctx, "frontendHost")?;
        let backend = required(ctx, "backendHost")?;
        let keycloak = required(ctx, "keycloakHost")?;
        if !valid_dns_name(frontend) {
            return Err(invalid("frontendHost", "must be a DNS name"));
        }
        if !valid_dns_name(backend) {
            return Err(invalid("backendHost", "must be a DNS name"));
        }
        if !valid_dns_name(keycloak) {
            return Err(invalid("keycloakHost", "must be a DNS name"));
        }
        let realm = required(ctx, "keycloakRealm")?;
        if !valid_realm(realm) {
            return Err(
                invalid("keycloakRealm", "may only contain letters, digits, dot, dash, underscore"),
            );
        }
        let (cert_path, key_path) = required_paths(ctx)?;
        Ok(InstallRequest { frontend, backend, keycloak, realm, cert_path, key_path })
    }
}

impl CommandHandler for CertSecureInstall {
    open spec fn spec_name(&self) -> Seq<char> {
        "certsecure.install"@
    }

    open spec fn spec_capability(&self) -> Capability {
        Capability::VmProvision
    }

    open spec fn step(&self, ctx: ContextView) -> Result<StepView, CommandErrorView> {
        let p = ctx.params;
        unless_refused(
            install_refusal(p),
            running(
                "installing CertSecure Manager"@,
                10,
                INSTALL_SCRIPT@,
                seq![
                    INSTALL_DIR@,
                    p["frontendHost"@],
                    p["backendHost"@],
                    p["certPath"@],
                    p["keyPath"@],
                    p["keycloakHost"@],
                    p["keycloakRealm"@],
                ],
            ),
        )
    }

    open spec fn outcome(&self, ctx: ContextView, answer: ShellOutputView) -> Result<
        JsonView,
        CommandErrorView,
    > {
        concluded(
            install_refusal(ctx.params),
            answer,
            Ok(install_result(ctx.params, answer.stdout)),
        )
    }

    proof fn refusal_stands(&self, ctx: ContextView, answer: ShellOutputView) {
    }

    proof fn failed_run_is_reported(&self, ctx: ContextView, answer: ShellOutputView) {
    }

    fn name(&self) -> &'static str {
        "certsecure.install"
    }

    fn required_capability(&self) -> Capability {
        Capability::VmProvision
    }

    fn prepare(&self, ctx: &CommandContext) -> Result<Step, CommandError> {
        let request = self.request(ctx)?;
        let call = ShellCall {
            script: INSTALL_SCRIPT,
            args: vec![
                INSTALL_DIR.to_owned(),
                request.frontend.to_owned(),
                request.backend.to_owned(),
                request.cert_path.to_owned(),
                request.key_path.to_owned(),
                request.keycloak.to_owned(),
                request.realm.to_owned(),
            ],
        };
        assert(texts(call.args@) =~= self.step(ctx@)->Ok_0.shell->Some_0.args);
        Ok(Step { phase: "installing CertSecure Manager", percent: 10, shell: Some(call) })
    }

    fn execute(&self, ctx: &CommandContext, answer: &ShellOutput) -> Result<Json, CommandError> {
        let request = self.request(ctx)?;
        require_success(answer)?;
        let mut url = "https://".to_owned();
        url.append(request.frontend);
        url.append("/");
        let result = object(
            vec![
                entry("installDir", text(INSTALL_DIR)),
                entry("frontendHost", text(request.frontend)),
                entry("backendHost", text(request.backend)),
                entry("keycloakHost", text(request.keycloak)),
                entry("keycloakRealm", text(request.realm)),
                entry("frontendUrl", Json::Text(url)),
                entry("raw", Json::Text(trimmed(answer.stdout.as_str()))),
            ],
        );
        assert(result@->Object_0 =~= install_result(ctx@.params, answer@.stdout)->Object_0);
        Ok(result)
    }
}

/// Probe the product's own HTTPS endpoints from the guest.
///
/// Safe to run again, which lets it serve both as the last word on an install
/// and as an advisory wait on Keycloak, which comes up on its own schedule and
/// must never be able to fail a deployment on its own. The probe does not verify
/// the certificate: it is the self-signed one, and this guest is the one machine
/// that was never given it to trust.
pub struct CertSecureVerify;

/// An `https://` URL of at most 200 characters, all of them legal in a URL.
pub open spec fn is_https_url(s: Seq<char>) -> bool {
    &&& s.len() <= 200
    &&& "https://"@.is_prefix_of(s)
    &&& only(s.skip(8), "-._~:/?#[]@!$&'()*+,;=%"@)
}

/// A status code of success or redirection.
pub open spec fn is_http_ok(status: Seq<char>) -> bool {
    in_range(status, 200, 399)
}

/// The URL of Keycloak to probe, empty for none.
pub open spec fn keycloak_url(p: Map<Seq<char>, Seq<char>>) -> Seq<char> {
    param_or(p, "keycloakUrl"@, Seq::empty())
}

/// Why the parameters are refused, if they are.
pub open spec fn verify_refusal(p: Map<Seq<char>, Seq<char>>) -> Option<CommandErrorView> {
    if !p.contains_key("frontendUrl"@) {
        Some(missing("frontendUrl"@))
    } else if p["frontendUrl"@].len() > 0 && !is_https_url(p["frontendUrl"@]) {
        Some(refused("frontendUrl"@, "must be an https:// URL"@))
    } else if keycloak_url(p).len() > 0 && !is_https_url(keycloak_url(p)) {
        Some(refused("keycloakUrl"@, "must be an https:// URL"@))
    } else {
        None
    }
}

/// The status that a document reports under `key`, `0` where it reports none.
pub open spec fn status_in(document: JsonView, key: Seq<char>) -> Seq<char> {
    match member(document, key) {
        JsonView::Text(status) => status,
        _ => "0"@,
    }
}

/// The result of a probe. No URL for Keycloak counts as a Keycloak that is up:
/// nobody asked for it.
pub open spec fn verify_result(p: Map<Seq<char>, Seq<char>>, document: JsonView) -> JsonView {
    let frontend = status_in(document, "frontendStatus"@);
    let keycloak = status_in(document, "keycloakStatus"@);
    JsonView::Object(
        seq![
            ("frontendUrl"@, JsonView::Text(p["frontendUrl"@])),
            ("frontendStatus"@, JsonView::Text(frontend)),
            ("frontendOk"@, JsonView::Bool(is_http_ok(frontend))),
            ("keycloakUrl"@, JsonView::Text(keycloak_url(p))),
            ("keycloakStatus"@, JsonView::Text(keycloak)),
            (
                "keycloakOk"@,
                JsonView::Bool(keycloak_url(p).len() == 0 || is_http_ok(keycloak)),
            ),
        ],
    )
}

/// Whether `value` is an `https://` URL of legal characters.
pub fn valid_https_url(value: &str) -> (r: bool)
    ensures
        r == is_https_url(value@),
{
    if !begins_with(value, "https://") {
        return false;
    }
    proof {
        reveal_strlit("https://");
    }
    let chars = chars_of(value);
    let rest = text_between(&chars, 8, chars.len());
    assert(rest@ =~= value@.skip(8));
    chars.len() <= 200 && made_of(rest.as_str(), "-._~:/?#[]@!$&'()*+,;=%")
}

/// Whether a status code is one of success or redirection.
///
/// A dashboard behind an identity provider rightly answers an unauthenticated
/// request with a redirect, so 200 alone would report a healthy one as broken.
pub fn http_ok(status: &str) -> (r: bool)
    ensures
        r == is_http_ok(status@),
{
    within(status, 200, 399)
}

fn status(document: &Json, key: &str) -> (r: String)
    ensures
        r@ == status_in(document@, key@),
{
    match document.get(key) {
        Json::Text(status) => status,
        _ => "0".to_owned(),
    }
}

/// The checked parameters of a probe.
struct VerifyRequest<'a> {
    frontend: &'a str,
    keycloak: &'a str,
}

impl<'a> VerifyRequest<'a> {
    /// The request holds what the accepted parameters ask for.
    spec fn asks(&self, p: Map<Seq<char>, Seq<char>>) -> bool {
        &&& verify_refusal(p) is None
        &&& self.frontend@ == p["frontendUrl"@]
        &&& self.keycloak@ == keycloak_url(p)
    }
}

impl CertSecureVerify {
    fn request<'a>(&self, ctx: &'a CommandContext) -> (r: Result<VerifyRequest<'a>, CommandError>)
        ensures
            match r {
                Ok(request) => request.asks(ctx@.params),
                Err(error) => verify_refusal(ctx@.params) == Some(error@),
            },
    {
        let frontend = required(ctx, "frontendUrl")?;
        let keycloak = optional_text(ctx, "keycloakUrl");
        if !frontend.is_empty() && !valid_https_url(frontend) {
            return Err(invalid("frontendUrl", "must be an https:// URL"));
        }
        if !keycloak.is_empty() && !valid_https_url(keycloak) {
            return Err(invalid("keycloakUrl", "must be an https:// URL"));
        }
        Ok(VerifyRequest { frontend, keycloak })
    }

    fn report<'a>(
        &self,
        request: VerifyRequest<'a>,
        document: &Json,
        Ghost(p): Ghost<Map<Seq<char>, Seq<char>>>,
    ) -> (r: Json)
        requires
            request.asks(p),
        ensures
            r@ == verify_result(p, document@),
    {
        let frontend = status(document, "frontendStatus");
        let keycloak = status(document, "keycloakStatus");
        let frontend_ok = http_ok(frontend.as_str());
        let keycloak_ok = request.keycloak.is_empty() || http_ok(keycloak.as_str());
        let result = object(
            vec![
                entry("frontendUrl", text(request.frontend)),
                entry("frontendStatus", Json::Text(frontend)),
                entry("frontendOk", Json::Bool(frontend_ok)),
                entry("keycloakUrl", text(request.keycloak)),
                entry("keycloakStatus", Json::Text(keycloak)),
                entry("keycloakOk", Json::Bool(keycloak_ok)),
            ],
        );
        assert(result@->Object_0 =~= verify_result(p, document@)->Object_0);
        result
    }

    /// The end of the command, given the document on the shell's output.
    pub fn conclude(&self, ctx: &CommandContext, document: &Json) -> (r: Result<Json, CommandError>)
        ensures
            outcome_view(r) == judged(
                verify_refusal(ctx@.params),
                Ok(verify_result(ctx@.params, document@)),
            ),
    {
        let request = self.request(ctx)?;
        Ok(self.report(request, document, Ghost(ctx@.params)))
    }
}

impl CommandHandler for CertSecureVerify {
    open spec fn spec_name(&self) -> Seq<char> {
        "certsecure.verify"@
    }

    open spec fn spec_capability(&self) -> Capability {
        Capability::VmRead
    }

    open spec fn step(&self, ctx: ContextView) -> Result<StepView, CommandErrorView> {
        unless_refused(
            verify_refusal(ctx.params),
            running(
                "probing product endpoints"@,
                50,
                VERIFY_SCRIPT@,
                seq![ctx.params["frontendUrl"@], keycloak_url(ctx.params)],
            ),
        )
    }

    open spec fn outcome(&self, ctx: ContextView, answer: ShellOutputView) -> Result<
        JsonView,
        CommandErrorView,
    > {
        concluded(
            verify_refusal(ctx.params),
            answer,
            Ok(verify_result(ctx.params, document_on(answer.stdout))),
        )
    }

    proof fn refusal_stands(&self, ctx: ContextView, answer: ShellOutputView) {
    }

    proof fn failed_run_is_reported(&self, ctx: ContextView, answer: ShellOutputView) {
    }

    fn name(&self) -> &'static str {
        "certsecure.verify"
    }

    fn required_capability(&self) -> Capability {
        Capability::VmRead
    }

    fn prepare(&self, ctx: &CommandContext) -> Result<Step, CommandError> {
        let request = self.request(ctx)?;
        let call = ShellCall {
            script: VERIFY_SCRIPT,
            args: vec![request.frontend.to_owned(), request.keycloak.to_owned()],
        };
        assert(texts(call.args@) =~= self.step(ctx@)->Ok_0.shell->Some_0.args);
        Ok(Step { phase: "probing product endpoints", percent: 50, shell: Some(call) })
    }

    fn execute(&self, ctx: &CommandContext, answer: &ShellOutput) -> Result<Json, CommandError> {
        let _ = self.request(ctx)?;
        require_success(answer)?;
        self.conclude(ctx, &parse_json(answer.stdout.as_str()))
    }
}

/// Restrict the four files that the vendor installer leaves world-readable.
///
/// `key.pem` is the service's TLS private key and `keycloak-credentials.txt`
/// holds the generated client secret and service-account password. A file that
/// is not there is skipped.
pub struct CertSecureHarden;

/// The arguments of the hardening script: the product tree, then each file with
/// the mode it gets.
pub open spec fn harden_args() -> Seq<Seq<char>> {
    seq![
        INSTALL_DIR@,
        "conf/key.pem"@,
        "600"@,
        "conf/keycloak-credentials.txt"@,
        "600"@,
        "conf/server.yaml"@,
        "640"@,
        "conf.ini"@,
        "640"@,
    ]
}

/// The result of hardening: the files that were there.
pub open spec fn harden_result(stdout: Seq<char>) -> JsonView {
    JsonView::Object(seq![("hardened"@, JsonView::Array(text_values(words(stdout))))])
}

impl CommandHandler for CertSecureHarden {
    open spec fn spec_name(&self) -> Seq<char> {
        "certsecure.harden"@
    }

    open spec fn spec_capability(&self) -> Capability {
        Capability::VmProvision
    }

    open spec fn step(&self, ctx: ContextView) -> Result<StepView, CommandErrorView> {
        Ok(running("restricting credential file modes"@, 50, HARDEN_SCRIPT@, harden_args()))
    }

    open spec fn outcome(&self, ctx: ContextView, answer: ShellOutputView) -> Result<
        JsonView,
        CommandErrorView,
    > {
        concluded(None, answer, Ok(harden_result(answer.stdout)))
    }

    proof fn refusal_stands(&self, ctx: ContextView, answer: ShellOutputView) {
    }

    proof fn failed_run_is_reported(&self, ctx: ContextView, answer: ShellOutputView) {
    }

    fn name(&self) -> &'static str {
        "certsecure.harden"
    }

    fn required_capability(&self) -> Capability {
        Capability::VmProvision
    }

    fn prepare(&self, ctx: &CommandContext) -> Result<Step, CommandError> {
        let call = ShellCall {
            script: HARDEN_SCRIPT,
            args: vec![
                INSTALL_DIR.to_owned(),
                "conf/key.pem".to_owned(),
                "600".to_owned(),
                "conf/keycloak-credentials.txt".to_owned(),
                "600".to_owned(),
                "conf/server.yaml".to_owned(),
                "640".to_owned(),
                "conf.ini".to_owned(),
                "640".to_owned(),
            ],
        };
        assert(texts(call.args@) =~= harden_args());
        Ok(Step { phase: "restricting credential file modes", percent: 50, shell: Some(call) })
    }

    fn execute(&self, ctx: &CommandContext, answer: &ShellOutput) -> Result<Json, CommandError> {
        require_success(answer)?;
        let result = object(
            vec![entry("hardened", text_array(&split_words(answer.stdout.as_str())))],
        );
        assert(result@->Object_0 =~= harden_result(answer@.stdout)->Object_0);
        Ok(result)
    }
}

/// No line of a managed block is one of the two lines around it: what the entries
/// say cannot end the block early, nor start another.
pub proof fn managed_block_has_no_marker(raw: Seq<char>)
    requires
        hosts_refusal(raw) is None,
    ensures
        !pieces(hosts_block(raw), Separator::Char('\n')).contains(HOSTS_BEGIN@),
        !pieces(hosts_block(raw), Separator::Char('\n')).contains(HOSTS_END@),
{
    block_reads_back(raw);
    block_lines_start_with_digits(raw);
    reveal_strlit("# BEGIN pki-executor managed entries");
    reveal_strlit("# END pki-executor managed entries");
}

/// Handing the block that was written back as the entries writes the same block
/// again.
pub proof fn writing_hosts_again_changes_nothing(ctx: ContextView)
    requires
        write_hosts_refusal(ctx.params) is None,
    ensures
        CertSecureWriteHosts.step(
            ContextView {
                params: ctx.params.insert("entries"@, hosts_block(ctx.params["entries"@])),
                records: ctx.records,
            },
        ) == CertSecureWriteHosts.step(ctx),
{
    block_reads_back(ctx.params["entries"@]);
}

proof fn lemma_no_comma_in_address(s: Seq<char>)
    requires
        is_loose_quad(s),
    ensures
        unbroken(s, Separator::Char(',')),
{
    let octets = pieces(s, Separator::Char('.'));
    assert forall|i: int| 0 <= i < octets.len() implies unbroken(
        #[trigger] octets[i],
        Separator::Char(','),
    ) by {
        assert(is_loose_octet(octets[i]));
        assert forall|k: int| 0 <= k < octets[i].len() implies !separates(
            Separator::Char(','),
            #[trigger] octets[i][k],
        ) by {
            assert(is_digit(octets[i][k]));
        }
    }
    lemma_joined_chars(octets, '.', Separator::Char(','));
    join_undoes_split(s, '.');
}

/// The subject alternative names of an accepted certificate: one to nine of them,
/// and the argument that lists them with commas splits back into exactly these.
pub proof fn alternative_names_split_back(p: Map<Seq<char>, Seq<char>>)
    requires
        make_cert_refusal(p) is None,
    ensures
        1 <= alternative_names(cert_names(p), cert_address(p)).len() <= 9,
        pieces(
            joined(alternative_names(cert_names(p), cert_address(p)), ","@),
            Separator::Char(','),
        ) == alternative_names(cert_names(p), cert_address(p)),
{
    let names = cert_names(p);
    let address = cert_address(p);
    let sans = alternative_names(names, address);
    let comma = Separator::Char(',');
    items_are_plain(p["names"@]);
    reveal_strlit("DNS:");
    reveal_strlit("IP:");
    reveal_strlit(",");
    assert(","@ =~= seq![',']);
    assert forall|i: int| 0 <= i < sans.len() implies unbroken(#[trigger] sans[i], comma) by {
        if i < names.len() {
            assert(unbroken(names[i], comma));
            assert forall|k: int| 0 <= k < sans[i].len() implies !separates(
                comma,
                #[trigger] sans[i][k],
            ) by {
                if k >= 4 {
                    assert(sans[i][k] == names[i][k - 4]);
                } else {
                    assert(sans[i][k] == "DNS:"@[k]);
                }
            }
        } else {
            lemma_no_comma_in_address(address);
            assert forall|k: int| 0 <= k < sans[i].len() implies !separates(
                comma,
                #[trigger] sans[i][k],
            ) by {
                if k >= 3 {
                    assert(sans[i][k] == address[k - 3]);
                } else {
                    assert(sans[i][k] == "IP:"@[k]);
                }
            }
        }
    }
    split_undoes_join(sans, ',', comma);
}

/// A certificate that was made is in the result whole: under `contentB64` stands
/// the text that the run reported there.
pub proof fn made_certificate_is_in_the_result(ctx: ContextView, answer: ShellOutputView)
    ensures
        CertSecureMakeCert.outcome(ctx, answer) matches Ok(result) ==> {
            &&& member(result, "contentB64"@) is Text
            &&& member(result, "contentB64"@) == member(
                document_on(answer.stdout),
                "contentB64"@,
            )
        },
{
    if CertSecureMakeCert.outcome(ctx, answer) is Ok {
        let list = CertSecureMakeCert.outcome(ctx, answer)->Ok_0->Object_0;
        reveal_strlit("certPath");
        reveal_strlit("keyPath");
        reveal_strlit("subject");
        reveal_strlit("sans");
        reveal_strlit("contentB64");
        assert("certPath"@.len() == 8 && "keyPath"@.len() == 7 && "subject"@.len() == 7
            && "sans"@.len() == 4 && "contentB64"@.len() == 10);
        lemma_value_at(list, 4);
    }
}

/// A probe that ran reports what it saw and does not fail, whatever it saw; and
/// what it says of the dashboard rests on the dashboard's status alone, so that
/// Keycloak cannot make the dashboard look broken.
pub proof fn probe_reports_without_failing(ctx: ContextView, answer: ShellOutputView)
    requires
        verify_refusal(ctx.params) is None,
        answer.exit_code == 0,
    ensures
        CertSecureVerify.outcome(ctx, answer) matches Ok(result) && member(result, "frontendOk"@)
            == JsonView::Bool(
            is_http_ok(status_in(document_on(answer.stdout), "frontendStatus"@)),
        ),
{
    let list = CertSecureVerify.outcome(ctx, answer)->Ok_0->Object_0;
    reveal_strlit("frontendUrl");
    reveal_strlit("frontendStatus");
    reveal_strlit("frontendOk");
    assert("frontendUrl"@.len() == 11 && "frontendStatus"@.len() == 14 && "frontendOk"@.len()
        == 10);
    lemma_value_at(list, 2);
}

/// A path that leads through the install directory to something below it.
pub open spec fn is_product_path(path: Seq<char>) -> bool {
    &&& lies_under(path, INSTALL_DIR@ + "/"@)
    &&& resolved_path(INSTALL_DIR@).is_prefix_of(resolved_path(path))
    &&& resolved_path(path).len() > resolved_path(INSTALL_DIR@).len()
}

proof fn lemma_product_path(path: Seq<char>)
    requires
        in_install_dir(path),
    ensures
        is_product_path(path),
{
    reveal_strlit("/opt/certsecure-manager/");
    reveal_strlit("/opt/certsecure-manager");
    reveal_strlit("/");
    assert(PRODUCT_TREE@ =~= INSTALL_DIR@ + seq!['/']);
    assert("/"@ =~= seq!['/']);
    inside_paths_resolve_inside(path, INSTALL_DIR@);
}

/// A certificate and its key are only ever made in the install directory and
/// installed from it.
pub proof fn certificates_stay_in_the_product_tree(p: Map<Seq<char>, Seq<char>>)
    ensures
        make_cert_refusal(p) is None ==> is_product_path(p["certPath"@]) && is_product_path(
            p["keyPath"@],
        ),
        install_refusal(p) is None ==> is_product_path(p["certPath"@]) && is_product_path(
            p["keyPath"@],
        ),
{
    if paths_refusal(p) is None {
        lemma_product_path(p["certPath"@]);
        lemma_product_path(p["keyPath"@]);
    }
}

/// The install directory and what the relay allows agree: the relay reaches every
/// certificate and key whose path has no two dots in a row.
pub proof fn certificates_can_be_relayed(p: Map<Seq<char>, Seq<char>>)
    requires
        make_cert_refusal(p) is None || install_refusal(p) is None,
    ensures
        !has_double_dot(p["certPath"@]) ==> is_relay_path(p["certPath"@]),
        !has_double_dot(p["keyPath"@]) ==> is_relay_path(p["keyPath"@]),
{
}

} // verus!
