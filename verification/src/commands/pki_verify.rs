//! Reading back what an enterprise PKI has published.

use vstd::prelude::*;

use crate::authz::Capability;
use crate::commands::util::{
    concluded, document_on, invalid, judged, missing, param, parse_json, refused, require_success,
    required, shell_failure, unless_refused, unusable,
};
use crate::json::{decode_texts, json_texts, Json, JsonView};
use crate::powershell::{ShellCall, ShellOutput, ShellOutputView};
use crate::registry::{
    outcome_view, running, step_view, CommandContext, CommandError, CommandErrorView,
    CommandHandler, ContextView, Step, StepView,
};
use crate::split::{
    entries, entries_are_plain, join, joined, list_entries, pieces, split_undoes_join, Separator,
};
use crate::text::{begins_with, byte_len, clear_of, free_of, named_within, only, texts, utf8_len};

verus! {

/// One physical line. The URLs are decoded in a statement of their own, because
/// Windows PowerShell 5.1 hands a decoded JSON array down a pipeline as one
/// object.
pub const PKI_VERIFY_SCRIPT: &'static str = "param([string]$RootCa,[string]$IssuingCa,[string]$Templates,[string]$HttpUrls) \
            $ErrorActionPreference = 'Stop'; \
            Import-Module ActiveDirectory; \
            $configDn = (Get-ADRootDSE).configurationNamingContext; \
            $pkiBase = \"CN=Public Key Services,CN=Services,$configDn\"; \
            function Child-Names([string]$Container) { @(Get-ADObject -SearchBase \"CN=$Container,$pkiBase\" -SearchScope OneLevel -Filter * | Select-Object -ExpandProperty Name) }; \
            $ntAuth = Get-ADObject -Identity \"CN=NTAuthCertificates,$pkiBase\" -Properties cACertificate; \
            $ntAuthOk = @($ntAuth.cACertificate).Count -gt 0; \
            $aiaNames = Child-Names 'AIA'; \
            $cdpNames = Child-Names 'CDP'; \
            $caNames = Child-Names 'Certification Authorities'; \
            $enrollmentNames = Child-Names 'Enrollment Services'; \
            $templateNames = Child-Names 'Certificate Templates'; \
            $aiaOk = $aiaNames -contains $RootCa -and $aiaNames -contains $IssuingCa; \
            $cdpOk = $cdpNames -contains $RootCa -and $cdpNames -contains $IssuingCa; \
            $caOk = $caNames -contains $RootCa; \
            $enrollmentOk = $enrollmentNames -contains $IssuingCa; \
            $requiredTemplates = @($Templates -split ',' | ForEach-Object { $_.Trim() }); \
            $missingTemplates = @($requiredTemplates | Where-Object { $templateNames -notcontains $_ }); \
            $http = @(); \
            $publicationUrls = $HttpUrls | ConvertFrom-Json; \
            foreach ($url in @($publicationUrls)) { \
                $status = 0; \
                try { $status = [int](Invoke-WebRequest -Uri $url -UseBasicParsing -Method Head -TimeoutSec 20).StatusCode } catch { if ($_.Exception.Response) { $status = [int]$_.Exception.Response.StatusCode } }; \
                $http += @{ url = $url; status = $status; ok = ($status -ge 200 -and $status -lt 300) } \
            }; \
            $httpOk = @($http | Where-Object { -not $_.ok }).Count -eq 0; \
            $templatesOk = $missingTemplates.Count -eq 0; \
            @{ healthy = ($ntAuthOk -and $aiaOk -and $cdpOk -and $caOk -and $enrollmentOk -and $templatesOk -and $httpOk); containers = @{ nt_auth = $ntAuthOk; aia = $aiaOk; cdp = $cdpOk; certification_authorities = $caOk; enrollment_services = $enrollmentOk }; templates = @{ ok = $templatesOk; required = $requiredTemplates; missing = $missingTemplates }; http_artifacts = @{ ok = $httpOk; results = $http }; observed = @{ aia = $aiaNames; cdp = $cdpNames; certification_authorities = $caNames; enrollment_services = $enrollmentNames } } | ConvertTo-Json -Depth 6 -Compress";

/// The common name of a certification authority.
pub open spec fn is_ca_name(s: Seq<char>) -> bool {
    1 <= s.len() <= 64 && only(s, " ._-"@)
}

/// The common name of a certificate template.
pub open spec fn is_template(s: Seq<char>) -> bool {
    1 <= s.len() <= 64 && only(s, "._-"@)
}

/// A URL over HTTP that nothing in a script could take for anything else.
pub open spec fn is_http_url(s: Seq<char>) -> bool {
    &&& "http://"@.is_prefix_of(s) || "https://"@.is_prefix_of(s)
    &&& free_of(s, "\"'`;$ <>"@)
    &&& byte_len(s) <= 512
}

/// Whether `value` is the common name of a certification authority.
pub fn valid_ca_name(value: &str) -> (r: bool)
    ensures
        r == is_ca_name(value@),
{
    named_within(value, 64, " ._-")
}

/// Whether `value` is the common name of a certificate template.
pub fn valid_template(value: &str) -> (r: bool)
    ensures
        r == is_template(value@),
{
    named_within(value, 64, "._-")
}

/// Whether `value` is a URL over HTTP that is safe to hand to a script.
pub fn valid_http_url(value: &str) -> (r: bool)
    ensures
        r == is_http_url(value@),
{
    (begins_with(value, "http://") || begins_with(value, "https://")) && clear_of(
        value,
        "\"'`;$ <>",
    ) && utf8_len(value) <= 512
}

/// Every text of the list is the name of a template.
pub open spec fn are_templates(list: Seq<Seq<char>>) -> bool {
    forall|i: int| 0 <= i < list.len() ==> is_template(#[trigger] list[i])
}

/// Every text of the list is a URL that is safe to hand to a script.
pub open spec fn are_http_urls(list: Seq<Seq<char>>) -> bool {
    forall|i: int| 0 <= i < list.len() ==> is_http_url(#[trigger] list[i])
}

fn all_templates(list: &Vec<String>) -> (r: bool)
    ensures
        r == are_templates(texts(list@)),
{
    let mut i: usize = 0;
    while i < list.len()
        invariant
            i <= list@.len(),
            forall|k: int| 0 <= k < i ==> is_template(#[trigger] texts(list@)[k]),
        decreases list.len() - i,
    {
        assert(texts(list@)[i as int] == list@[i as int]@);
        if !valid_template(list[i].as_str()) {
            return false;
        }
        i += 1;
    }
    true
}

fn all_http_urls(list: &Vec<String>) -> (r: bool)
    ensures
        r == are_http_urls(texts(list@)),
{
    let mut i: usize = 0;
    while i < list.len()
        invariant
            i <= list@.len(),
            forall|k: int| 0 <= k < i ==> is_http_url(#[trigger] texts(list@)[k]),
        decreases list.len() - i,
    {
        assert(texts(list@)[i as int] == list@[i as int]@);
        if !valid_http_url(list[i].as_str()) {
            return false;
        }
        i += 1;
    }
    true
}

/// Read back the objects of an enterprise PKI, and the files that it publishes
/// over HTTP, from the domain controller.
pub struct PkiVerify;

/// Why the publication URLs are refused, if they are; `urls` is what the
/// parameter decodes to.
pub open spec fn urls_refusal(urls: Option<Seq<Seq<char>>>) -> Option<CommandErrorView> {
    match urls {
        None => Some(refused("httpUrls"@, "must be a JSON array of HTTP URLs"@)),
        Some(list) => if list.len() == 0 || !are_http_urls(list) {
            Some(refused("httpUrls"@, "must contain one or more valid HTTP URLs"@))
        } else {
            None
        },
    }
}

/// Why the parameters are refused, if they are; `urls` is what the parameter for
/// the publication URLs decodes to.
pub open spec fn pki_refusal(
    p: Map<Seq<char>, Seq<char>>,
    urls: Option<Seq<Seq<char>>>,
) -> Option<CommandErrorView> {
    if !p.contains_key("rootCaCommonName"@) {
        Some(missing("rootCaCommonName"@))
    } else if !p.contains_key("issuingCaCommonName"@) {
        Some(missing("issuingCaCommonName"@))
    } else if !is_ca_name(p["rootCaCommonName"@]) {
        Some(refused("rootCaCommonName"@, "must be a valid CA common name"@))
    } else if !is_ca_name(p["issuingCaCommonName"@]) {
        Some(refused("issuingCaCommonName"@, "must be a valid CA common name"@))
    } else if !p.contains_key("templates"@) {
        Some(missing("templates"@))
    } else if !are_templates(entries(p["templates"@])) {
        Some(refused("templates"@, "must be a comma-separated list of template CN names"@))
    } else if !p.contains_key("httpUrls"@) {
        Some(missing("httpUrls"@))
    } else {
        urls_refusal(urls)
    }
}

/// What to run, given what the parameter for the publication URLs decodes to.
pub open spec fn pki_step(p: Map<Seq<char>, Seq<char>>, urls: Option<Seq<Seq<char>>>) -> Result<
    StepView,
    CommandErrorView,
> {
    unless_refused(
        pki_refusal(p, urls),
        running(
            "verifying enterprise PKI publication"@,
            50,
            PKI_VERIFY_SCRIPT@,
            seq![
                p["rootCaCommonName"@],
                p["issuingCaCommonName"@],
                joined(entries(p["templates"@]), ","@),
                p["httpUrls"@],
            ],
        ),
    )
}

/// The report of a run: the document on its output, which must be an object.
pub open spec fn pki_report(document: JsonView) -> Result<JsonView, CommandErrorView> {
    if document is Object {
        Ok(document)
    } else {
        Err(shell_failure(1, "pki.verify returned invalid JSON"@))
    }
}

/// What a list stands for, where there is one.
pub open spec fn texts_in(list: Option<Vec<String>>) -> Option<Seq<Seq<char>>> {
    match list {
        Some(list) => Some(texts(list@)),
        None => None,
    }
}

/// The checked parameters of a verification.
struct PkiRequest<'a> {
    root: &'a str,
    issuing: &'a str,
    templates: Vec<String>,
    urls: &'a str,
}

impl PkiVerify {
    fn request<'a>(&self, ctx: &'a CommandContext, urls: &Option<Vec<String>>) -> (r: Result<
        PkiRequest<'a>,
        CommandError,
    >)
        ensures
            match r {
                Ok(request) => {
                    &&& pki_refusal(ctx@.params, texts_in(*urls)) is None
                    &&& request.root@ == ctx@.params["rootCaCommonName"@]
                    &&& request.issuing@ == ctx@.params["issuingCaCommonName"@]
                    &&& texts(request.templates@) == entries(ctx@.params["templates"@])
                    &&& request.urls@ == ctx@.params["httpUrls"@]
                },
                Err(error) => pki_refusal(ctx@.params, texts_in(*urls)) == Some(error@),
            },
    {
        let root = required(ctx, "rootCaCommonName")?;
        let issuing = required(ctx, "issuingCaCommonName")?;
        if !valid_ca_name(root) {
            return Err(invalid("rootCaCommonName", "must be a valid CA common name"));
        }
        if !valid_ca_name(issuing) {
            return Err(invalid("issuingCaCommonName", "must be a valid CA common name"));
        }
        let templates = list_entries(required(ctx, "templates")?);
        if !all_templates(&templates) {
            return Err(
                invalid("templates", "must be a comma-separated list of template CN names"),
            );
        }
        let raw = required(ctx, "httpUrls")?;
        match urls {
            None => {
                return Err(invalid("httpUrls", "must be a JSON array of HTTP URLs"));
            },
            Some(list) => {
                assert(texts(list@).len() == list@.len());
                if list.len() == 0 || !all_http_urls(list) {
                    return Err(invalid("httpUrls", "must contain one or more valid HTTP URLs"));
                }
            },
        }
        Ok(PkiRequest { root, issuing, templates, urls: raw })
    }

    fn decoded_urls(&self, ctx: &CommandContext) -> (r: Option<Vec<String>>)
        ensures
            ctx@.params.contains_key("httpUrls"@) ==> texts_in(r) == json_texts(
                ctx@.params["httpUrls"@],
            ),
    {
        match param(ctx, "httpUrls") {
            Some(raw) => match decode_texts(raw) {
                Ok(list) => Some(list),
                Err(_) => None,
            },
            None => None,
        }
    }

    /// What to run, given what the parameter for the publication URLs decodes to.
    pub fn plan(&self, ctx: &CommandContext, urls: &Option<Vec<String>>) -> (r: Result<
        Step,
        CommandError,
    >)
        ensures
            step_view(r) == pki_step(ctx@.params, texts_in(*urls)),
    {
        let request = self.request(ctx, urls)?;
        let call = ShellCall {
            script: PKI_VERIFY_SCRIPT,
            args: vec![
                request.root.to_owned(),
                request.issuing.to_owned(),
                join(&request.templates, ","),
                request.urls.to_owned(),
            ],
        };
        assert(texts(call.args@) =~= pki_step(
            ctx@.params,
            texts_in(*urls),
        )->Ok_0.shell->Some_0.args);
        Ok(Step { phase: "verifying enterprise PKI publication", percent: 50, shell: Some(call) })
    }

    /// The end of the command, given what the parameter for the publication URLs
    /// decodes to and the document on the shell's output.
    pub fn conclude(
        &self,
        ctx: &CommandContext,
        urls: &Option<Vec<String>>,
        document: Json,
    ) -> (r: Result<Json, CommandError>)
        ensures
            outcome_view(r) == judged(
                pki_refusal(ctx@.params, texts_in(*urls)),
                pki_report(document@),
            ),
    {
        let _ = self.request(ctx, urls)?;
        if !document.is_object() {
            return Err(unusable("pki.verify returned invalid JSON"));
        }
        Ok(document)
    }
}

impl CommandHandler for PkiVerify {
    open spec fn spec_name(&self) -> Seq<char> {
        "pki.verify"@
    }

    open spec fn spec_capability(&self) -> Capability {
        Capability::VmRead
    }

    open spec fn step(&self, ctx: ContextView) -> Result<StepView, CommandErrorView> {
        pki_step(ctx.params, json_texts(ctx.params["httpUrls"@]))
    }

    open spec fn outcome(&self, ctx: ContextView, answer: ShellOutputView) -> Result<
        JsonView,
        CommandErrorView,
    > {
        concluded(
            pki_refusal(ctx.params, json_texts(ctx.params["httpUrls"@])),
            answer,
            pki_report(document_on(answer.stdout)),
        )
    }

    proof fn refusal_stands(&self, ctx: ContextView, answer: ShellOutputView) {
    }

    proof fn failed_run_is_reported(&self, ctx: ContextView, answer: ShellOutputView) {
    }

    fn name(&self) -> &'static str {
        "pki.verify"
    }

    fn required_capability(&self) -> Capability {
        Capability::VmRead
    }

    fn prepare(&self, ctx: &CommandContext) -> Result<Step, CommandError> {
        let urls = self.decoded_urls(ctx);
        self.plan(ctx, &urls)
    }

    fn execute(&self, ctx: &CommandContext, answer: &ShellOutput) -> Result<Json, CommandError> {
        let urls = self.decoded_urls(ctx);
        let _ = self.request(ctx, &urls)?;
        require_success(answer)?;
        self.conclude(ctx, &urls, parse_json(answer.stdout.as_str()))
    }
}

/// The templates that are looked for are those that the argument lists.
pub proof fn templates_split_back(templates: Seq<char>)
    ensures
        pieces(joined(entries(templates), ","@), Separator::Char(',')) == entries(templates),
{
    entries_are_plain(templates);
    reveal_strlit(",");
    assert(","@ =~= seq![',']);
    split_undoes_join(entries(templates), ',', Separator::Char(','));
}

/// What is read back of a PKI is always an object.
pub proof fn read_back_is_an_object(ctx: ContextView, answer: ShellOutputView)
    ensures
        PkiVerify.outcome(ctx, answer) matches Ok(result) ==> result is Object,
{
}

} // verus!
