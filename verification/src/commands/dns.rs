//! DNS commands: pointing a machine at its resolvers, and creating, applying and
//! verifying records on the domain controller.

use vstd::prelude::*;

use crate::authz::Capability;
use crate::commands::util::{
    concluded, document_on, invalid, is_dns_label, is_dns_name, judged, missing, optional,
    optional_text, param_or, parse_json, refused, require_success, required, unless_refused,
    valid_dns_name,
};
use crate::ipv4::{dotted_quad, is_dotted_quad};
use crate::json::{entry, object, text, text_array, text_values, Json, JsonView};
use crate::number::{in_range, within};
use crate::powershell::{ShellCall, ShellOutput, ShellOutputView};
use crate::registry::{
    outcome_view, running, CommandContext, CommandError, CommandErrorView, CommandHandler,
    ContextView, Step, StepView,
};
use crate::split::{
    items, items_are_plain, join, joined, lemma_one_piece, list_items, pieces, separates, split,
    split_undoes_join, trim, trimmed, Separator,
};
use crate::text::{
    begins_with, byte_len, chars_of, clear_of, free_of, has_char, named_within, only, same,
    text_between, texts, utf8_len,
};

verus! {

/// The most resources that one plan may hold.
pub const MAX_DNS_RESOURCES: usize = 32;

/// The most bytes of JSON that a plan may take.
pub const MAX_RECORDS_BYTES: usize = 32 * 1024;

pub const SET_CLIENT_SCRIPT: &'static str = "param([string]$Servers,[string]$Alias) \
            $ErrorActionPreference = 'Stop'; \
            if (-not $Alias) { $Alias = Get-NetAdapter | Where-Object Status -eq 'Up' | Sort-Object ifIndex | Select-Object -First 1 -ExpandProperty Name }; \
            Set-DnsClientServerAddress -InterfaceAlias $Alias -ServerAddresses ($Servers -split ','); \
            (Get-DnsClientServerAddress -InterfaceAlias $Alias -AddressFamily IPv4).ServerAddresses -join ','";

pub const CREATE_RECORD_SCRIPT: &'static str = "param([string]$Zone,[string]$Name,[string]$Target) \
            $ErrorActionPreference = 'Stop'; \
            $existing = Get-DnsServerResourceRecord -ZoneName $Zone -Name $Name -RRType CName -ErrorAction SilentlyContinue; \
            if ($existing) { $existing | Remove-DnsServerResourceRecord -ZoneName $Zone -Force }; \
            Add-DnsServerResourceRecordCName -ZoneName $Zone -Name $Name -HostNameAlias $Target; \
            (Get-DnsServerResourceRecord -ZoneName $Zone -Name $Name -RRType CName).RecordData.HostNameAlias";

pub const APPLY_SCRIPT: &'static str = r#"param([string]$RecordsJson)
$ErrorActionPreference = 'Stop'
Import-Module DnsServer
# Windows PowerShell 5.1 writes a decoded JSON array to the pipeline as one
# object, so @(... | ConvertFrom-Json) nests it and the loop below would bind
# every record at once. Assign first, then normalise to an array.
$records = $RecordsJson | ConvertFrom-Json
$records = @($records)
$results = foreach ($record in $records) {
    $zone = [string]$record.zone
    $name = [string]$record.name
    $value = [string]$record.value
    if ($record.kind -eq 'PTR') {
        $existingZone = Get-DnsServerZone -Name $zone -ErrorAction SilentlyContinue
        if (-not $existingZone) {
            $prefixLabels = @($zone.ToLowerInvariant().Replace('.in-addr.arpa','').Split('.'))
            [array]::Reverse($prefixLabels)
            $networkOctets = @($prefixLabels)
            while ($networkOctets.Count -lt 4) { $networkOctets += '0' }
            $networkId = ($networkOctets -join '.') + '/' + ($prefixLabels.Count * 8)
            Add-DnsServerPrimaryZone -NetworkId $networkId -ReplicationScope Forest | Out-Null
        }
        $prefixCount = @($zone.ToLowerInvariant().Replace('.in-addr.arpa','').Split('.')).Count
        $remaining = @($name.Split('.')[$prefixCount..3])
        [array]::Reverse($remaining)
        $relativeName = $remaining -join '.'
        $existing = @(Get-DnsServerResourceRecord -ZoneName $zone -Name $relativeName -RRType PTR -ErrorAction SilentlyContinue)
        $actual = @($existing | ForEach-Object { $_.RecordData.PtrDomainName.TrimEnd('.') })
        $expected = $value.TrimEnd('.')
        if ($existing.Count -gt 0 -and -not ($actual.Count -eq 1 -and $actual[0] -ieq $expected)) {
            throw "DNS conflict for PTR ${name}: expected $value; found $($actual -join ',')"
        }
        if ($existing.Count -eq 0) {
            Add-DnsServerResourceRecordPtr -ZoneName $zone -Name $relativeName -PtrDomainName $value | Out-Null
            $status = 'created'
        } else { $status = 'retained' }
    } elseif ($record.kind -eq 'A') {
        $existing = @(Get-DnsServerResourceRecord -ZoneName $zone -Name $name -RRType A -ErrorAction SilentlyContinue)
        $actual = @($existing | ForEach-Object { $_.RecordData.IPv4Address.IPAddressToString })
        if ($existing.Count -gt 0 -and -not ($actual.Count -eq 1 -and $actual[0] -eq $value)) {
            throw "DNS conflict for A $name.${zone}: expected $value; found $($actual -join ',')"
        }
        if ($existing.Count -eq 0) {
            Add-DnsServerResourceRecordA -ZoneName $zone -Name $name -IPv4Address $value | Out-Null
            $status = 'created'
        } else { $status = 'retained' }
    } elseif ($record.kind -eq 'CNAME') {
        $existing = @(Get-DnsServerResourceRecord -ZoneName $zone -Name $name -RRType CNAME -ErrorAction SilentlyContinue)
        $actual = @($existing | ForEach-Object { $_.RecordData.HostNameAlias.TrimEnd('.') })
        $expected = $value.TrimEnd('.')
        if ($existing.Count -gt 0 -and -not ($actual.Count -eq 1 -and $actual[0] -ieq $expected)) {
            throw "DNS conflict for CNAME $name.${zone}: expected $value; found $($actual -join ',')"
        }
        if ($existing.Count -eq 0) {
            Add-DnsServerResourceRecordCName -ZoneName $zone -Name $name -HostNameAlias $value | Out-Null
            $status = 'created'
        } else { $status = 'retained' }
    } else { throw "Unsupported DNS resource kind '$($record.kind)'" }
    [pscustomobject]@{ id = [string]$record.id; kind = [string]$record.kind; status = $status }
}
[pscustomobject]@{ applied = @($results).Count; records = @($results) } | ConvertTo-Json -Depth 5 -Compress"#;

pub const VERIFY_SCRIPT: &'static str = r#"param([string]$RecordsJson,[string]$Server,[string]$RequireAdSrv,[string]$Domain,[string]$HttpUrl)
$ErrorActionPreference = 'Stop'
# See dns.apply_resources: @(... | ConvertFrom-Json) nests the decoded array on
# Windows PowerShell 5.1, which binds $record to every record at once.
$records = $RecordsJson | ConvertFrom-Json
$records = @($records)
$checks = foreach ($record in $records) {
    if ($record.kind -eq 'PTR') {
        $answer = @(Resolve-DnsName -Name ([string]$record.name) -Type PTR -Server $Server -DnsOnly -NoHostsFile)
        $actual = @($answer | Where-Object Type -eq PTR | ForEach-Object { $_.NameHost.TrimEnd('.') })
        $expected = ([string]$record.value).TrimEnd('.')
    } else {
        $fqdn = ([string]$record.name) + '.' + ([string]$record.zone)
        $answer = @(Resolve-DnsName -Name $fqdn -Type ([string]$record.kind) -Server $Server -DnsOnly -NoHostsFile)
        if ($record.kind -eq 'A') { $actual = @($answer | Where-Object Type -eq A | ForEach-Object IPAddress); $expected = [string]$record.value }
        else { $actual = @($answer | Where-Object Type -eq CNAME | ForEach-Object { $_.NameHost.TrimEnd('.') }); $expected = ([string]$record.value).TrimEnd('.') }
    }
    $ok = @($actual | Where-Object { $_ -ieq $expected }).Count -gt 0
    [pscustomobject]@{ id = [string]$record.id; kind = [string]$record.kind; ok = $ok; expected = $expected; actual = @($actual) }
}
$adSrvOk = $true
$srvChecks = @()
if ($RequireAdSrv -eq 'true') {
    $srvNames = @("_ldap._tcp.$Domain", "_kerberos._tcp.$Domain", "_ldap._tcp.dc._msdcs.$Domain")
    $srvChecks = @($srvNames | ForEach-Object {
        $answers = @(Resolve-DnsName -Name $_ -Type SRV -Server $Server -DnsOnly -NoHostsFile)
        [pscustomobject]@{ name = $_; ok = @($answers | Where-Object Type -eq SRV).Count -gt 0 }
    })
    $adSrvOk = @($srvChecks | Where-Object { -not $_.ok }).Count -eq 0
}
$httpOk = $true
if ($HttpUrl) {
    $response = Invoke-WebRequest -Uri $HttpUrl -UseBasicParsing -TimeoutSec 30
    $httpOk = [int]$response.StatusCode -ge 200 -and [int]$response.StatusCode -lt 400
}
$allVerified = @($checks | Where-Object { -not $_.ok }).Count -eq 0
if (-not $allVerified -or -not $adSrvOk -or -not $httpOk) { throw 'DNS verification failed' }
[pscustomobject]@{ all_verified = $allVerified; ad_srv_ok = $adSrvOk; http_ok = $httpOk; records = @($checks); srv = @($srvChecks) } | ConvertTo-Json -Depth 6 -Compress"#;

/// The kinds of DNS resources that a plan may hold.
#[derive(Clone, Copy, Debug, PartialEq, Eq, Structural)]
pub enum PlannedDnsKind {
    A,
    Ptr,
    Cname,
}

/// One DNS resource of a plan.
#[derive(Debug)]
pub struct PlannedDnsRecord {
    pub id: String,
    pub kind: PlannedDnsKind,
    pub zone: String,
    pub name: String,
    pub value: String,
}

#[verifier::ext_equal]
pub struct PlannedDnsRecordView {
    pub id: Seq<char>,
    pub kind: PlannedDnsKind,
    pub zone: Seq<char>,
    pub name: Seq<char>,
    pub value: Seq<char>,
}

impl View for PlannedDnsRecord {
    type V = PlannedDnsRecordView;

    open spec fn view(&self) -> PlannedDnsRecordView {
        PlannedDnsRecordView {
            id: self.id@,
            kind: self.kind,
            zone: self.zone@,
            name: self.name@,
            value: self.value@,
        }
    }
}

/// The resources that a list of records holds.
pub open spec fn records_view(list: Seq<PlannedDnsRecord>) -> Seq<PlannedDnsRecordView> {
    list.map_values(|r: PlannedDnsRecord| r@)
}

/// A DNS name of one label and no dot.
pub open spec fn is_single_label(s: Seq<char>) -> bool {
    is_dns_name(s) && !s.contains('.')
}

/// Whether `value` is a DNS name of one label and no dot.
pub fn valid_single_label(value: &str) -> (r: bool)
    ensures
        r == is_single_label(value@),
{
    valid_dns_name(value) && !has_char(value, '.')
}

/// `s` without the dots at its end.
pub open spec fn without_end_dots(s: Seq<char>) -> Seq<char>
    decreases s.len(),
{
    if s.len() > 0 && s.last() == '.' {
        without_end_dots(s.drop_last())
    } else {
        s
    }
}

/// `c`, or the lower-case letter where it is an upper-case ASCII letter.
pub open spec fn lower_char(c: char) -> char {
    if 'A' <= c <= 'Z' {
        (c as int + 32) as char
    } else {
        c
    }
}

/// `s` with its upper-case ASCII letters made lower-case.
pub open spec fn lower(s: Seq<char>) -> Seq<char> {
    s.map_values(|c: char| lower_char(c))
}

/// Every text of the list writes a number up to 255.
pub open spec fn are_byte_labels(labels: Seq<Seq<char>>) -> bool {
    forall|i: int| 0 <= i < labels.len() ==> in_range(#[trigger] labels[i], 0, 255)
}

/// A zone for reverse lookups of IPv4 addresses: one to three octets before
/// `.in-addr.arpa`, in any case, with any number of dots at the end.
pub open spec fn is_reverse_zone(s: Seq<char>) -> bool {
    let normalized = lower(without_end_dots(s));
    let suffix = ".in-addr.arpa"@;
    let labels = pieces(normalized.take(normalized.len() - suffix.len()), Separator::Char('.'));
    &&& suffix.is_suffix_of(normalized)
    &&& 1 <= labels.len() <= 3
    &&& are_byte_labels(labels)
}

pub(crate) proof fn lemma_without_end_dots(s: Seq<char>, n: int)
    requires
        0 <= n <= s.len(),
        forall|k: int| n <= k < s.len() ==> #[trigger] s[k] == '.',
        n > 0 ==> s[n - 1] != '.',
    ensures
        without_end_dots(s) == s.take(n),
    decreases s.len() - n,
{
    if n < s.len() {
        assert(s.last() == s[s.len() - 1]);
        let rest = s.drop_last();
        assert forall|k: int| n <= k < rest.len() implies #[trigger] rest[k] == '.' by {
            assert(rest[k] == s[k]);
        }
        lemma_without_end_dots(rest, n);
        assert(rest.take(n) =~= s.take(n));
    } else {
        assert(s.take(n) =~= s);
    }
}

/// `s` without the dots at its end, with its upper-case ASCII letters made
/// lower-case.
fn normalized_zone(s: &str) -> (r: Vec<char>)
    ensures
        r@ == lower(without_end_dots(s@)),
{
    let chars = chars_of(s);
    let mut len: usize = chars.len();
    while len > 0 && chars[len - 1] == '.'
        invariant
            len <= chars@.len(),
            forall|k: int| len <= k < chars@.len() ==> #[trigger] chars@[k] == '.',
        decreases len,
    {
        len -= 1;
    }
    proof {
        lemma_without_end_dots(chars@, len as int);
    }
    let mut out: Vec<char> = Vec::new();
    let mut i: usize = 0;
    while i < len
        invariant
            i <= len <= chars@.len(),
            out@.len() == i,
            forall|k: int| 0 <= k < i ==> #[trigger] out@[k] == lower_char(chars@[k]),
        decreases len - i,
    {
        let c = chars[i];
        if 'A' <= c && c <= 'Z' {
            out.push((c as u8 + 32) as char);
        } else {
            out.push(c);
        }
        i += 1;
    }
    assert(out@ =~= lower(without_end_dots(s@)));
    out
}

/// Whether `value` is a zone for reverse lookups of IPv4 addresses.
pub fn valid_reverse_zone(value: &str) -> (r: bool)
    ensures
        r == is_reverse_zone(value@),
{
    let chars = normalized_zone(value);
    let suffix = chars_of(".in-addr.arpa");
    if chars.len() < suffix.len() {
        return false;
    }
    let cut: usize = chars.len() - suffix.len();
    let tail = text_between(&chars, cut, chars.len());
    if !same(tail.as_str(), ".in-addr.arpa") {
        return false;
    }
    let prefix = text_between(&chars, 0, cut);
    assert(prefix@ =~= chars@.take(cut as int));
    let labels = split(prefix.as_str(), Separator::Char('.'));
    let ghost parts = pieces(prefix@, Separator::Char('.'));
    assert(parts.len() == labels@.len());
    if labels.len() < 1 || labels.len() > 3 {
        return false;
    }
    let mut i: usize = 0;
    while i < labels.len()
        invariant
            i <= labels@.len(),
            texts(labels@) == parts,
            forall|k: int| 0 <= k < i ==> in_range(#[trigger] parts[k], 0, 255),
            is_reverse_zone(value@) == are_byte_labels(parts),
        decreases labels.len() - i,
    {
        assert(parts[i as int] == labels@[i as int]@);
        if !within(labels[i].as_str(), 0, 255) {
            return false;
        }
        i += 1;
    }
    assert(parts.len() == labels@.len());
    true
}

/// What is wrong with one resource.
pub open spec fn record_fault(r: PlannedDnsRecordView) -> Option<Seq<char>> {
    if !(1 <= r.id.len() <= 500 && only(r.id, ":_-"@)) {
        Some("contains an invalid resource id"@)
    } else if !is_dns_name(r.zone) {
        Some("contains an invalid DNS zone"@)
    } else {
        match r.kind {
            PlannedDnsKind::A => if !is_single_label(r.name) || !is_dotted_quad(r.value) {
                Some("contains an invalid A record"@)
            } else {
                None
            },
            PlannedDnsKind::Ptr => if !is_reverse_zone(r.zone) || !is_dotted_quad(r.name)
                || !is_dns_name(r.value) {
                Some("contains an invalid PTR record"@)
            } else {
                None
            },
            PlannedDnsKind::Cname => if !is_single_label(r.name) || !is_dns_name(r.value) {
                Some("contains an invalid CNAME record"@)
            } else {
                None
            },
        }
    }
}

/// What is wrong with the first resource that is not right.
pub open spec fn first_record_fault(list: Seq<PlannedDnsRecordView>) -> Option<Seq<char>>
    decreases list.len(),
{
    if list.len() == 0 {
        None
    } else if first_record_fault(list.drop_last()) is Some {
        first_record_fault(list.drop_last())
    } else {
        record_fault(list.last())
    }
}

/// Why the planned resources are refused, if they are.
pub open spec fn records_refusal(ctx: ContextView) -> Option<CommandErrorView> {
    if !ctx.params.contains_key("records"@) {
        Some(missing("records"@))
    } else if byte_len(ctx.params["records"@]) > MAX_RECORDS_BYTES {
        Some(refused("records"@, "JSON payload is too large"@))
    } else {
        match ctx.records {
            None => Some(refused("records"@, "must be a JSON array of DNS resources"@)),
            Some(list) => if list.len() == 0 || list.len() > MAX_DNS_RESOURCES {
                Some(refused("records"@, "must contain between 1 and 32 resources"@))
            } else {
                match first_record_fault(list) {
                    Some(reason) => Some(refused("records"@, reason)),
                    None => None,
                }
            },
        }
    }
}

/// What is wrong with a resource.
pub fn check_record(record: &PlannedDnsRecord) -> (r: Result<(), CommandError>)
    ensures
        match r {
            Ok(_) => record_fault(record@) is None,
            Err(error) => record_fault(record@) matches Some(reason) && error@ == refused(
                "records"@,
                reason,
            ),
        },
{
    if !named_within(record.id.as_str(), 500, ":_-") {
        return Err(invalid("records", "contains an invalid resource id"));
    }
    if !valid_dns_name(record.zone.as_str()) {
        return Err(invalid("records", "contains an invalid DNS zone"));
    }
    match record.kind {
        PlannedDnsKind::A => {
            if !valid_single_label(record.name.as_str()) || !dotted_quad(record.value.as_str()) {
                return Err(invalid("records", "contains an invalid A record"));
            }
        },
        PlannedDnsKind::Ptr => {
            if !valid_reverse_zone(record.zone.as_str()) || !dotted_quad(record.name.as_str())
                || !valid_dns_name(record.value.as_str()) {
                return Err(invalid("records", "contains an invalid PTR record"));
            }
        },
        PlannedDnsKind::Cname => {
            if !valid_single_label(record.name.as_str()) || !valid_dns_name(record.value.as_str()) {
                return Err(invalid("records", "contains an invalid CNAME record"));
            }
        },
    }
    Ok(())
}

proof fn lemma_record_fault_stays(list: Seq<PlannedDnsRecordView>, n: int)
    requires
        0 <= n <= list.len(),
        first_record_fault(list.take(n)) is Some,
    ensures
        first_record_fault(list) == first_record_fault(list.take(n)),
    decreases list.len() - n,
{
    if n == list.len() {
        assert(list.take(n) =~= list);
    } else {
        assert(list.take(n + 1).drop_last() =~= list.take(n));
        lemma_record_fault_stays(list, n + 1);
    }
}

/// Check the planned resources, and give back their JSON and the list.
pub fn parse_planned_records<'a>(ctx: &'a CommandContext) -> (r: Result<
    (&'a str, &'a Vec<PlannedDnsRecord>),
    CommandError,
>)
    ensures
        match r {
            Ok((raw, list)) => {
                &&& records_refusal(ctx@) is None
                &&& raw@ == ctx@.params["records"@]
                &&& ctx@.records == Some(records_view(list@))
            },
            Err(error) => records_refusal(ctx@) == Some(error@),
        },
{
    let raw = required(ctx, "records")?;
    if utf8_len(raw) > MAX_RECORDS_BYTES {
        return Err(invalid("records", "JSON payload is too large"));
    }
    let list = match &ctx.records {
        Some(list) => list,
        None => {
            return Err(invalid("records", "must be a JSON array of DNS resources"));
        },
    };
    let ghost all = records_view(list@);
    assert(all.len() == list@.len());
    if list.len() == 0 || list.len() > MAX_DNS_RESOURCES {
        return Err(invalid("records", "must contain between 1 and 32 resources"));
    }
    let mut i: usize = 0;
    while i < list.len()
        invariant
            i <= list@.len(),
            all == records_view(list@),
            first_record_fault(all.take(i as int)) is None,
            first_record_fault(all) matches Some(reason) ==> records_refusal(ctx@) == Some(
                refused("records"@, reason),
            ),
        decreases list.len() - i,
    {
        assert(all.take(i + 1).drop_last() =~= all.take(i as int));
        assert(all.take(i + 1).last() == list@[i as int]@);
        match check_record(&list[i]) {
            Ok(_) => {},
            Err(error) => {
                proof {
                    lemma_record_fault_stays(all, i + 1);
                }
                return Err(error);
            },
        }
        i += 1;
    }
    assert(all.take(all.len() as int) =~= all);
    Ok((raw, list))
}

/// Replace the DNS servers of a network interface.
pub struct DnsSetClient;

/// The servers to set.
pub open spec fn client_servers(p: Map<Seq<char>, Seq<char>>) -> Seq<Seq<char>> {
    items(p["servers"@])
}

/// The interface to set them on, empty for the first one that is up.
pub open spec fn client_interface(p: Map<Seq<char>, Seq<char>>) -> Seq<char> {
    param_or(p, "interface"@, Seq::empty())
}

/// Every text of the list is an IPv4 address in dotted-quad form.
pub open spec fn are_dotted_quads(list: Seq<Seq<char>>) -> bool {
    forall|i: int| 0 <= i < list.len() ==> is_dotted_quad(#[trigger] list[i])
}

/// Why the parameters are refused, if they are.
pub open spec fn set_client_refusal(p: Map<Seq<char>, Seq<char>>) -> Option<CommandErrorView> {
    if !p.contains_key("servers"@) {
        Some(missing("servers"@))
    } else if client_servers(p).len() == 0 || !are_dotted_quads(client_servers(p)) {
        Some(
            refused(
                "servers"@,
                "must be a comma-separated list of dotted-quad IPv4 addresses"@,
            ),
        )
    } else {
        None
    }
}

/// The result of setting the servers, with what the machine then read back.
pub open spec fn set_client_result(p: Map<Seq<char>, Seq<char>>, stdout: Seq<char>) -> JsonView {
    JsonView::Object(
        seq![
            ("servers"@, JsonView::Array(text_values(client_servers(p)))),
            ("applied"@, JsonView::Text(trim(stdout))),
            (
                "interface"@,
                if client_interface(p).len() == 0 {
                    JsonView::Null
                } else {
                    JsonView::Text(client_interface(p))
                },
            ),
        ],
    )
}

fn all_dotted_quads(list: &Vec<String>) -> (r: bool)
    ensures
        r == are_dotted_quads(texts(list@)),
{
    let mut i: usize = 0;
    while i < list.len()
        invariant
            i <= list@.len(),
            forall|k: int| 0 <= k < i ==> is_dotted_quad(#[trigger] texts(list@)[k]),
        decreases list.len() - i,
    {
        assert(texts(list@)[i as int] == list@[i as int]@);
        if !dotted_quad(list[i].as_str()) {
            return false;
        }
        i += 1;
    }
    true
}

impl DnsSetClient {
    fn servers(&self, ctx: &CommandContext) -> (r: Result<Vec<String>, CommandError>)
        ensures
            match r {
                Ok(list) => set_client_refusal(ctx@.params) is None && texts(list@)
                    == client_servers(ctx@.params),
                Err(error) => set_client_refusal(ctx@.params) == Some(error@),
            },
    {
        let list = list_items(required(ctx, "servers")?);
        assert(texts(list@).len() == list@.len());
        if list.len() == 0 || !all_dotted_quads(&list) {
            return Err(
                invalid(
                    "servers",
                    "must be a comma-separated list of dotted-quad IPv4 addresses",
                ),
            );
        }
        Ok(list)
    }
}

impl CommandHandler for DnsSetClient {
    open spec fn spec_name(&self) -> Seq<char> {
        "dns.set_client"@
    }

    open spec fn spec_capability(&self) -> Capability {
        Capability::VmProvision
    }

    open spec fn step(&self, ctx: ContextView) -> Result<StepView, CommandErrorView> {
        unless_refused(
            set_client_refusal(ctx.params),
            running(
                "configuring DNS client"@,
                30,
                SET_CLIENT_SCRIPT@,
                seq![joined(client_servers(ctx.params), ","@), client_interface(ctx.params)],
            ),
        )
    }

    open spec fn outcome(&self, ctx: ContextView, answer: ShellOutputView) -> Result<
        JsonView,
        CommandErrorView,
    > {
        concluded(
            set_client_refusal(ctx.params),
            answer,
            Ok(set_client_result(ctx.params, answer.stdout)),
        )
    }

    proof fn refusal_stands(&self, ctx: ContextView, answer: ShellOutputView) {
    }

    proof fn failed_run_is_reported(&self, ctx: ContextView, answer: ShellOutputView) {
    }

    fn name(&self) -> &'static str {
        "dns.set_client"
    }

    fn required_capability(&self) -> Capability {
        Capability::VmProvision
    }

    fn prepare(&self, ctx: &CommandContext) -> Result<Step, CommandError> {
        let servers = self.servers(ctx)?;
        let call = ShellCall {
            script: SET_CLIENT_SCRIPT,
            args: vec![join(&servers, ","), optional_text(ctx, "interface").to_owned()],
        };
        assert(texts(call.args@) =~= self.step(ctx@)->Ok_0.shell->Some_0.args);
        Ok(Step { phase: "configuring DNS client", percent: 30, shell: Some(call) })
    }

    fn execute(&self, ctx: &CommandContext, answer: &ShellOutput) -> Result<Json, CommandError> {
        let servers = self.servers(ctx)?;
        require_success(answer)?;
        let alias = optional_text(ctx, "interface");
        let interface = if alias.is_empty() {
            Json::Null
        } else {
            text(alias)
        };
        let result = object(
            vec![
                entry("servers", text_array(&servers)),
                entry("applied", Json::Text(trimmed(answer.stdout.as_str()))),
                entry("interface", interface),
            ],
        );
        assert(result@->Object_0 =~= set_client_result(ctx@.params, answer@.stdout)->Object_0);
        Ok(result)
    }
}

/// Create an alias in a zone. An alias of the same name is replaced, so running a
/// plan again converges.
pub struct DnsCreateRecord;

/// Why the parameters are refused, if they are.
pub open spec fn create_record_refusal(p: Map<Seq<char>, Seq<char>>) -> Option<CommandErrorView> {
    if !p.contains_key("zone"@) {
        Some(missing("zone"@))
    } else if !is_dns_name(p["zone"@]) {
        Some(refused("zone"@, "must be a DNS zone name"@))
    } else if !p.contains_key("name"@) {
        Some(missing("name"@))
    } else if !is_single_label(p["name"@]) {
        Some(refused("name"@, "must be a single DNS label"@))
    } else if !p.contains_key("target"@) {
        Some(missing("target"@))
    } else if !is_dns_name(p["target"@]) {
        Some(refused("target"@, "must be a DNS host name"@))
    } else {
        None
    }
}

/// The result of creating an alias, with what the server then read back.
pub open spec fn create_record_result(p: Map<Seq<char>, Seq<char>>, stdout: Seq<char>) -> JsonView {
    JsonView::Object(
        seq![
            ("zone"@, JsonView::Text(p["zone"@])),
            ("name"@, JsonView::Text(p["name"@])),
            ("target"@, JsonView::Text(p["target"@])),
            ("applied"@, JsonView::Text(trim(stdout))),
        ],
    )
}

/// The checked parameters of an alias.
struct AliasRequest<'a> {
    zone: &'a str,
    name: &'a str,
    target: &'a str,
}

impl DnsCreateRecord {
    fn request<'a>(&self, ctx: &'a CommandContext) -> (r: Result<AliasRequest<'a>, CommandError>)
        ensures
            match r {
                Ok(request) => {
                    &&& create_record_refusal(ctx@.params) is None
                    &&& request.zone@ == ctx@.params["zone"@]
                    &&& request.name@ == ctx@.params["name"@]
                    &&& request.target@ == ctx@.params["target"@]
                },
                Err(error) => create_record_refusal(ctx@.params) == Some(error@),
            },
    {
        let zone = required(ctx, "zone")?;
        if !valid_dns_name(zone) {
            return Err(invalid("zone", "must be a DNS zone name"));
        }
        let name = required(ctx, "name")?;
        if !valid_single_label(name) {
            return Err(invalid("name", "must be a single DNS label"));
        }
        let target = required(ctx, "target")?;
        if !valid_dns_name(target) {
            return Err(invalid("target", "must be a DNS host name"));
        }
        Ok(AliasRequest { zone, name, target })
    }
}

impl CommandHandler for DnsCreateRecord {
    open spec fn spec_name(&self) -> Seq<char> {
        "dns.create_record"@
    }

    open spec fn spec_capability(&self) -> Capability {
        Capability::VmProvision
    }

    open spec fn step(&self, ctx: ContextView) -> Result<StepView, CommandErrorView> {
        let p = ctx.params;
        unless_refused(
            create_record_refusal(p),
            running(
                "creating DNS record"@,
                30,
                CREATE_RECORD_SCRIPT@,
                seq![p["zone"@], p["name"@], p["target"@]],
            ),
        )
    }

    open spec fn outcome(&self, ctx: ContextView, answer: ShellOutputView) -> Result<
        JsonView,
        CommandErrorView,
    > {
        concluded(
            create_record_refusal(ctx.params),
            answer,
            Ok(create_record_result(ctx.params, answer.stdout)),
        )
    }

    proof fn refusal_stands(&self, ctx: ContextView, answer: ShellOutputView) {
    }

    proof fn failed_run_is_reported(&self, ctx: ContextView, answer: ShellOutputView) {
    }

    fn name(&self) -> &'static str {
        "dns.create_record"
    }

    fn required_capability(&self) -> Capability {
        Capability::VmProvision
    }

    fn prepare(&self, ctx: &CommandContext) -> Result<Step, CommandError> {
        let request = self.request(ctx)?;
        let call = ShellCall {
            script: CREATE_RECORD_SCRIPT,
            args: vec![
                request.zone.to_owned(),
                request.name.to_owned(),
                request.target.to_owned(),
            ],
        };
        assert(texts(call.args@) =~= self.step(ctx@)->Ok_0.shell->Some_0.args);
        Ok(Step { phase: "creating DNS record", percent: 30, shell: Some(call) })
    }

    fn execute(&self, ctx: &CommandContext, answer: &ShellOutput) -> Result<Json, CommandError> {
        let request = self.request(ctx)?;
        require_success(answer)?;
        let result = object(
            vec![
                entry("zone", text(request.zone)),
                entry("name", text(request.name)),
                entry("target", text(request.target)),
                entry("applied", Json::Text(trimmed(answer.stdout.as_str()))),
            ],
        );
        assert(result@->Object_0 =~= create_record_result(ctx@.params, answer@.stdout)->Object_0);
        Ok(result)
    }
}

/// Apply the planned resources on the authoritative server. A value that is
/// already there is kept; a different one is a conflict, so that a deployment
/// never takes over a name by replacing it silently.
pub struct DnsApplyResources;

/// The result of applying resources: how many, and what the server reported.
pub open spec fn apply_result(records: Seq<PlannedDnsRecordView>, document: JsonView) -> JsonView {
    JsonView::Object(
        seq![("applied"@, JsonView::Number(records.len())), ("readback"@, document)],
    )
}

impl DnsApplyResources {
    fn report(&self, list: &Vec<PlannedDnsRecord>, document: Json) -> (r: Json)
        ensures
            r@ == apply_result(records_view(list@), document@),
    {
        assert(records_view(list@).len() == list@.len());
        let result = object(
            vec![
                entry("applied", Json::Number(list.len() as u64)),
                entry("readback", document),
            ],
        );
        assert(result@->Object_0 =~= apply_result(records_view(list@), document@)->Object_0);
        result
    }

    /// The end of the command, given the document on the shell's output.
    pub fn conclude(&self, ctx: &CommandContext, document: Json) -> (r: Result<Json, CommandError>)
        ensures
            outcome_view(r) == judged(
                records_refusal(ctx@),
                Ok(apply_result(ctx@.records.unwrap(), document@)),
            ),
    {
        let (_, list) = parse_planned_records(ctx)?;
        Ok(self.report(list, document))
    }
}

impl CommandHandler for DnsApplyResources {
    open spec fn spec_name(&self) -> Seq<char> {
        "dns.apply_resources"@
    }

    open spec fn spec_capability(&self) -> Capability {
        Capability::VmProvision
    }

    open spec fn step(&self, ctx: ContextView) -> Result<StepView, CommandErrorView> {
        unless_refused(
            records_refusal(ctx),
            running(
                "applying DNS resources"@,
                30,
                APPLY_SCRIPT@,
                seq![ctx.params["records"@]],
            ),
        )
    }

    open spec fn outcome(&self, ctx: ContextView, answer: ShellOutputView) -> Result<
        JsonView,
        CommandErrorView,
    > {
        concluded(
            records_refusal(ctx),
            answer,
            Ok(apply_result(ctx.records.unwrap(), document_on(answer.stdout))),
        )
    }

    proof fn refusal_stands(&self, ctx: ContextView, answer: ShellOutputView) {
    }

    proof fn failed_run_is_reported(&self, ctx: ContextView, answer: ShellOutputView) {
    }

    fn name(&self) -> &'static str {
        "dns.apply_resources"
    }

    fn required_capability(&self) -> Capability {
        Capability::VmProvision
    }

    fn prepare(&self, ctx: &CommandContext) -> Result<Step, CommandError> {
        let (raw, _) = parse_planned_records(ctx)?;
        let call = ShellCall { script: APPLY_SCRIPT, args: vec![raw.to_owned()] };
        assert(texts(call.args@) =~= seq![raw@]);
        Ok(Step { phase: "applying DNS resources", percent: 30, shell: Some(call) })
    }

    fn execute(&self, ctx: &CommandContext, answer: &ShellOutput) -> Result<Json, CommandError> {
        let _ = parse_planned_records(ctx)?;
        require_success(answer)?;
        self.conclude(ctx, parse_json(answer.stdout.as_str()))
    }
}

/// Resolve every planned resource through a DNS server; on demand, also the
/// service records that a forest needs and a URL. The script fails on any
/// mismatch, so a deployment that must not go on without its names stops here.
pub struct DnsVerify;

/// Whether to check the service records: `true` or `false`.
pub open spec fn verify_srv(p: Map<Seq<char>, Seq<char>>) -> Seq<char> {
    param_or(p, "requireAdSrv"@, "false"@)
}

/// The domain whose service records to check.
pub open spec fn verify_domain(p: Map<Seq<char>, Seq<char>>) -> Seq<char> {
    param_or(p, "domain"@, Seq::empty())
}

/// The URL to fetch, empty for none.
pub open spec fn verify_url(p: Map<Seq<char>, Seq<char>>) -> Seq<char> {
    param_or(p, "httpUrl"@, Seq::empty())
}

/// A URL over HTTP that nothing in a script could take for anything else.
pub open spec fn is_safe_url(s: Seq<char>) -> bool {
    &&& "http://"@.is_prefix_of(s) || "https://"@.is_prefix_of(s)
    &&& byte_len(s) <= 300
    &&& free_of(s, "\"'`;$ \r\n"@)
}

/// Why the parameters are refused, if they are.
pub open spec fn verify_refusal(ctx: ContextView) -> Option<CommandErrorView> {
    let p = ctx.params;
    if records_refusal(ctx) is Some {
        records_refusal(ctx)
    } else if !p.contains_key("server"@) {
        Some(missing("server"@))
    } else if !is_dotted_quad(p["server"@]) && !is_dns_name(p["server"@]) {
        Some(refused("server"@, "must be an IPv4 address or DNS name"@))
    } else if verify_srv(p) != "true"@ && verify_srv(p) != "false"@ {
        Some(refused("requireAdSrv"@, "must be true or false"@))
    } else if verify_srv(p) == "true"@ && !is_dns_name(verify_domain(p)) {
        Some(refused("domain"@, "must be a DNS domain name"@))
    } else if verify_url(p).len() > 0 && !is_safe_url(verify_url(p)) {
        Some(refused("httpUrl"@, "must be a safe HTTP(S) URL"@))
    } else {
        None
    }
}

fn safe_url(value: &str) -> (r: bool)
    ensures
        r == is_safe_url(value@),
{
    (begins_with(value, "http://") || begins_with(value, "https://")) && utf8_len(value) <= 300
        && clear_of(value, "\"'`;$ \r\n")
}

/// The checked parameters of a verification.
struct VerifyRequest<'a> {
    records: &'a str,
    server: &'a str,
    srv: &'a str,
    domain: &'a str,
    url: &'a str,
}

impl DnsVerify {
    fn request<'a>(&self, ctx: &'a CommandContext) -> (r: Result<VerifyRequest<'a>, CommandError>)
        ensures
            match r {
                Ok(request) => {
                    &&& verify_refusal(ctx@) is None
                    &&& request.records@ == ctx@.params["records"@]
                    &&& request.server@ == ctx@.params["server"@]
                    &&& request.srv@ == verify_srv(ctx@.params)
                    &&& request.domain@ == verify_domain(ctx@.params)
                    &&& request.url@ == verify_url(ctx@.params)
                },
                Err(error) => verify_refusal(ctx@) == Some(error@),
            },
    {
        let (records, _) = parse_planned_records(ctx)?;
        let server = required(ctx, "server")?;
        if !dotted_quad(server) && !valid_dns_name(server) {
            return Err(invalid("server", "must be an IPv4 address or DNS name"));
        }
        let srv = optional(ctx, "requireAdSrv", "false");
        if !same(srv, "true") && !same(srv, "false") {
            return Err(invalid("requireAdSrv", "must be true or false"));
        }
        let domain = optional_text(ctx, "domain");
        if same(srv, "true") && !valid_dns_name(domain) {
            return Err(invalid("domain", "must be a DNS domain name"));
        }
        let url = optional_text(ctx, "httpUrl");
        if !url.is_empty() && !safe_url(url) {
            return Err(invalid("httpUrl", "must be a safe HTTP(S) URL"));
        }
        Ok(VerifyRequest { records, server, srv, domain, url })
    }
}

impl CommandHandler for DnsVerify {
    open spec fn spec_name(&self) -> Seq<char> {
        "dns.verify"@
    }

    open spec fn spec_capability(&self) -> Capability {
        Capability::VmRead
    }

    open spec fn step(&self, ctx: ContextView) -> Result<StepView, CommandErrorView> {
        let p = ctx.params;
        unless_refused(
            verify_refusal(ctx),
            running(
                "verifying DNS resources"@,
                30,
                VERIFY_SCRIPT@,
                seq![
                    p["records"@],
                    p["server"@],
                    verify_srv(p),
                    verify_domain(p),
                    verify_url(p),
                ],
            ),
        )
    }

    open spec fn outcome(&self, ctx: ContextView, answer: ShellOutputView) -> Result<
        JsonView,
        CommandErrorView,
    > {
        concluded(verify_refusal(ctx), answer, Ok(document_on(answer.stdout)))
    }

    proof fn refusal_stands(&self, ctx: ContextView, answer: ShellOutputView) {
    }

    proof fn failed_run_is_reported(&self, ctx: ContextView, answer: ShellOutputView) {
    }

    fn name(&self) -> &'static str {
        "dns.verify"
    }

    fn required_capability(&self) -> Capability {
        Capability::VmRead
    }

    fn prepare(&self, ctx: &CommandContext) -> Result<Step, CommandError> {
        let request = self.request(ctx)?;
        let call = ShellCall {
            script: VERIFY_SCRIPT,
            args: vec![
                request.records.to_owned(),
                request.server.to_owned(),
                request.srv.to_owned(),
                request.domain.to_owned(),
                request.url.to_owned(),
            ],
        };
        assert(texts(call.args@) =~= self.step(ctx@)->Ok_0.shell->Some_0.args);
        Ok(Step { phase: "verifying DNS resources", percent: 30, shell: Some(call) })
    }

    fn execute(&self, ctx: &CommandContext, answer: &ShellOutput) -> Result<Json, CommandError> {
        let _ = self.request(ctx)?;
        require_success(answer)?;
        Ok(parse_json(answer.stdout.as_str()))
    }
}

pub(crate) proof fn lemma_no_record_fault(list: Seq<PlannedDnsRecordView>)
    requires
        first_record_fault(list) is None,
    ensures
        forall|i: int| 0 <= i < list.len() ==> record_fault(#[trigger] list[i]) is None,
    decreases list.len(),
{
    if list.len() > 0 {
        let rest = list.drop_last();
        lemma_no_record_fault(rest);
        assert forall|i: int| 0 <= i < list.len() implies record_fault(
            #[trigger] list[i],
        ) is None by {
            if i < rest.len() {
                assert(rest[i] == list[i]);
            }
        }
    }
}

/// A plan that is accepted holds one to 32 resources, and every one of them is
/// right.
pub proof fn accepted_plans_are_right(ctx: ContextView)
    requires
        records_refusal(ctx) is None,
    ensures
        ctx.records matches Some(list) && {
            &&& 1 <= list.len() <= 32
            &&& forall|i: int| 0 <= i < list.len() ==> record_fault(#[trigger] list[i]) is None
        },
{
    lemma_no_record_fault(ctx.records.unwrap());
}

/// A plan is applied and verified under the same rules: whatever is verified could
/// have been applied, and the two scripts are given the same records.
pub proof fn verified_plans_can_be_applied(ctx: ContextView)
    ensures
        DnsVerify.step(ctx) matches Ok(verify) ==> (DnsApplyResources.step(ctx) matches Ok(apply)
            && apply.shell->Some_0.args[0] == verify.shell->Some_0.args[0]),
{
}

/// The servers that are set are those that the argument lists.
pub proof fn client_servers_split_back(p: Map<Seq<char>, Seq<char>>)
    requires
        set_client_refusal(p) is None,
    ensures
        pieces(joined(client_servers(p), ","@), Separator::Char(',')) == client_servers(p),
{
    items_are_plain(p["servers"@]);
    reveal_strlit(",");
    assert(","@ =~= seq![',']);
    split_undoes_join(client_servers(p), ',', Separator::Char(','));
}

/// A name of a single label is a label.
pub proof fn single_labels_are_labels(s: Seq<char>)
    requires
        is_single_label(s),
    ensures
        is_dns_label(s),
{
    assert(s.last() == s[s.len() - 1]);
    assert(s.contains(s.last()));
    assert forall|i: int| 0 <= i < s.len() implies !separates(
        Separator::Char('.'),
        #[trigger] s[i],
    ) by {
        assert(s.contains(s[i]));
    }
    lemma_one_piece(s, Separator::Char('.'));
    assert(is_dns_label(seq![s][0]));
}

} // verus!
