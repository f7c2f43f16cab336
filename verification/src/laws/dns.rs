//! Laws of the DNS commands.

use vstd::prelude::*;

use crate::commands::dns::{
    are_dotted_quads, client_servers_split_back, first_record_fault, is_safe_url,
    lemma_no_record_fault, record_fault, records_refusal, DnsApplyResources, DnsCreateRecord,
    DnsSetClient, DnsVerify, PlannedDnsKind, PlannedDnsRecordView, APPLY_SCRIPT,
    CREATE_RECORD_SCRIPT, SET_CLIENT_SCRIPT, VERIFY_SCRIPT,
};
use crate::ipv4::is_dotted_quad;
use crate::json::JsonView;
use crate::laws::certsecure::tells_each;
use crate::laws::names::{
    names_are_dotted_labels, reverse_zones_are_numbers, reverses, single_labels_by_code,
};
use crate::laws::terms::{
    address, blames, decoded, domain_name, given_or, has_members, label, lacks, reports, runs,
    short_name, tells, web_url,
};
use crate::laws::text::{
    addresses_are_four_bytes, beginnings, free_of_shared_characters, made_of_by_code,
};
use crate::powershell::ShellOutputView;
use crate::registry::{CommandErrorView, CommandHandler, ContextView, StepView};
use crate::split::{items, pieces, trim, Separator};
use crate::text::byte_len;

verus! {

/// Addresses, all of them.
pub open spec fn addresses(list: Seq<Seq<char>>) -> bool {
    forall|i: int| 0 <= i < list.len() ==> address(#[trigger] list[i])
}

proof fn lemma_addresses(list: Seq<Seq<char>>)
    ensures
        are_dotted_quads(list) <==> addresses(list),
{
    assert forall|i: int| 0 <= i < list.len() implies is_dotted_quad(
        #[trigger] list[i],
    ) == address(list[i]) by {
        addresses_are_four_bytes(list[i]);
    }
}

/// Servers are set exactly where some are given and all are addresses. The script
/// is given them with commas between them, and the interface, empty where none is
/// given.
pub proof fn set_client_sets_what_was_given(ctx: ContextView)
    ensures
        ({
            let p = ctx.params;
            let start = DnsSetClient.step(ctx);
            let servers = items(p["servers"@]);
            if !p.dom().contains("servers"@) {
                lacks(start, "servers"@)
            } else if servers.len() == 0 || !addresses(servers) {
                blames(
                    start,
                    "servers"@,
                    "must be a comma-separated list of dotted-quad IPv4 addresses"@,
                )
            } else {
                start matches Ok(step) && {
                    let list = step.shell->Some_0.args[0];
                    &&& reports(start, "configuring DNS client"@, 30)
                    &&& runs(
                        start,
                        SET_CLIENT_SCRIPT@,
                        seq![list, given_or(p, "interface"@, seq![])],
                    )
                    &&& pieces(list, Separator::Char(',')) == servers
                }
            }
        }),
{
    let p = ctx.params;
    lemma_addresses(items(p["servers"@]));
    if DnsSetClient.step(ctx) is Ok {
        client_servers_split_back(p);
    }
}

/// What is told of setting servers: the servers, what the run read back, and the
/// interface where one is given.
pub proof fn set_client_tells_what_was_set(ctx: ContextView, answer: ShellOutputView)
    ensures
        DnsSetClient.step(ctx) is Ok && answer.exit_code == 0 ==> (DnsSetClient.outcome(
            ctx,
            answer,
        ) matches Ok(result) && {
            let interface = given_or(ctx.params, "interface"@, seq![]);
            &&& has_members(result, seq!["servers"@, "applied"@, "interface"@])
            &&& tells_each(result, "servers"@, items(ctx.params["servers"@]))
            &&& tells(result, "applied"@, JsonView::Text(trim(answer.stdout)))
            &&& tells(
                result,
                "interface"@,
                if interface.len() == 0 {
                    JsonView::Null
                } else {
                    JsonView::Text(interface)
                },
            )
        }),
{
    if DnsSetClient.step(ctx) is Ok && answer.exit_code == 0 {
        let list = DnsSetClient.outcome(ctx, answer)->Ok_0->Object_0;
        let servers = items(ctx.params["servers"@]);
        assert(list[0].1->Array_0 =~= Seq::new(
            servers.len(),
            |i: int| JsonView::Text(servers[i]),
        ));
        assert(list[1].0 == "applied"@);
        assert(list[2].0 == "interface"@);
    }
}

/// An alias is created exactly for a domain name as zone, a label as name and a
/// domain name as target, and the script is given these three.
pub proof fn create_record_creates_what_was_given(ctx: ContextView)
    ensures
        ({
            let p = ctx.params;
            let start = DnsCreateRecord.step(ctx);
            if !p.dom().contains("zone"@) {
                lacks(start, "zone"@)
            } else if !domain_name(p["zone"@]) {
                blames(start, "zone"@, "must be a DNS zone name"@)
            } else if !p.dom().contains("name"@) {
                lacks(start, "name"@)
            } else if !label(p["name"@]) {
                blames(start, "name"@, "must be a single DNS label"@)
            } else if !p.dom().contains("target"@) {
                lacks(start, "target"@)
            } else if !domain_name(p["target"@]) {
                blames(start, "target"@, "must be a DNS host name"@)
            } else {
                &&& reports(start, "creating DNS record"@, 30)
                &&& runs(
                    start,
                    CREATE_RECORD_SCRIPT@,
                    seq![p["zone"@], p["name"@], p["target"@]],
                )
            }
        }),
{
    names_are_dotted_labels(ctx.params["zone"@]);
    single_labels_by_code(ctx.params["name"@]);
    names_are_dotted_labels(ctx.params["target"@]);
}

/// What is told of an alias: its zone, name and target as given, and what the run
/// read back.
pub proof fn create_record_tells_what_was_created(ctx: ContextView, answer: ShellOutputView)
    ensures
        DnsCreateRecord.step(ctx) is Ok && answer.exit_code == 0 ==> (DnsCreateRecord.outcome(
            ctx,
            answer,
        ) matches Ok(result) && {
            let p = ctx.params;
            &&& has_members(result, seq!["zone"@, "name"@, "target"@, "applied"@])
            &&& tells(result, "zone"@, JsonView::Text(p["zone"@]))
            &&& tells(result, "name"@, JsonView::Text(p["name"@]))
            &&& tells(result, "target"@, JsonView::Text(p["target"@]))
            &&& tells(result, "applied"@, JsonView::Text(trim(answer.stdout)))
        }),
{
    if DnsCreateRecord.step(ctx) is Ok && answer.exit_code == 0 {
        let list = DnsCreateRecord.outcome(ctx, answer)->Ok_0->Object_0;
        assert(list[0].0 == "zone"@);
        assert(list[1].0 == "name"@);
        assert(list[2].0 == "target"@);
        assert(list[3].0 == "applied"@);
    }
}

/// A zone for reverse lookups.
pub open spec fn reverse_zone(s: Seq<char>) -> bool {
    exists|numbers: Seq<Seq<char>>, n: nat| reverses(numbers, n, s)
}

/// The parts of a resource that its kind decides on are right: an A resource takes
/// a label to an address, a PTR resource an address in a reverse zone to a domain
/// name, a CNAME resource a label to a domain name.
pub open spec fn right_for_its_kind(r: PlannedDnsRecordView) -> bool {
    match r.kind {
        PlannedDnsKind::A => label(r.name) && address(r.value),
        PlannedDnsKind::Ptr => reverse_zone(r.zone) && address(r.name) && domain_name(r.value),
        PlannedDnsKind::Cname => label(r.name) && domain_name(r.value),
    }
}

/// A resource that is right in every part.
pub open spec fn right_resource(r: PlannedDnsRecordView) -> bool {
    short_name(r.id, 500, ":_-"@) && domain_name(r.zone) && right_for_its_kind(r)
}

/// Resources that are right, all of them.
pub open spec fn right_resources(list: Seq<PlannedDnsRecordView>) -> bool {
    forall|i: int| 0 <= i < list.len() ==> right_resource(#[trigger] list[i])
}

/// What is said of a resource that is not right.
pub open spec fn complaint(r: PlannedDnsRecordView) -> Seq<char> {
    if !short_name(r.id, 500, ":_-"@) {
        "contains an invalid resource id"@
    } else if !domain_name(r.zone) {
        "contains an invalid DNS zone"@
    } else {
        match r.kind {
            PlannedDnsKind::A => "contains an invalid A record"@,
            PlannedDnsKind::Ptr => "contains an invalid PTR record"@,
            PlannedDnsKind::Cname => "contains an invalid CNAME record"@,
        }
    }
}

/// A resource has no fault exactly where it is right, and else the fault that its
/// first wrong part has.
pub proof fn right_resources_have_no_fault(r: PlannedDnsRecordView)
    ensures
        right_resource(r) <==> record_fault(r) is None,
        !right_resource(r) ==> record_fault(r) == Some(complaint(r)),
{
    made_of_by_code(r.id, ":_-"@);
    names_are_dotted_labels(r.zone);
    names_are_dotted_labels(r.value);
    single_labels_by_code(r.name);
    addresses_are_four_bytes(r.name);
    addresses_are_four_bytes(r.value);
    reverse_zones_are_numbers(r.zone);
}

proof fn lemma_first_record_fault_at(list: Seq<PlannedDnsRecordView>, i: int)
    requires
        0 <= i < list.len(),
        forall|k: int| 0 <= k < i ==> right_resource(#[trigger] list[k]),
        !right_resource(list[i]),
    ensures
        first_record_fault(list) == Some(complaint(list[i])),
    decreases list.len(),
{
    let rest = list.drop_last();
    right_resources_have_no_fault(list[i]);
    if i < rest.len() {
        assert forall|k: int| 0 <= k < i implies right_resource(#[trigger] rest[k]) by {
            assert(rest[k] == list[k]);
        }
        assert(rest[i] == list[i]);
        lemma_first_record_fault_at(rest, i);
    } else {
        assert forall|k: int| 0 <= k < rest.len() implies right_resource(#[trigger] rest[k]) by {
            assert(rest[k] == list[k]);
        }
        lemma_right_resources(rest);
    }
}

proof fn lemma_right_resources(list: Seq<PlannedDnsRecordView>)
    ensures
        right_resources(list) <==> first_record_fault(list) is None,
    decreases list.len(),
{
    if first_record_fault(list) is None {
        lemma_no_record_fault(list);
        assert forall|i: int| 0 <= i < list.len() implies right_resource(#[trigger] list[i]) by {
            right_resources_have_no_fault(list[i]);
        }
    } else if right_resources(list) {
        let rest = list.drop_last();
        assert forall|k: int| 0 <= k < rest.len() implies right_resource(#[trigger] rest[k]) by {
            assert(rest[k] == list[k]);
        }
        lemma_right_resources(rest);
        assert(right_resource(list[list.len() - 1]));
        right_resources_have_no_fault(list.last());
    }
}

/// The parameter that holds the plan is right: given, of 32 KiB at most, and a list
/// of one to 32 resources that are all right.
pub open spec fn right_plan(ctx: ContextView) -> bool {
    &&& ctx.params.dom().contains("records"@)
    &&& byte_len(ctx.params["records"@]) <= 32768
    &&& ctx.records matches Some(list) && 1 <= list.len() <= 32 && right_resources(list)
}

/// What ends here ends for what is wrong with the plan; where the list is short
/// enough, for its first resource that is not right, which is at `i`.
pub open spec fn refuses_plan(
    start: Result<StepView, CommandErrorView>,
    ctx: ContextView,
    i: int,
) -> bool {
    if !ctx.params.dom().contains("records"@) {
        lacks(start, "records"@)
    } else if byte_len(ctx.params["records"@]) > 32768 {
        blames(start, "records"@, "JSON payload is too large"@)
    } else {
        match ctx.records {
            None => blames(start, "records"@, "must be a JSON array of DNS resources"@),
            Some(list) => if !(1 <= list.len() <= 32) {
                blames(start, "records"@, "must contain between 1 and 32 resources"@)
            } else {
                (0 <= i < list.len() && !right_resource(list[i]) && forall|k: int|
                    0 <= k < i ==> right_resource(#[trigger] list[k])) ==> blames(
                    start,
                    "records"@,
                    complaint(list[i]),
                )
            },
        }
    }
}

/// A plan is applied exactly where it is right, and the script is given its text;
/// else it is refused for what is wrong with it.
pub proof fn apply_takes_right_plans(ctx: ContextView, i: int)
    ensures
        ({
            let start = DnsApplyResources.step(ctx);
            &&& start is Ok <==> right_plan(ctx)
            &&& right_plan(ctx) ==> {
                &&& reports(start, "applying DNS resources"@, 30)
                &&& runs(start, APPLY_SCRIPT@, seq![ctx.params["records"@]])
            }
            &&& !right_plan(ctx) ==> refuses_plan(start, ctx, i)
        }),
{
    lemma_plan(ctx, i);
}

proof fn lemma_plan(ctx: ContextView, i: int)
    ensures
        records_refusal(ctx) is None <==> right_plan(ctx),
        records_refusal(ctx) matches Some(error) ==> refuses_plan(
            Err(error),
            ctx,
            i,
        ),
{
    if let Some(list) = ctx.records {
        lemma_right_resources(list);
        if 0 <= i < list.len() && !right_resource(list[i]) && (forall|k: int|
            0 <= k < i ==> right_resource(#[trigger] list[k])) {
            lemma_first_record_fault_at(list, i);
        }
    }
}

/// What is told of an applied plan: how many resources it held, and what the run
/// printed.
pub proof fn apply_tells_what_was_applied(ctx: ContextView, answer: ShellOutputView)
    ensures
        right_plan(ctx) && answer.exit_code == 0 ==> (DnsApplyResources.outcome(
            ctx,
            answer,
        ) matches Ok(result) && {
            &&& has_members(result, seq!["applied"@, "readback"@])
            &&& tells(result, "applied"@, JsonView::Number(ctx.records.unwrap().len()))
            &&& tells(result, "readback"@, decoded(answer.stdout))
        }),
{
    lemma_plan(ctx, 0);
    if right_plan(ctx) && answer.exit_code == 0 {
        let list = DnsApplyResources.outcome(ctx, answer)->Ok_0->Object_0;
        assert(list[0].0 == "applied"@);
        assert(list[1].0 == "readback"@);
    }
}

/// A URL that is fetched: over HTTP or HTTPS, of 300 bytes at most, and without
/// quotes, separators, blanks or line breaks.
pub open spec fn fetched_url(s: Seq<char>) -> bool {
    web_url(s, "\"'`;$ \r\n"@) && byte_len(s) <= 300
}

proof fn lemma_fetched_url(s: Seq<char>)
    ensures
        is_safe_url(s) <==> fetched_url(s),
{
    beginnings(s, "http://"@);
    beginnings(s, "https://"@);
    free_of_shared_characters(s, "\"'`;$ \r\n"@);
}

/// A plan is verified exactly where it is right, a server is given by address or
/// name, service records are asked for with `true` or not with `false`, the domain
/// is a domain name where they are asked for, and a URL that is given is one that
/// can be fetched.
pub proof fn verify_accepts(ctx: ContextView, i: int)
    ensures
        ({
            let p = ctx.params;
            let start = DnsVerify.step(ctx);
            let srv = given_or(p, "requireAdSrv"@, "false"@);
            let url = given_or(p, "httpUrl"@, seq![]);
            if !right_plan(ctx) {
                start is Err && refuses_plan(start, ctx, i)
            } else if !p.dom().contains("server"@) {
                lacks(start, "server"@)
            } else if !address(p["server"@]) && !domain_name(p["server"@]) {
                blames(start, "server"@, "must be an IPv4 address or DNS name"@)
            } else if srv != "true"@ && srv != "false"@ {
                blames(start, "requireAdSrv"@, "must be true or false"@)
            } else if srv == "true"@ && !domain_name(given_or(p, "domain"@, seq![])) {
                blames(start, "domain"@, "must be a DNS domain name"@)
            } else if url.len() != 0 && !fetched_url(url) {
                blames(start, "httpUrl"@, "must be a safe HTTP(S) URL"@)
            } else {
                start is Ok
            }
        }),
{
    let p = ctx.params;
    lemma_plan(ctx, i);
    addresses_are_four_bytes(p["server"@]);
    names_are_dotted_labels(p["server"@]);
    names_are_dotted_labels(given_or(p, "domain"@, seq![]));
    lemma_fetched_url(given_or(p, "httpUrl"@, seq![]));
}

/// The verification is given the plan's text and then every other parameter as it
/// was given, or its default: service records are not asked for, no domain, no URL.
pub proof fn verify_asks_for_what_was_given(ctx: ContextView)
    ensures
        DnsVerify.step(ctx) matches Ok(step) ==> {
            let p = ctx.params;
            &&& reports(Ok(step), "verifying DNS resources"@, 30)
            &&& runs(
                Ok(step),
                VERIFY_SCRIPT@,
                seq![
                    p["records"@],
                    p["server"@],
                    given_or(p, "requireAdSrv"@, "false"@),
                    given_or(p, "domain"@, seq![]),
                    given_or(p, "httpUrl"@, seq![]),
                ],
            )
        },
{
}

/// Service records that are asked for are checked, in the given domain: no
/// verification that was asked to check them runs without.
pub proof fn asked_service_records_are_checked(ctx: ContextView)
    requires
        ctx.params.dom().contains("requireAdSrv"@),
        ctx.params["requireAdSrv"@] == "true"@,
    ensures
        DnsVerify.step(ctx) matches Ok(step) ==> {
            let args = step.shell->Some_0.args;
            &&& args[2] == "true"@
            &&& ctx.params.dom().contains("domain"@)
            &&& args[3] == ctx.params["domain"@]
            &&& domain_name(args[3])
        },
{
    names_are_dotted_labels(given_or(ctx.params, "domain"@, seq![]));
    if DnsVerify.step(ctx) is Ok {
        assert(given_or(ctx.params, "domain"@, seq![]).len() > 0);
    }
}

/// What is told of a verification is what the run printed.
pub proof fn verify_tells_what_was_printed(ctx: ContextView, answer: ShellOutputView)
    ensures
        DnsVerify.step(ctx) is Ok && answer.exit_code == 0 ==> DnsVerify.outcome(ctx, answer)
            == Ok::<JsonView, CommandErrorView>(decoded(answer.stdout)),
{
}

} // verus!
