//! Laws of the product commands.

use vstd::prelude::*;

use crate::commands::certsecure::{
    alternative_names_split_back, is_http_ok, is_https_url, AptRefresh, CertSecureHarden,
    CertSecureInstall, CertSecureMakeCert, CertSecureVerify, CertSecureWriteHosts,
    APT_REFRESH_SCRIPT, HARDEN_SCRIPT, INSTALL_SCRIPT, MAKE_CERT_SCRIPT, VERIFY_SCRIPT,
    WRITE_HOSTS_SCRIPT,
};
use crate::commands::hosts::{
    block_reads_back, entry_fault, filled_lines, first_fault, host_entries,
    no_fault_is_no_fault_anywhere,
};
use crate::json::{member, JsonView};
use crate::laws::names::{
    leads_into_product, lists_of_names, names_are_dotted_labels, product_paths_lead_into_the_tree,
};
use crate::laws::terms::{
    blames, breaks, counts, decoded, domain_name, domain_names, drawn_from, given_or, has_members,
    lacks, padded_address, reports, runs, short_name, tells,
};
use crate::laws::text::{
    beginnings, made_of_by_code, padded_addresses_are_four_bytes, ranges_hold_numbers,
};
use crate::number::unsigned;
use crate::powershell::ShellOutputView;
use crate::registry::{CommandHandler, ContextView};
use crate::split::{
    items, joined, lemma_one_piece, lemma_pieces_concatenate, pieces, trim, words, Separator,
};

verus! {

/// A refresh of the package lists takes no parameters and no arguments, and tells
/// what it printed.
pub proof fn refresh_takes_nothing(ctx: ContextView, answer: ShellOutputView)
    ensures
        reports(AptRefresh.step(ctx), "refreshing package lists"@, 30),
        runs(AptRefresh.step(ctx), APT_REFRESH_SCRIPT@, seq![]),
        answer.exit_code == 0 ==> (AptRefresh.outcome(ctx, answer) matches Ok(result) && {
            &&& has_members(result, seq!["refreshed"@, "raw"@])
            &&& tells(result, "refreshed"@, JsonView::Bool(true))
            &&& tells(result, "raw"@, JsonView::Text(trim(answer.stdout)))
        }),
{
    if answer.exit_code == 0 {
        let list = AptRefresh.outcome(ctx, answer)->Ok_0->Object_0;
        assert(list[0].1 == JsonView::Bool(true));
        assert(list[1].1 == JsonView::Text(trim(answer.stdout)));
    }
}

/// The entries of two texts with a line break between them are the entries of the
/// one and then those of the other; a line that has words is one entry, of its
/// words.
pub proof fn lines_part_host_entries(left: Seq<char>, right: Seq<char>)
    ensures
        host_entries(left + seq!['\n'] + right) == host_entries(left) + host_entries(right),
        !left.contains('\n') ==> host_entries(left) == if words(left).len() == 0 {
            Seq::empty()
        } else {
            seq![words(left)]
        },
{
    let newline = Separator::Char('\n');
    lemma_pieces_concatenate(left, '\n', right, newline);
    lemma_filled_concatenate(pieces(left, newline), pieces(right, newline));
    if !left.contains('\n') {
        assert forall|i: int| 0 <= i < left.len() implies left[i] != '\n' by {
            assert(left.contains(left[i]));
        }
        lemma_one_piece(left, newline);
        assert(seq![left].drop_last() =~= Seq::<Seq<char>>::empty());
        reveal_with_fuel(filled_lines, 2);
        assert(host_entries(left) =~= if words(left).len() == 0 {
            Seq::empty()
        } else {
            seq![words(left)]
        });
    }
}

proof fn lemma_filled_concatenate(a: Seq<Seq<char>>, b: Seq<Seq<char>>)
    ensures
        filled_lines(a + b) == filled_lines(a) + filled_lines(b),
    decreases b.len(),
{
    if b.len() == 0 {
        assert(a + b =~= a);
        assert(filled_lines(a) + filled_lines(b) =~= filled_lines(a));
    } else {
        lemma_filled_concatenate(a, b.drop_last());
        assert((a + b).drop_last() =~= a + b.drop_last());
        assert(filled_lines(a + b) =~= filled_lines(a) + filled_lines(b));
    }
}

/// An entry of a hosts file: an address and at least one domain name.
pub open spec fn host_entry(fields: Seq<Seq<char>>) -> bool {
    padded_address(fields[0]) && fields.len() != 1 && domain_names(fields.skip(1))
}

proof fn lemma_entry_fault(fields: Seq<Seq<char>>)
    ensures
        entry_fault(fields) is None <==> host_entry(fields),
        entry_fault(fields) == if !padded_address(fields[0]) {
            Some("each line must start with an IPv4 address"@)
        } else if fields.len() == 1 {
            Some("each line must name at least one host"@)
        } else if !domain_names(fields.skip(1)) {
            Some("host names must be valid DNS names"@)
        } else {
            None
        },
{
    padded_addresses_are_four_bytes(fields[0]);
    lists_of_names(fields.skip(1));
}

proof fn lemma_first_fault_at(entries: Seq<Seq<Seq<char>>>, i: int)
    requires
        0 <= i < entries.len(),
        forall|k: int| 0 <= k < i ==> host_entry(#[trigger] entries[k]),
        !host_entry(entries[i]),
    ensures
        first_fault(entries) == entry_fault(entries[i]),
    decreases entries.len(),
{
    let rest = entries.drop_last();
    if i < rest.len() {
        assert forall|k: int| 0 <= k < i implies host_entry(#[trigger] rest[k]) by {
            assert(rest[k] == entries[k]);
        }
        assert(rest[i] == entries[i]);
        lemma_first_fault_at(rest, i);
        lemma_entry_fault(entries[i]);
    } else {
        assert forall|k: int| 0 <= k < rest.len() implies entry_fault(
            #[trigger] rest[k],
        ) is None by {
            assert(host_entry(entries[k]));
            lemma_entry_fault(entries[k]);
        }
        no_fault_is_no_fault_anywhere(rest);
    }
}

/// Hosts entries are written exactly where there are some and each is an address
/// and at least one domain name; else the first that is not says why.
pub proof fn write_hosts_accepts(ctx: ContextView, i: int)
    ensures
        ({
            let start = CertSecureWriteHosts.step(ctx);
            let entries = host_entries(ctx.params["entries"@]);
            let given = ctx.params.dom().contains("entries"@);
            &&& !given ==> lacks(start, "entries"@)
            &&& given && entries.len() == 0 ==> blames(
                start,
                "entries"@,
                "must contain at least one entry"@,
            )
            &&& start is Ok <==> given && entries.len() > 0 && forall|k: int|
                0 <= k < entries.len() ==> host_entry(#[trigger] entries[k])
            &&& given && 0 <= i < entries.len() && !host_entry(entries[i]) && (forall|k: int|
                0 <= k < i ==> host_entry(#[trigger] entries[k])) ==> blames(
                start,
                "entries"@,
                if !padded_address(entries[i][0]) {
                    "each line must start with an IPv4 address"@
                } else if entries[i].len() == 1 {
                    "each line must name at least one host"@
                } else {
                    "host names must be valid DNS names"@
                },
            )
        }),
{
    let entries = host_entries(ctx.params["entries"@]);
    no_fault_is_no_fault_anywhere(entries);
    assert forall|k: int| 0 <= k < entries.len() implies (entry_fault(#[trigger] entries[k]) is None
        <==> host_entry(entries[k])) by {
        lemma_entry_fault(entries[k]);
    }
    if 0 <= i < entries.len() && !host_entry(entries[i]) && (forall|k: int|
        0 <= k < i ==> host_entry(#[trigger] entries[k])) {
        lemma_first_fault_at(entries, i);
        lemma_entry_fault(entries[i]);
    }
}

/// The block that is written has one line for each entry, the entry's words with
/// one space between each two, and stands between the two lines that mark it.
pub proof fn write_hosts_writes_every_entry(ctx: ContextView)
    ensures
        CertSecureWriteHosts.step(ctx) matches Ok(step) ==> {
            let entries = host_entries(ctx.params["entries"@]);
            let args = step.shell->Some_0.args;
            let lines = pieces(args[2], Separator::Char('\n'));
            &&& reports(Ok(step), "writing hosts entries"@, 50)
            &&& runs(
                Ok(step),
                WRITE_HOSTS_SCRIPT@,
                seq![
                    "# BEGIN pki-executor managed entries"@,
                    "# END pki-executor managed entries"@,
                    args[2],
                ],
            )
            &&& lines.len() == entries.len()
            &&& forall|i: int|
                0 <= i < lines.len() ==> #[trigger] lines[i] == joined(entries[i], seq![' '])
        },
{
    reveal_strlit(" ");
    assert(" "@ =~= seq![' ']);
    if CertSecureWriteHosts.step(ctx) is Ok {
        block_reads_back(ctx.params["entries"@]);
    }
}

/// Writing hosts entries tells how many there were, and the number of lines that
/// the shell printed, zero where it printed none that fits 32 bits.
pub proof fn write_hosts_counts(ctx: ContextView, answer: ShellOutputView)
    ensures
        CertSecureWriteHosts.step(ctx) is Ok && answer.exit_code == 0 ==> (
        CertSecureWriteHosts.outcome(ctx, answer) matches Ok(result) && {
            &&& has_members(result, seq!["entries"@, "totalLines"@])
            &&& tells(
                result,
                "entries"@,
                JsonView::Number(host_entries(ctx.params["entries"@]).len()),
            )
            &&& tells(
                result,
                "totalLines"@,
                JsonView::Number(
                    if counts(trim(answer.stdout), 0, 0xffff_ffff) {
                        unsigned(trim(answer.stdout)).unwrap()
                    } else {
                        0
                    },
                ),
            )
        }),
{
    if CertSecureWriteHosts.step(ctx) is Ok && answer.exit_code == 0 {
        let list = CertSecureWriteHosts.outcome(ctx, answer)->Ok_0->Object_0;
        ranges_hold_numbers(trim(answer.stdout), 0, 0xffff_ffff);
        assert(list[0].0 == "entries"@);
        assert(list[1].0 == "totalLines"@);
    }
}

/// A certificate is made exactly for one to eight domain names, at most one
/// address, two paths into the product tree and one to 3650 days; else the first
/// parameter that is not right is the one to blame.
pub proof fn make_cert_accepts(ctx: ContextView)
    ensures
        ({
            let p = ctx.params;
            let start = CertSecureMakeCert.step(ctx);
            let names = items(p["names"@]);
            let ip = given_or(p, "ip"@, seq![]);
            if !p.dom().contains("names"@) {
                lacks(start, "names"@)
            } else if names.len() == 0 || !domain_names(names) {
                blames(start, "names"@, "must be a comma-separated list of DNS names"@)
            } else if names.len() > 8 {
                blames(start, "names"@, "at most 8 subject alternative names"@)
            } else if ip.len() != 0 && !padded_address(ip) {
                blames(start, "ip"@, "must be an IPv4 address"@)
            } else if !p.dom().contains("certPath"@) {
                lacks(start, "certPath"@)
            } else if !p.dom().contains("keyPath"@) {
                lacks(start, "keyPath"@)
            } else if !leads_into_product(p["certPath"@]) {
                blames(
                    start,
                    "certPath"@,
                    "must be an absolute path under the product install directory"@,
                )
            } else if !leads_into_product(p["keyPath"@]) {
                blames(
                    start,
                    "keyPath"@,
                    "must be an absolute path under the product install directory"@,
                )
            } else if !counts(given_or(p, "days"@, "825"@), 1, 3650) {
                blames(start, "days"@, "must be an integer in 1-3650"@)
            } else {
                start is Ok
            }
        }),
{
    let p = ctx.params;
    lists_of_names(items(p["names"@]));
    padded_addresses_are_four_bytes(given_or(p, "ip"@, seq![]));
    product_paths_lead_into_the_tree(p["certPath"@]);
    product_paths_lead_into_the_tree(p["keyPath"@]);
    ranges_hold_numbers(given_or(p, "days"@, "825"@), 1, 3650);
}

/// The alternative names that a certificate is for: each given domain name, and
/// then the address if one is given.
pub open spec fn names_certificate(
    sans: Seq<Seq<char>>,
    names: Seq<Seq<char>>,
    ip: Seq<char>,
) -> bool {
    &&& sans.len() == names.len() + if ip.len() == 0 {
        0int
    } else {
        1
    }
    &&& forall|i: int| 0 <= i < names.len() ==> #[trigger] sans[i] == "DNS:"@ + names[i]
    &&& ip.len() != 0 ==> sans[names.len() as int] == "IP:"@ + ip
}

/// A certificate is made at the given paths for the first given name, with every
/// given name and the address among its alternative names, for the given days.
pub proof fn make_cert_asks_for_what_was_given(ctx: ContextView)
    ensures
        CertSecureMakeCert.step(ctx) matches Ok(step) ==> {
            let p = ctx.params;
            let args = step.shell->Some_0.args;
            &&& reports(Ok(step), "generating TLS certificate"@, 30)
            &&& runs(
                Ok(step),
                MAKE_CERT_SCRIPT@,
                seq![
                    p["certPath"@],
                    p["keyPath"@],
                    items(p["names"@])[0],
                    args[3],
                    given_or(p, "days"@, "825"@),
                ],
            )
            &&& names_certificate(
                pieces(args[3], Separator::Char(',')),
                items(p["names"@]),
                given_or(p, "ip"@, seq![]),
            )
        },
{
    if CertSecureMakeCert.step(ctx) is Ok {
        alternative_names_split_back(ctx.params);
    }
}

/// A certificate that was made is told with the paths and names that it was asked
/// for with, and with the content, the checksum and the expiry that the run
/// printed; a run that printed no content failed.
pub proof fn make_cert_tells_what_was_made(ctx: ContextView, answer: ShellOutputView)
    ensures
        CertSecureMakeCert.step(ctx) matches Ok(step) ==> answer.exit_code == 0 ==> {
            let p = ctx.params;
            let args = step.shell->Some_0.args;
            let document = decoded(answer.stdout);
            let end = CertSecureMakeCert.outcome(ctx, answer);
            if member(document, "contentB64"@) !is Text {
                breaks(end, 1, "certsecure.make_cert produced no certificate"@)
            } else {
                end matches Ok(result) && {
                    &&& has_members(
                        result,
                        seq![
                            "certPath"@,
                            "keyPath"@,
                            "subject"@,
                            "sans"@,
                            "contentB64"@,
                            "sha256"@,
                            "notAfter"@,
                        ],
                    )
                    &&& tells(result, "certPath"@, JsonView::Text(p["certPath"@]))
                    &&& tells(result, "keyPath"@, JsonView::Text(p["keyPath"@]))
                    &&& tells(result, "subject"@, JsonView::Text(args[2]))
                    &&& tells_each(result, "sans"@, pieces(args[3], Separator::Char(',')))
                    &&& tells(result, "contentB64"@, member(document, "contentB64"@))
                    &&& tells(result, "sha256"@, member(document, "sha256"@))
                    &&& tells(result, "notAfter"@, member(document, "notAfter"@))
                }
            }
        },
{
    if CertSecureMakeCert.step(ctx) is Ok && answer.exit_code == 0 {
        alternative_names_split_back(ctx.params);
        let end = CertSecureMakeCert.outcome(ctx, answer);
        if end is Ok {
            let list = end->Ok_0->Object_0;
            assert(list[0].0 == "certPath"@);
            assert(list[1].0 == "keyPath"@);
            assert(list[2].0 == "subject"@);
            let sans = pieces(
                CertSecureMakeCert.step(ctx)->Ok_0.shell->Some_0.args[3],
                Separator::Char(','),
            );
            assert(list[3].1->Array_0 =~= Seq::new(sans.len(), |i: int| JsonView::Text(sans[i])));
            assert(list[4].0 == "contentB64"@);
            assert(list[5].0 == "sha256"@);
            assert(list[6].0 == "notAfter"@);
        }
    }
}

/// A result that has under `name` the array of these texts.
pub open spec fn tells_each(result: JsonView, name: Seq<char>, list: Seq<Seq<char>>) -> bool {
    tells(
        result,
        name,
        JsonView::Array(Seq::new(list.len(), |i: int| JsonView::Text(list[i]))),
    )
}

/// The product is installed exactly with three domain names, a realm of letters,
/// digits, dots, dashes and underscores, and two paths into the product tree; else
/// the first parameter that is not right is the one to blame.
pub proof fn install_accepts(ctx: ContextView)
    ensures
        ({
            let p = ctx.params;
            let start = CertSecureInstall.step(ctx);
            if !p.dom().contains("frontendHost"@) {
                lacks(start, "frontendHost"@)
            } else if !p.dom().contains("backendHost"@) {
                lacks(start, "backendHost"@)
            } else if !p.dom().contains("keycloakHost"@) {
                lacks(start, "keycloakHost"@)
            } else if !domain_name(p["frontendHost"@]) {
                blames(start, "frontendHost"@, "must be a DNS name"@)
            } else if !domain_name(p["backendHost"@]) {
                blames(start, "backendHost"@, "must be a DNS name"@)
            } else if !domain_name(p["keycloakHost"@]) {
                blames(start, "keycloakHost"@, "must be a DNS name"@)
            } else if !p.dom().contains("keycloakRealm"@) {
                lacks(start, "keycloakRealm"@)
            } else if !short_name(p["keycloakRealm"@], 64, "._-"@) {
                blames(
                    start,
                    "keycloakRealm"@,
                    "may only contain letters, digits, dot, dash, underscore"@,
                )
            } else if !p.dom().contains("certPath"@) {
                lacks(start, "certPath"@)
            } else if !p.dom().contains("keyPath"@) {
                lacks(start, "keyPath"@)
            } else if !leads_into_product(p["certPath"@]) {
                blames(
                    start,
                    "certPath"@,
                    "must be an absolute path under the product install directory"@,
                )
            } else if !leads_into_product(p["keyPath"@]) {
                blames(
                    start,
                    "keyPath"@,
                    "must be an absolute path under the product install directory"@,
                )
            } else {
                start is Ok
            }
        }),
{
    let p = ctx.params;
    names_are_dotted_labels(p["frontendHost"@]);
    names_are_dotted_labels(p["backendHost"@]);
    names_are_dotted_labels(p["keycloakHost"@]);
    made_of_by_code(p["keycloakRealm"@], "._-"@);
    product_paths_lead_into_the_tree(p["certPath"@]);
    product_paths_lead_into_the_tree(p["keyPath"@]);
}

/// The installer is given the product's directory and then its six answers, each
/// the parameter of that name, in the order that it asks in.
pub proof fn install_answers_in_order(ctx: ContextView)
    ensures
        CertSecureInstall.step(ctx) matches Ok(step) ==> {
            let p = ctx.params;
            &&& reports(Ok(step), "installing CertSecure Manager"@, 10)
            &&& runs(
                Ok(step),
                INSTALL_SCRIPT@,
                seq![
                    "/opt/certsecure-manager"@,
                    p["frontendHost"@],
                    p["backendHost"@],
                    p["certPath"@],
                    p["keyPath"@],
                    p["keycloakHost"@],
                    p["keycloakRealm"@],
                ],
            )
        },
{
}

/// What is told of an installation is what the installer was answered, and each
/// name under the parameter that it came from.
pub proof fn install_tells_what_was_answered(ctx: ContextView, answer: ShellOutputView)
    ensures
        CertSecureInstall.step(ctx) matches Ok(step) ==> answer.exit_code == 0 ==> (
        CertSecureInstall.outcome(ctx, answer) matches Ok(result) && {
            let p = ctx.params;
            let args = step.shell->Some_0.args;
            &&& has_members(
                result,
                seq![
                    "installDir"@,
                    "frontendHost"@,
                    "backendHost"@,
                    "keycloakHost"@,
                    "keycloakRealm"@,
                    "frontendUrl"@,
                    "raw"@,
                ],
            )
            &&& tells(result, "installDir"@, JsonView::Text(args[0]))
            &&& tells(result, "frontendHost"@, JsonView::Text(p["frontendHost"@]))
            &&& tells(result, "backendHost"@, JsonView::Text(p["backendHost"@]))
            &&& tells(result, "keycloakHost"@, JsonView::Text(p["keycloakHost"@]))
            &&& tells(result, "keycloakRealm"@, JsonView::Text(p["keycloakRealm"@]))
            &&& args[1] == p["frontendHost"@]
            &&& args[2] == p["backendHost"@]
            &&& args[5] == p["keycloakHost"@]
            &&& args[6] == p["keycloakRealm"@]
            &&& tells(result, "frontendUrl"@, JsonView::Text("https://"@ + args[1] + "/"@))
            &&& tells(result, "raw"@, JsonView::Text(trim(answer.stdout)))
        }),
{
    if CertSecureInstall.step(ctx) is Ok && answer.exit_code == 0 {
        let list = CertSecureInstall.outcome(ctx, answer)->Ok_0->Object_0;
        assert(list[0].0 == "installDir"@);
        assert(list[1].0 == "frontendHost"@);
        assert(list[2].0 == "backendHost"@);
        assert(list[3].0 == "keycloakHost"@);
        assert(list[4].0 == "keycloakRealm"@);
        assert(list[5].0 == "frontendUrl"@);
        assert(list[6].0 == "raw"@);
    }
}

/// A URL over HTTPS, of 200 characters at most, all of them legal in a URL.
pub open spec fn secure_url(s: Seq<char>) -> bool {
    &&& s.len() <= 200
    &&& exists|rest: Seq<char>|
        s == #[trigger] ("https://"@ + rest) && drawn_from(rest, "-._~:/?#[]@!$&'()*+,;=%"@)
}

/// URLs that are probed are over HTTPS.
pub proof fn probed_urls_are_secure(s: Seq<char>)
    ensures
        is_https_url(s) <==> secure_url(s),
{
    reveal_strlit("https://");
    beginnings(s, "https://"@);
    let extra = "-._~:/?#[]@!$&'()*+,;=%"@;
    made_of_by_code(s.skip(8), extra);
    if is_https_url(s) {
        assert(s =~= "https://"@ + s.skip(8));
    }
    if secure_url(s) {
        let rest = choose|rest: Seq<char>|
            s == #[trigger] ("https://"@ + rest) && drawn_from(rest, extra);
        assert(s.skip(8) =~= rest);
    }
}

/// The endpoints are probed exactly where a URL for the dashboard is given and
/// each URL that is not empty is over HTTPS; else the first that is not is the one
/// to blame.
pub proof fn probe_accepts(ctx: ContextView)
    ensures
        ({
            let p = ctx.params;
            let start = CertSecureVerify.step(ctx);
            let keycloak = given_or(p, "keycloakUrl"@, seq![]);
            if !p.dom().contains("frontendUrl"@) {
                lacks(start, "frontendUrl"@)
            } else if p["frontendUrl"@].len() != 0 && !secure_url(p["frontendUrl"@]) {
                blames(start, "frontendUrl"@, "must be an https:// URL"@)
            } else if keycloak.len() != 0 && !secure_url(keycloak) {
                blames(start, "keycloakUrl"@, "must be an https:// URL"@)
            } else {
                start is Ok
            }
        }),
{
    probed_urls_are_secure(ctx.params["frontendUrl"@]);
    probed_urls_are_secure(given_or(ctx.params, "keycloakUrl"@, seq![]));
}

/// The probe is given the dashboard's URL and then Keycloak's, empty where none is
/// given.
pub proof fn probe_asks_dashboard_first(ctx: ContextView)
    ensures
        CertSecureVerify.step(ctx) matches Ok(step) ==> {
            &&& reports(Ok(step), "probing product endpoints"@, 50)
            &&& runs(
                Ok(step),
                VERIFY_SCRIPT@,
                seq![ctx.params["frontendUrl"@], given_or(ctx.params, "keycloakUrl"@, seq![])],
            )
        },
{
}

/// The status that a document has under `name`, `0` where it has no text there.
pub open spec fn status_under(document: JsonView, name: Seq<char>) -> Seq<char> {
    if member(document, name) is Text {
        member(document, name)->Text_0
    } else {
        "0"@
    }
}

/// What is told of a probe: each URL, the status under its own name, and whether
/// that status is one of success or redirection. A Keycloak that nobody asked for
/// is well.
pub proof fn probe_tells_each_status(ctx: ContextView, answer: ShellOutputView)
    ensures
        CertSecureVerify.step(ctx) matches Ok(step) ==> answer.exit_code == 0 ==> (
        CertSecureVerify.outcome(ctx, answer) matches Ok(result) && {
            let args = step.shell->Some_0.args;
            let document = decoded(answer.stdout);
            let frontend = status_under(document, "frontendStatus"@);
            let keycloak = status_under(document, "keycloakStatus"@);
            &&& has_members(
                result,
                seq![
                    "frontendUrl"@,
                    "frontendStatus"@,
                    "frontendOk"@,
                    "keycloakUrl"@,
                    "keycloakStatus"@,
                    "keycloakOk"@,
                ],
            )
            &&& tells(result, "frontendUrl"@, JsonView::Text(args[0]))
            &&& tells(result, "frontendStatus"@, JsonView::Text(frontend))
            &&& tells(result, "frontendOk"@, JsonView::Bool(counts(frontend, 200, 399)))
            &&& tells(result, "keycloakUrl"@, JsonView::Text(args[1]))
            &&& tells(result, "keycloakStatus"@, JsonView::Text(keycloak))
            &&& tells(
                result,
                "keycloakOk"@,
                JsonView::Bool(args[1].len() == 0 || counts(keycloak, 200, 399)),
            )
        }),
{
    if CertSecureVerify.step(ctx) is Ok && answer.exit_code == 0 {
        let list = CertSecureVerify.outcome(ctx, answer)->Ok_0->Object_0;
        let document = decoded(answer.stdout);
        ranges_hold_numbers(status_under(document, "frontendStatus"@), 200, 399);
        ranges_hold_numbers(status_under(document, "keycloakStatus"@), 200, 399);
        assert(list[0].0 == "frontendUrl"@);
        assert(list[1].0 == "frontendStatus"@);
        assert(list[2].0 == "frontendOk"@);
        assert(list[3].0 == "keycloakUrl"@);
        assert(list[4].0 == "keycloakStatus"@);
        assert(list[5].0 == "keycloakOk"@);
    }
}

/// A status is well exactly from 200 to 399.
pub proof fn success_and_redirection_are_well(status: Seq<char>)
    ensures
        is_http_ok(status) <==> counts(status, 200, 399),
{
    ranges_hold_numbers(status, 200, 399);
}

/// Hardening is given the product's directory and each credential file with its
/// mode, keys and credentials for their owner alone, and tells the words that it
/// printed.
pub proof fn harden_restricts_credentials(ctx: ContextView, answer: ShellOutputView)
    ensures
        reports(CertSecureHarden.step(ctx), "restricting credential file modes"@, 50),
        runs(
            CertSecureHarden.step(ctx),
            HARDEN_SCRIPT@,
            seq![
                "/opt/certsecure-manager"@,
                "conf/key.pem"@,
                "600"@,
                "conf/keycloak-credentials.txt"@,
                "600"@,
                "conf/server.yaml"@,
                "640"@,
                "conf.ini"@,
                "640"@,
            ],
        ),
        answer.exit_code == 0 ==> (CertSecureHarden.outcome(ctx, answer) matches Ok(result) && {
            &&& has_members(result, seq!["hardened"@])
            &&& tells_each(result, "hardened"@, words(answer.stdout))
        }),
{
    if answer.exit_code == 0 {
        let list = CertSecureHarden.outcome(ctx, answer)->Ok_0->Object_0;
        let files = words(answer.stdout);
        assert(list[0].1->Array_0 =~= Seq::new(files.len(), |i: int| JsonView::Text(files[i])));
    }
}

} // verus!
