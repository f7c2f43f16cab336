//! Laws of reading back a PKI.

use vstd::prelude::*;

use crate::commands::pki_verify::{
    are_http_urls, are_templates, is_http_url, is_template, pki_step, templates_split_back,
    PkiVerify, PKI_VERIFY_SCRIPT,
};
use crate::json::{json_texts, JsonView};
use crate::laws::terms::{blames, breaks, decoded, lacks, reports, runs, short_name, web_url};
use crate::laws::text::{beginnings, free_of_shared_characters, made_of_by_code};
use crate::powershell::ShellOutputView;
use crate::registry::{CommandErrorView, CommandHandler, ContextView};
use crate::split::{entries, pieces, Separator};
use crate::text::byte_len;

verus! {

/// Names of templates, all of them.
pub open spec fn template_names(list: Seq<Seq<char>>) -> bool {
    forall|i: int| 0 <= i < list.len() ==> short_name(#[trigger] list[i], 64, "._-"@)
}

/// A URL that something is published at: over HTTP or HTTPS, of 512 bytes at most,
/// and without quotes, separators, blanks or angle brackets.
pub open spec fn published_url(s: Seq<char>) -> bool {
    web_url(s, "\"'`;$ <>"@) && byte_len(s) <= 512
}

/// URLs that something is published at, all of them.
pub open spec fn published_urls(list: Seq<Seq<char>>) -> bool {
    forall|i: int| 0 <= i < list.len() ==> published_url(#[trigger] list[i])
}

proof fn lemma_lists(templates: Seq<Seq<char>>, urls: Seq<Seq<char>>)
    ensures
        are_templates(templates) <==> template_names(templates),
        are_http_urls(urls) <==> published_urls(urls),
{
    assert forall|i: int| 0 <= i < templates.len() implies is_template(#[trigger] templates[i])
        == short_name(templates[i], 64, "._-"@) by {
        made_of_by_code(templates[i], "._-"@);
    }
    assert forall|i: int| 0 <= i < urls.len() implies is_http_url(#[trigger] urls[i])
        == published_url(urls[i]) by {
        beginnings(urls[i], "http://"@);
        beginnings(urls[i], "https://"@);
        free_of_shared_characters(urls[i], "\"'`;$ <>"@);
    }
}

/// A PKI is read back exactly for two names of authorities, names of templates
/// alone, and at least one URL, all of them such that something can be published
/// there; else the first parameter that is not right is the one to blame. `urls` is
/// what the parameter for the URLs decodes to.
pub proof fn read_back_accepts(p: Map<Seq<char>, Seq<char>>, urls: Option<Seq<Seq<char>>>)
    ensures
        ({
            let start = pki_step(p, urls);
            if !p.dom().contains("rootCaCommonName"@) {
                lacks(start, "rootCaCommonName"@)
            } else if !p.dom().contains("issuingCaCommonName"@) {
                lacks(start, "issuingCaCommonName"@)
            } else if !short_name(p["rootCaCommonName"@], 64, " ._-"@) {
                blames(start, "rootCaCommonName"@, "must be a valid CA common name"@)
            } else if !short_name(p["issuingCaCommonName"@], 64, " ._-"@) {
                blames(start, "issuingCaCommonName"@, "must be a valid CA common name"@)
            } else if !p.dom().contains("templates"@) {
                lacks(start, "templates"@)
            } else if !template_names(entries(p["templates"@])) {
                blames(
                    start,
                    "templates"@,
                    "must be a comma-separated list of template CN names"@,
                )
            } else if !p.dom().contains("httpUrls"@) {
                lacks(start, "httpUrls"@)
            } else if urls is None {
                blames(start, "httpUrls"@, "must be a JSON array of HTTP URLs"@)
            } else if urls.unwrap().len() == 0 || !published_urls(urls.unwrap()) {
                blames(start, "httpUrls"@, "must contain one or more valid HTTP URLs"@)
            } else {
                start is Ok
            }
        }),
{
    made_of_by_code(p["rootCaCommonName"@], " ._-"@);
    made_of_by_code(p["issuingCaCommonName"@], " ._-"@);
    lemma_lists(entries(p["templates"@]), urls.unwrap());
}

/// The script is given the root's name, the issuer's name, the templates with
/// commas between them, and the URLs as they were given.
pub proof fn read_back_asks_for_what_was_given(
    p: Map<Seq<char>, Seq<char>>,
    urls: Option<Seq<Seq<char>>>,
)
    ensures
        pki_step(p, urls) matches Ok(step) ==> {
            let args = step.shell->Some_0.args;
            &&& reports(Ok(step), "verifying enterprise PKI publication"@, 50)
            &&& runs(
                Ok(step),
                PKI_VERIFY_SCRIPT@,
                seq![
                    p["rootCaCommonName"@],
                    p["issuingCaCommonName"@],
                    args[2],
                    p["httpUrls"@],
                ],
            )
            &&& pieces(args[2], Separator::Char(',')) == entries(p["templates"@])
        },
{
    templates_split_back(p["templates"@]);
}

/// The command goes by what its own parameter decodes to.
pub proof fn read_back_decodes_its_urls(ctx: ContextView)
    ensures
        PkiVerify.step(ctx) == pki_step(ctx.params, json_texts(ctx.params["httpUrls"@])),
{
}

/// What is told is the object that the run printed; a run that printed none
/// failed.
pub proof fn read_back_tells_what_was_printed(ctx: ContextView, answer: ShellOutputView)
    ensures
        PkiVerify.step(ctx) is Ok && answer.exit_code == 0 ==> {
            let end = PkiVerify.outcome(ctx, answer);
            if decoded(answer.stdout) is Object {
                end == Ok::<JsonView, CommandErrorView>(decoded(answer.stdout))
            } else {
                breaks(end, 1, "pki.verify returned invalid JSON"@)
            }
        },
{
}

} // verus!
