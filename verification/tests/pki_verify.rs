use pki_executor::authz::Capability;
use pki_executor::commands::pki_verify::{
    valid_ca_name, valid_http_url, valid_template, PkiVerify,
};
use pki_executor::json::Json;
use pki_executor::powershell::{PowerShellError, ShellOutput};
use pki_executor::registry::{CommandContext, CommandError, CommandHandler, Params, Step};
use serde_json::Value;

/// The same document as `serde_json` holds it.
fn value(json: &Json) -> Value {
    match json {
        Json::Null => Value::Null,
        Json::Bool(b) => Value::from(*b),
        Json::Number(n) => Value::from(*n),
        Json::Text(s) => Value::from(s.as_str()),
        Json::Array(items) => Value::from(items.iter().map(value).collect::<Vec<Value>>()),
        Json::Object(members) => Value::Object(
            members
                .iter()
                .map(|(key, member)| (key.clone(), value(member)))
                .collect(),
        ),
        Json::Numeral(source) => serde_json::from_str(source).unwrap(),
    }
}

fn context(pairs: &[(&str, &str)]) -> CommandContext {
    let mut params = Params::new();
    for (key, value) in pairs {
        params.insert(key.to_string(), value.to_string());
    }
    CommandContext {
        params,
        records: None,
    }
}

fn success(stdout: &str) -> ShellOutput {
    ShellOutput {
        exit_code: 0,
        stdout: stdout.to_string(),
        stderr: String::new(),
    }
}

fn run<H: CommandHandler>(
    handler: &H,
    pairs: &[(&str, &str)],
    stdout: &str,
) -> Result<Value, CommandError> {
    let ctx = context(pairs);
    handler
        .execute(&ctx, &success(stdout))
        .map(|result| value(&result))
}

fn args(step: Step) -> Vec<String> {
    step.shell.unwrap().args
}

fn reason<T>(result: Result<T, CommandError>) -> (String, String) {
    match result {
        Err(CommandError::InvalidParam { name, reason }) => (name, reason),
        _ => panic!("the parameter should be refused"),
    }
}

fn missing<T>(result: Result<T, CommandError>) -> String {
    match result {
        Err(CommandError::MissingParam(name)) => name,
        _ => panic!("the parameter should be missed"),
    }
}

const PARAMS: [(&str, &str); 4] = [
    ("rootCaCommonName", "EC-Root-CA"),
    ("issuingCaCommonName", "EC-Issuing-CA"),
    ("templates", "OCSPResponseSigning,Workstation"),
    (
        "httpUrls",
        r#"["http://pki.encon.test/CertEnroll/root.crt"]"#,
    ),
];

fn with(key: &str, value: &str) -> CommandContext {
    let mut ctx = context(&PARAMS);
    ctx.params.insert(key.to_string(), value.to_string());
    ctx
}

#[test]
fn reports_enterprise_pki_health() {
    let result = run(
        &PkiVerify,
        &PARAMS,
        r#"{
            "healthy": true,
            "containers": {
                "nt_auth": true,
                "aia": true,
                "cdp": true,
                "certification_authorities": true,
                "enrollment_services": true
            },
            "templates": {"ok": true, "required": [], "missing": []},
            "http_artifacts": {"ok": true, "results": []}
        }"#,
    )
    .unwrap();

    assert_eq!(result["healthy"], true);
    assert_eq!(result["containers"]["nt_auth"], true);
}

/// With the array nested, as Windows PowerShell 5.1 would hand it down a
/// pipeline, every lab with several URLs would come out unhealthy.
#[test]
fn script_decodes_the_url_array_without_nesting_it() {
    let ctx = context(&PARAMS);
    PkiVerify
        .execute(&ctx, &success(r#"{"healthy": true}"#))
        .unwrap();

    let script = PkiVerify.prepare(&ctx).unwrap().shell.unwrap().script;
    assert!(
        !script.contains("| ConvertFrom-Json)"),
        "the decode wraps ConvertFrom-Json in @(), which nests the array on Windows PowerShell 5.1"
    );
    assert!(script.contains("$publicationUrls = $HttpUrls | ConvertFrom-Json"));
    assert!(script.contains("foreach ($url in @($publicationUrls))"));
}

#[test]
fn rejects_non_http_artifact_url() {
    let ctx = with("httpUrls", r#"["file:///secret"]"#);
    assert!(matches!(
        PkiVerify.execute(&ctx, &success("")),
        Err(CommandError::InvalidParam { .. })
    ));
}

#[test]
fn refuses_in_order() {
    // The two names are both looked for before either is checked.
    for (given, key) in [
        (0, "rootCaCommonName"),
        (1, "issuingCaCommonName"),
        (2, "templates"),
        (3, "httpUrls"),
    ] {
        assert_eq!(missing(PkiVerify.prepare(&context(&PARAMS[..given]))), key);
    }
    for (key, bad, why) in [
        ("rootCaCommonName", "a/b", "must be a valid CA common name"),
        ("issuingCaCommonName", "", "must be a valid CA common name"),
        (
            "templates",
            "a,,b",
            "must be a comma-separated list of template CN names",
        ),
        ("httpUrls", "http://x", "must be a JSON array of HTTP URLs"),
        ("httpUrls", r#"["http://x",7]"#, "must be a JSON array of HTTP URLs"),
        ("httpUrls", "[]", "must contain one or more valid HTTP URLs"),
        (
            "httpUrls",
            r#"["http://x","http://y z"]"#,
            "must contain one or more valid HTTP URLs",
        ),
    ] {
        assert_eq!(
            reason(PkiVerify.prepare(&with(key, bad))),
            (key.to_string(), why.to_string())
        );
    }
    let only_root = [("rootCaCommonName", "a/b")];
    assert_eq!(missing(PkiVerify.prepare(&context(&only_root))), "issuingCaCommonName");
}

#[test]
fn hands_the_names_over() {
    let step = PkiVerify.prepare(&with("templates", " A , B.c ")).unwrap();
    assert_eq!(step.phase, "verifying enterprise PKI publication");
    assert_eq!(step.percent, 50);
    assert_eq!(
        args(step),
        [
            "EC-Root-CA",
            "EC-Issuing-CA",
            "A,B.c",
            r#"["http://pki.encon.test/CertEnroll/root.crt"]"#,
        ]
    );
}

#[test]
fn escaped_urls_are_checked_as_they_decode() {
    let escaped = r#"[ "http:\u002f/x" , "https://y" ]"#;
    assert!(PkiVerify.prepare(&with("httpUrls", escaped)).is_ok());
    assert!(PkiVerify.prepare(&with("httpUrls", r#"["http://\u0020"]"#)).is_err());
}

#[test]
fn plans_and_concludes_from_decoded_urls() {
    let ctx = context(&PARAMS);
    let urls = Some(vec!["https://x/".to_string()]);
    assert!(PkiVerify.plan(&ctx, &urls).is_ok());
    assert_eq!(
        reason(PkiVerify.plan(&ctx, &None)).1,
        "must be a JSON array of HTTP URLs"
    );
    assert_eq!(
        reason(PkiVerify.plan(&ctx, &Some(Vec::new()))).1,
        "must contain one or more valid HTTP URLs"
    );
    let object = Json::Object(vec![("healthy".to_string(), Json::Bool(false))]);
    let result = PkiVerify.conclude(&ctx, &urls, object).unwrap();
    assert_eq!(value(&result)["healthy"], false);
    assert!(PkiVerify.conclude(&ctx, &urls, Json::Null).is_err());
}

#[test]
fn a_report_must_be_an_object() {
    for stdout in ["", "true", "[{}]"] {
        match run(&PkiVerify, &PARAMS, stdout) {
            Err(CommandError::Shell(PowerShellError::NonZeroExit { exit_code, stderr })) => {
                assert_eq!(exit_code, 1);
                assert_eq!(stderr, "pki.verify returned invalid JSON");
            }
            _ => panic!("{stdout:?} is no object"),
        }
    }
}

#[test]
fn names_and_urls() {
    assert!(valid_ca_name("EC Root.CA_1-x"));
    assert!(valid_ca_name(&"a".repeat(64)));
    assert!(!valid_ca_name(&"a".repeat(65)));
    assert!(!valid_ca_name(""));
    assert!(!valid_ca_name("\u{e9}"));
    assert!(valid_template("A.b_c-1"));
    assert!(!valid_template("A b"));
    assert!(!valid_template(""));
    assert!(valid_http_url("http://"));
    assert!(valid_http_url("https://x?y=z\n"));
    assert!(!valid_http_url("https://<x>"));
    assert!(!valid_http_url("HTTP://x"));
    let long = format!("http://{}", "\u{e9}".repeat(252));
    assert_eq!(long.len(), 511);
    assert!(valid_http_url(&format!("{long}a")));
    assert!(!valid_http_url(&format!("{long}aa")));
    assert_eq!(PkiVerify.name(), "pki.verify");
    assert_eq!(PkiVerify.required_capability(), Capability::VmRead);
}
