use pki_executor::authz::Capability;
use pki_executor::commands::certsecure::{
    http_ok, valid_https_url, AptRefresh, CertSecureHarden, CertSecureInstall, CertSecureMakeCert,
    CertSecureVerify, CertSecureWriteHosts, HOSTS_BEGIN, HOSTS_END, INSTALL_DIR,
};
use pki_executor::commands::hosts::parse_hosts_entries;
use pki_executor::commands::linux::relay_path_ok;
use pki_executor::commands::paths::PRODUCT_TREE;
use pki_executor::json::Json;
use pki_executor::powershell::{PowerShellError, ShellOutput};
use pki_executor::registry::{CommandContext, CommandError, CommandHandler, Params, Step};
use serde_json::Value;

/// The same document as `serde_json` holds it.
fn value(json: &Json) -> Value {
    match json {
        Json::Null => Value::Null,
        Json::Bool(b) => Value::from(*b),
        Json::Number(n) => Value::from(*n),
        Json::Text(s) => Value::from(s.as_str()),
        Json::Array(items) => Value::from(items.iter().map(value).collect::<Vec<Value>>()),
        Json::Object(members) => Value::Object(
            members
                .iter()
                .map(|(key, member)| (key.clone(), value(member)))
                .collect(),
        ),
        Json::Numeral(source) => serde_json::from_str(source).unwrap(),
    }
}

fn context(pairs: &[(&str, &str)]) -> CommandContext {
    let mut params = Params::new();
    for (key, value) in pairs {
        params.insert(key.to_string(), value.to_string());
    }
    CommandContext {
        params,
        records: None,
    }
}

fn success(stdout: &str) -> ShellOutput {
    ShellOutput {
        exit_code: 0,
        stdout: stdout.to_string(),
        stderr: String::new(),
    }
}

fn run<H: CommandHandler>(
    handler: &H,
    pairs: &[(&str, &str)],
    stdout: &str,
) -> Result<Value, CommandError> {
    let ctx = context(pairs);
    handler
        .execute(&ctx, &success(stdout))
        .map(|result| value(&result))
}

fn args(step: Step) -> Vec<String> {
    step.shell.unwrap().args
}

fn reason<T>(result: Result<T, CommandError>) -> (String, String) {
    match result {
        Err(CommandError::InvalidParam { name, reason }) => (name, reason),
        _ => panic!("the parameter should be refused"),
    }
}

fn missing<T>(result: Result<T, CommandError>) -> String {
    match result {
        Err(CommandError::MissingParam(name)) => name,
        _ => panic!("the parameter should be missed"),
    }
}

fn list(items: &[&str]) -> Value {
    Value::from(items.iter().map(|item| Value::from(*item)).collect::<Vec<Value>>())
}

const CERT: &str = "/opt/certsecure-manager/conf/cert.pem";
const KEY: &str = "/opt/certsecure-manager/conf/key.pem";

#[test]
fn hosts_entries_reject_anything_that_is_not_ip_plus_names() {
    for raw in [
        "not-an-ip certsecure.encon.pki",
        "10.0.181.5",
        "10.0.181.5 bad_name",
        "999.1.1.1 certsecure",
        "",
    ] {
        assert!(
            parse_hosts_entries(raw).is_err(),
            "{raw:?} should be rejected"
        );
    }
}

#[test]
fn hosts_entries_normalize_whitespace() {
    let block = parse_hosts_entries(
        "  10.0.181.5   certsecure  certsecure-api \n\n",
    )
    .unwrap();
    assert_eq!(block, "10.0.181.5 certsecure certsecure-api");
}

#[test]
fn make_cert_requires_paths_inside_the_product_tree() {
    let err = run(
        &CertSecureMakeCert,
        &[
            ("names", "certsecure.encon.pki"),
            ("certPath", "/etc/ssl/private/cert.pem"),
            ("keyPath", "/opt/certsecure-manager/conf/key.pem"),
        ],
        "",
    );
    assert!(matches!(err, Err(CommandError::InvalidParam { .. })));
}

/// What relays the certificate looks for exactly this key.
#[test]
fn make_cert_returns_the_der_under_the_relay_key() {
    let result = run(
        &CertSecureMakeCert,
        &[
            ("names", "certsecure.encon.pki,certsecure-api.encon.pki"),
            ("ip", "10.0.181.5"),
            ("certPath", "/opt/certsecure-manager/conf/cert.pem"),
            ("keyPath", "/opt/certsecure-manager/conf/key.pem"),
        ],
        r#"{"contentB64":"MIIB","sha256":"ff","notAfter":"Dec  4 00:00:00 2028 GMT"}"#,
    )
    .unwrap();
    assert_eq!(result["contentB64"], "MIIB");
    assert_eq!(
        result["sans"],
        list(&[
            "DNS:certsecure.encon.pki",
            "DNS:certsecure-api.encon.pki",
            "IP:10.0.181.5"
        ])
    );
}

#[test]
fn install_rejects_a_realm_keycloak_would_reject() {
    let err = run(
        &CertSecureInstall,
        &[
            ("frontendHost", "certsecure.encon.pki"),
            ("backendHost", "certsecure-api.encon.pki"),
            ("keycloakHost", "kc.encon.pki"),
            ("keycloakRealm", "encon pki"),
            ("certPath", "/opt/certsecure-manager/conf/cert.pem"),
            ("keyPath", "/opt/certsecure-manager/conf/key.pem"),
        ],
        "",
    );
    assert!(matches!(err, Err(CommandError::InvalidParam { .. })));
}

#[test]
fn install_pipes_six_answers_in_read_inputs_order() {
    let ctx = context(&[
        ("frontendHost", "certsecure.encon.pki"),
        ("backendHost", "certsecure-api.encon.pki"),
        ("keycloakHost", "kc.encon.pki"),
        ("keycloakRealm", "encon.pki"),
        ("certPath", "/opt/certsecure-manager/conf/cert.pem"),
        ("keyPath", "/opt/certsecure-manager/conf/key.pem"),
    ]);
    let answer = success("===== Installation Completed Successfully =====");
    let result = value(&CertSecureInstall.execute(&ctx, &answer).unwrap());
    assert_eq!(result["frontendUrl"], "https://certsecure.encon.pki/");
    let step = CertSecureInstall.prepare(&ctx).unwrap();
    let script = step.shell.as_ref().unwrap().script;
    // $2..$7 are frontend, backend, cert, key, keycloak host, realm: the order
    // that the installer prompts in, which no flag makes explicit.
    assert!(script.contains(r#""$2" "$3" "$4" "$5" "$6" "$7""#));
    assert_eq!(
        args(step),
        [
            "/opt/certsecure-manager",
            "certsecure.encon.pki",
            "certsecure-api.encon.pki",
            "/opt/certsecure-manager/conf/cert.pem",
            "/opt/certsecure-manager/conf/key.pem",
            "kc.encon.pki",
            "encon.pki",
        ]
    );
}

#[test]
fn verify_treats_a_redirect_as_healthy() {
    // The dashboard sends an unauthenticated GET on to Keycloak; taking 200
    // alone would report a working install as a failure.
    let result = run(
        &CertSecureVerify,
        &[
            ("frontendUrl", "https://certsecure.encon.pki/"),
            ("keycloakUrl", "https://kc.encon.pki/"),
        ],
        r#"{"frontendStatus":"302","keycloakStatus":"200"}"#,
    )
    .unwrap();
    assert_eq!(result["frontendOk"], true);
    assert_eq!(result["keycloakOk"], true);
}

#[test]
fn verify_reports_no_answer_without_failing_the_step() {
    let result = run(
        &CertSecureVerify,
        &[("frontendUrl", "https://certsecure.encon.pki/")],
        r#"{"frontendStatus":"000","keycloakStatus":"0"}"#,
    )
    .unwrap();
    assert_eq!(result["frontendOk"], false);
    // No URL for Keycloak: nobody waits for a probe that nobody asked for.
    assert_eq!(result["keycloakOk"], true);
}

#[test]
fn harden_reports_only_the_files_that_existed() {
    let result = run(&CertSecureHarden, &[], "conf/key.pem conf.ini ").unwrap();
    assert_eq!(
        result["hardened"],
        list(&["conf/key.pem", "conf.ini"])
    );
}

#[test]
fn hosts_entries_name_the_first_fault() {
    let fault = |raw: &str| reason(parse_hosts_entries(raw));
    let of = |text: &str| ("entries".to_string(), text.to_string());
    assert_eq!(
        fault("10.0.0.1 a\nnot-an-ip b\n10.0.0.2"),
        of("each line must start with an IPv4 address")
    );
    assert_eq!(
        fault("10.0.0.1 a\n10.0.0.2\nx"),
        of("each line must name at least one host")
    );
    assert_eq!(
        fault("10.0.0.1 a -b"),
        of("host names must be valid DNS names")
    );
    assert_eq!(fault(" \n\t\n"), of("must contain at least one entry"));
}

#[test]
fn a_block_is_its_own_block() {
    let block = parse_hosts_entries("010.0.0.1\ta  b\r\n \n10.0.0.2 c.d.").unwrap();
    assert_eq!(block, "010.0.0.1 a b\n10.0.0.2 c.d.");
    assert_eq!(parse_hosts_entries(&block).unwrap(), block);
    assert!(block.lines().all(|line| line != HOSTS_BEGIN && line != HOSTS_END));
}

#[test]
fn no_entry_can_close_the_block() {
    assert!(parse_hosts_entries(HOSTS_END).is_err());
    assert!(parse_hosts_entries(HOSTS_BEGIN).is_err());
}

#[test]
fn write_hosts_hands_over_the_block_and_counts_lines() {
    let pairs = [("entries", "10.0.0.1 a\n10.0.0.2  b c")];
    let ctx = context(&pairs);
    let step = CertSecureWriteHosts.prepare(&ctx).unwrap();
    assert_eq!(step.phase, "writing hosts entries");
    assert_eq!(step.percent, 50);
    assert_eq!(args(step), [HOSTS_BEGIN, HOSTS_END, "10.0.0.1 a\n10.0.0.2 b c"]);
    let result = run(&CertSecureWriteHosts, &pairs, " 14\n").unwrap();
    assert_eq!(result["entries"], 2);
    assert_eq!(result["totalLines"], 14);
    let result = run(&CertSecureWriteHosts, &pairs, "no number").unwrap();
    assert_eq!(result["totalLines"], 0);
    let result = run(&CertSecureWriteHosts, &pairs, "4294967295").unwrap();
    assert_eq!(result["totalLines"], 4294967295u64);
    let result = run(&CertSecureWriteHosts, &pairs, "4294967296").unwrap();
    assert_eq!(result["totalLines"], 0);
    assert_eq!(missing(run(&CertSecureWriteHosts, &[], "")), "entries");
}

#[test]
fn writing_the_block_back_runs_the_same_call() {
    let first = CertSecureWriteHosts
        .prepare(&context(&[("entries", "  10.0.0.1   a\n\n10.0.0.2 b ")]))
        .unwrap();
    let first = args(first);
    let second = CertSecureWriteHosts
        .prepare(&context(&[("entries", first[2].as_str())]))
        .unwrap();
    assert_eq!(args(second), first);
}

#[test]
fn make_cert_asks_for_what_it_was_given() {
    let ctx = context(&[
        ("names", " a.b , ,c.d"),
        ("ip", "10.0.0.7"),
        ("certPath", CERT),
        ("keyPath", KEY),
        ("days", "30"),
    ]);
    let step = CertSecureMakeCert.prepare(&ctx).unwrap();
    assert_eq!(step.percent, 30);
    assert_eq!(args(step), [CERT, KEY, "a.b", "DNS:a.b,DNS:c.d,IP:10.0.0.7", "30"]);
    let ctx = context(&[("names", "a.b"), ("certPath", CERT), ("keyPath", KEY)]);
    assert_eq!(
        args(CertSecureMakeCert.prepare(&ctx).unwrap()),
        [CERT, KEY, "a.b", "DNS:a.b", "825"]
    );
}

#[test]
fn make_cert_refuses_in_order() {
    let base = [("names", "a"), ("certPath", CERT), ("keyPath", KEY)];
    let with = |extra: &[(&str, &str)]| {
        let mut ctx = context(&base);
        for (key, value) in extra {
            ctx.params.insert(key.to_string(), value.to_string());
        }
        CertSecureMakeCert.prepare(&ctx)
    };
    assert_eq!(missing(CertSecureMakeCert.prepare(&context(&[]))), "names");
    assert_eq!(
        missing(CertSecureMakeCert.prepare(&context(&[("names", "a")]))),
        "certPath"
    );
    assert_eq!(
        missing(CertSecureMakeCert.prepare(&context(&[("names", "a"), ("certPath", "x")]))),
        "keyPath"
    );
    assert_eq!(
        reason(with(&[("names", "a,b c")])).1,
        "must be a comma-separated list of DNS names"
    );
    assert_eq!(
        reason(with(&[("names", " , ")])).1,
        "must be a comma-separated list of DNS names"
    );
    assert_eq!(
        reason(with(&[("names", "a,b,c,d,e,f,g,h,i")])).1,
        "at most 8 subject alternative names"
    );
    assert!(with(&[("names", "a,b,c,d,e,f,g,h")]).is_ok());
    assert_eq!(reason(with(&[("ip", "10.0.0.256")])).1, "must be an IPv4 address");
    assert!(with(&[("ip", "")]).is_ok());
    assert_eq!(
        reason(with(&[("keyPath", "/tmp/key.pem")])),
        (
            "keyPath".to_string(),
            "must be an absolute path under the product install directory".to_string()
        )
    );
    for days in ["0", "3651", "", "-1", "1.5"] {
        assert_eq!(reason(with(&[("days", days)])).1, "must be an integer in 1-3650");
    }
    assert!(with(&[("days", "3650")]).is_ok());
    assert!(with(&[("days", "+0001")]).is_ok());
}

/// Paths that are not inside the product tree, though most begin as its own path
/// does.
const OUTSIDE: [&str; 11] = [
    "/opt/certsecure-manager-old/cert.pem",
    "/opt/certsecure-manager2/x",
    "/opt/certsecure-manager",
    "/opt/certsecure-manager/",
    "/opt/certsecure-manager/../../etc/x",
    "/opt/certsecure-manager/..",
    "/opt/certsecure-manager/conf/..",
    "/opt/certsecure-manager//.",
    "/opt/certsecure-manager/conf/../../certsecure-manager/cert.pem",
    "/var/lib/pki-executor/transfer/cert.pem",
    "opt/certsecure-manager/conf/cert.pem",
];

#[test]
fn make_cert_rejects_a_sibling_of_the_product_tree() {
    for outside in OUTSIDE {
        for (cert, key, name) in [(outside, KEY, "certPath"), (CERT, outside, "keyPath")] {
            let pairs = [
                ("names", "certsecure.encon.pki"),
                ("certPath", cert),
                ("keyPath", key),
            ];
            let refusal = (
                name.to_string(),
                "must be an absolute path under the product install directory".to_string(),
            );
            assert_eq!(reason(CertSecureMakeCert.prepare(&context(&pairs))), refusal);
            assert_eq!(
                reason(run(&CertSecureMakeCert, &pairs, r#"{"contentB64":"MIIB"}"#)),
                refusal
            );
        }
    }
}

#[test]
fn install_rejects_a_sibling_of_the_product_tree() {
    for outside in OUTSIDE {
        for (cert, key, name) in [(outside, KEY, "certPath"), (CERT, outside, "keyPath")] {
            let pairs = [
                ("frontendHost", "certsecure.encon.pki"),
                ("backendHost", "certsecure-api.encon.pki"),
                ("keycloakHost", "kc.encon.pki"),
                ("keycloakRealm", "encon.pki"),
                ("certPath", cert),
                ("keyPath", key),
            ];
            let refusal = (
                name.to_string(),
                "must be an absolute path under the product install directory".to_string(),
            );
            assert_eq!(reason(CertSecureInstall.prepare(&context(&pairs))), refusal);
            assert_eq!(reason(run(&CertSecureInstall, &pairs, "done")), refusal);
        }
    }
}

/// Paths that stay inside the product tree, whatever dots are in them.
const INSIDE: [&str; 6] = [
    "/opt/certsecure-manager/conf/a..b.pem",
    "/opt/certsecure-manager/conf/../cert.pem",
    "/opt/certsecure-manager/cert.pem",
    "/opt/certsecure-manager//conf/./cert.pem",
    "/opt/certsecure-manager/...",
    "/opt/certsecure-manager/a/b/../../c",
];

#[test]
fn make_cert_takes_any_path_that_stays_in_the_product_tree() {
    for inside in INSIDE {
        let pairs = [("names", "a"), ("certPath", inside), ("keyPath", inside)];
        let step = CertSecureMakeCert.prepare(&context(&pairs)).unwrap();
        assert_eq!(args(step), [inside, inside, "a", "DNS:a", "825"]);
        let result = run(&CertSecureMakeCert, &pairs, r#"{"contentB64":"MIIB"}"#).unwrap();
        assert_eq!(result["certPath"], inside);
        assert_eq!(result["keyPath"], inside);
    }
}

#[test]
fn install_takes_any_path_that_stays_in_the_product_tree() {
    for inside in INSIDE {
        let pairs = [
            ("frontendHost", "f"),
            ("backendHost", "b"),
            ("keycloakHost", "k"),
            ("keycloakRealm", "r"),
            ("certPath", inside),
            ("keyPath", inside),
        ];
        let step = CertSecureInstall.prepare(&context(&pairs)).unwrap();
        assert_eq!(args(step), [INSTALL_DIR, "f", "b", inside, inside, "k", "r"]);
        assert!(run(&CertSecureInstall, &pairs, "done").is_ok());
    }
}

#[test]
fn certificate_paths_can_be_relayed() {
    assert!(relay_path_ok(CERT) && relay_path_ok(KEY));
    // The relay takes no path with two dots in a row.
    assert!(!relay_path_ok("/opt/certsecure-manager/conf/a..b.pem"));
    assert_eq!(format!("{INSTALL_DIR}/"), PRODUCT_TREE);
}

#[test]
fn make_cert_without_a_certificate_is_a_failure() {
    let pairs = [("names", "a"), ("certPath", CERT), ("keyPath", KEY)];
    for stdout in ["", "not json", "{}", r#"{"contentB64":7}"#, r#"["contentB64"]"#] {
        match run(&CertSecureMakeCert, &pairs, stdout) {
            Err(CommandError::Shell(PowerShellError::NonZeroExit { exit_code, stderr })) => {
                assert_eq!(exit_code, 1);
                assert_eq!(stderr, "certsecure.make_cert produced no certificate");
            }
            _ => panic!("{stdout:?} holds no certificate"),
        }
    }
}

#[test]
fn make_cert_concludes_from_the_document() {
    let ctx = context(&[("names", "a,b"), ("certPath", CERT), ("keyPath", KEY)]);
    let document = Json::Object(vec![
        ("sha256".to_string(), Json::Text("ff".to_string())),
        ("contentB64".to_string(), Json::Text("QQ==".to_string())),
    ]);
    let result = value(&CertSecureMakeCert.conclude(&ctx, &document).unwrap());
    assert_eq!(result["certPath"], CERT);
    assert_eq!(result["keyPath"], KEY);
    assert_eq!(result["subject"], "a");
    assert_eq!(result["contentB64"], "QQ==");
    assert_eq!(result["sha256"], "ff");
    assert!(result["notAfter"].is_null());
    assert!(CertSecureMakeCert.conclude(&ctx, &Json::Null).is_err());
}

#[test]
fn install_refuses_in_order() {
    let all = [
        ("frontendHost", "f"),
        ("backendHost", "b"),
        ("keycloakHost", "k"),
        ("keycloakRealm", "r"),
        ("certPath", CERT),
        ("keyPath", KEY),
    ];
    for given in 0..all.len() {
        assert_eq!(
            missing(CertSecureInstall.prepare(&context(&all[..given]))),
            all[given].0
        );
    }
    for (key, why) in [
        ("frontendHost", "must be a DNS name"),
        ("backendHost", "must be a DNS name"),
        ("keycloakHost", "must be a DNS name"),
        (
            "keycloakRealm",
            "may only contain letters, digits, dot, dash, underscore",
        ),
        (
            "certPath",
            "must be an absolute path under the product install directory",
        ),
        (
            "keyPath",
            "must be an absolute path under the product install directory",
        ),
    ] {
        let mut ctx = context(&all);
        ctx.params.insert(key.to_string(), "a b".to_string());
        assert_eq!(
            reason(CertSecureInstall.prepare(&ctx)),
            (key.to_string(), why.to_string())
        );
    }
    let result = run(&CertSecureInstall, &all, " done \n").unwrap();
    assert_eq!(result["installDir"], INSTALL_DIR);
    assert_eq!(result["keycloakRealm"], "r");
    assert_eq!(result["raw"], "done");
}

#[test]
fn verify_reports_every_status() {
    for (status, ok) in [
        ("199", false),
        ("200", true),
        ("399", true),
        ("400", false),
        ("", false),
        ("200 ", false),
        ("70000", false),
    ] {
        assert_eq!(http_ok(status), ok, "{status}");
    }
    let result = run(
        &CertSecureVerify,
        &[("frontendUrl", ""), ("keycloakUrl", "https://kc/")],
        "nothing",
    )
    .unwrap();
    assert_eq!(result["frontendStatus"], "0");
    assert_eq!(result["keycloakStatus"], "0");
    assert_eq!(result["keycloakOk"], false);
    assert_eq!(missing(run(&CertSecureVerify, &[], "")), "frontendUrl");
}

#[test]
fn verify_concludes_from_the_document() {
    let ctx = context(&[("frontendUrl", "https://a/"), ("keycloakUrl", "https://b/")]);
    let document = Json::Object(vec![(
        "frontendStatus".to_string(),
        Json::Text("204".to_string()),
    )]);
    let result = value(&CertSecureVerify.conclude(&ctx, &document).unwrap());
    assert_eq!(result["frontendOk"], true);
    assert_eq!(result["keycloakOk"], false);
    assert_eq!(result["frontendUrl"], "https://a/");
}

#[test]
fn only_https_urls_are_probed() {
    assert!(valid_https_url("https://a.b:8443/x?y=[1]#z"));
    assert!(valid_https_url("https://"));
    assert!(!valid_https_url("http://a.b/"));
    assert!(!valid_https_url("https://a b/"));
    assert!(!valid_https_url("https://a\"b"));
    let long = format!("https://{}", "a".repeat(192));
    assert!(valid_https_url(&long));
    assert!(!valid_https_url(&format!("{long}a")));
    let err = run(
        &CertSecureVerify,
        &[("frontendUrl", "https://a/"), ("keycloakUrl", "http://b/")],
        "",
    );
    assert_eq!(reason(err).0, "keycloakUrl");
}

#[test]
fn refresh_and_harden_take_no_parameters() {
    let step = AptRefresh.prepare(&context(&[])).unwrap();
    assert_eq!(step.phase, "refreshing package lists");
    assert!(args(step).is_empty());
    let result = run(&AptRefresh, &[], " Reading package lists...\n").unwrap();
    assert_eq!(result["refreshed"], true);
    assert_eq!(result["raw"], "Reading package lists...");
    let step = CertSecureHarden.prepare(&context(&[])).unwrap();
    assert_eq!(
        args(step),
        [
            INSTALL_DIR,
            "conf/key.pem",
            "600",
            "conf/keycloak-credentials.txt",
            "600",
            "conf/server.yaml",
            "640",
            "conf.ini",
            "640",
        ]
    );
    assert_eq!(run(&CertSecureHarden, &[], "").unwrap()["hardened"], list(&[]));
}

#[test]
fn a_failed_run_is_reported_with_its_exit_code() {
    let answer = ShellOutput {
        exit_code: 100,
        stdout: r#"{"contentB64":"QQ=="}"#.to_string(),
        stderr: "E: no".to_string(),
    };
    match AptRefresh.execute(&context(&[]), &answer) {
        Err(CommandError::Shell(PowerShellError::NonZeroExit { exit_code, stderr })) => {
            assert_eq!(exit_code, 100);
            assert_eq!(stderr, "E: no");
        }
        _ => panic!("the run failed"),
    }
    let ctx = context(&[("names", "a"), ("certPath", CERT), ("keyPath", KEY)]);
    assert!(matches!(
        CertSecureMakeCert.execute(&ctx, &answer),
        Err(CommandError::Shell(_))
    ));
    assert_eq!(missing(CertSecureMakeCert.execute(&context(&[]), &answer)), "names");
}

#[test]
fn certsecure_commands_demand_provisioning_but_for_the_probe() {
    assert_eq!(AptRefresh.required_capability(), Capability::VmProvision);
    assert_eq!(CertSecureWriteHosts.required_capability(), Capability::VmProvision);
    assert_eq!(CertSecureMakeCert.required_capability(), Capability::VmProvision);
    assert_eq!(CertSecureInstall.required_capability(), Capability::VmProvision);
    assert_eq!(CertSecureHarden.required_capability(), Capability::VmProvision);
    assert_eq!(CertSecureVerify.required_capability(), Capability::VmRead);
}
