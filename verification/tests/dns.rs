use pki_executor::authz::Capability;
use pki_executor::commands::dns::{
    check_record, parse_planned_records, valid_reverse_zone, valid_single_label,
    DnsApplyResources, DnsCreateRecord, DnsSetClient, DnsVerify, PlannedDnsKind, PlannedDnsRecord,
};
use pki_executor::json::Json;
use pki_executor::powershell::{PowerShellError, ShellOutput};
use pki_executor::registry::{CommandContext, CommandError, CommandHandler, Params, Step};
use serde_json::Value;

/// The same document as `serde_json` holds it.
fn value(json: &Json) -> Value {
    match json {
        Json::Null => Value::Null,
        Json::Bool(b) => Value::from(*b),
        Json::Number(n) => Value::from(*n),
        Json::Text(s) => Value::from(s.as_str()),
        Json::Array(items) => Value::from(items.iter().map(value).collect::<Vec<Value>>()),
        Json::Object(members) => Value::Object(
            members
                .iter()
                .map(|(key, member)| (key.clone(), value(member)))
                .collect(),
        ),
        Json::Numeral(source) => serde_json::from_str(source).unwrap(),
    }
}

/// The resources that a JSON array of them holds.
fn records(source: &str) -> Option<Vec<PlannedDnsRecord>> {
    let list: Vec<Value> = serde_json::from_str(source).ok()?;
    let mut out = Vec::new();
    for entry in &list {
        let field = |key: &str| entry[key].as_str().map(str::to_string);
        out.push(PlannedDnsRecord {
            id: field("id")?,
            kind: match entry["kind"].as_str()? {
                "A" => PlannedDnsKind::A,
                "PTR" => PlannedDnsKind::Ptr,
                "CNAME" => PlannedDnsKind::Cname,
                _ => return None,
            },
            zone: field("zone")?,
            name: field("name")?,
            value: field("value")?,
        });
    }
    Some(out)
}

fn context(pairs: &[(&str, &str)]) -> CommandContext {
    let mut params = Params::new();
    for (key, value) in pairs {
        params.insert(key.to_string(), value.to_string());
    }
    let records = params.get("records").and_then(records);
    CommandContext { params, records }
}

fn success(stdout: &str) -> ShellOutput {
    ShellOutput {
        exit_code: 0,
        stdout: stdout.to_string(),
        stderr: String::new(),
    }
}

fn run<H: CommandHandler>(
    handler: &H,
    pairs: &[(&str, &str)],
    stdout: &str,
) -> Result<Value, CommandError> {
    let ctx = context(pairs);
    handler
        .execute(&ctx, &success(stdout))
        .map(|result| value(&result))
}

fn args(step: Step) -> Vec<String> {
    step.shell.unwrap().args
}

fn reason<T>(result: Result<T, CommandError>) -> (String, String) {
    match result {
        Err(CommandError::InvalidParam { name, reason }) => (name, reason),
        _ => panic!("the parameter should be refused"),
    }
}

fn missing<T>(result: Result<T, CommandError>) -> String {
    match result {
        Err(CommandError::MissingParam(name)) => name,
        _ => panic!("the parameter should be missed"),
    }
}

fn planned_records_json() -> &'static str {
    r#"[{"id":"dns:a:dc:web","kind":"A","zone":"encon.pki","name":"srv1","value":"192.168.1.92"},{"id":"dns:ptr:dc:web","kind":"PTR","zone":"1.168.192.in-addr.arpa","name":"192.168.1.92","value":"srv1.encon.pki."},{"id":"dns:cname:dc:pki","kind":"CNAME","zone":"encon.pki","name":"pki","value":"srv1.encon.pki."}]"#
}

#[test]
fn set_client_requires_servers() {
    assert!(matches!(
        run(&DnsSetClient, &[], ""),
        Err(CommandError::MissingParam(_))
    ));
}

#[test]
fn set_client_rejects_malformed_server() {
    assert!(matches!(
        run(&DnsSetClient, &[("servers", "192.168.1.90,not-an-ip")], ""),
        Err(CommandError::InvalidParam { .. })
    ));
}

#[test]
fn set_client_rejects_empty_list() {
    assert!(matches!(
        run(&DnsSetClient, &[("servers", " , ")], ""),
        Err(CommandError::InvalidParam { .. })
    ));
}

#[test]
fn set_client_applies_and_echoes_readback() {
    let result = run(
        &DnsSetClient,
        &[("servers", "192.168.1.90, 192.168.1.91")],
        "192.168.1.90,192.168.1.91",
    )
    .unwrap();
    assert_eq!(result["servers"][0], "192.168.1.90");
    assert_eq!(result["servers"][1], "192.168.1.91");
    assert_eq!(result["applied"], "192.168.1.90,192.168.1.91");
    assert!(result["interface"].is_null());
}

#[test]
fn create_record_requires_all_params() {
    assert!(matches!(
        run(&DnsCreateRecord, &[("zone", "EncryptionConsulting.com")], ""),
        Err(CommandError::MissingParam(_))
    ));
}

#[test]
fn create_record_rejects_dotted_name() {
    assert!(matches!(
        run(
            &DnsCreateRecord,
            &[
                ("zone", "EncryptionConsulting.com"),
                ("name", "pki.extra"),
                ("target", "srv1.EncryptionConsulting.com."),
            ],
            ""
        ),
        Err(CommandError::InvalidParam { .. })
    ));
}

#[test]
fn create_record_rejects_injection_shaped_target() {
    assert!(matches!(
        run(
            &DnsCreateRecord,
            &[
                ("zone", "EncryptionConsulting.com"),
                ("name", "pki"),
                ("target", "srv1; Remove-Item -Recurse C:\\"),
            ],
            ""
        ),
        Err(CommandError::InvalidParam { .. })
    ));
}

#[test]
fn create_record_echoes_the_applied_alias() {
    let result = run(
        &DnsCreateRecord,
        &[
            ("zone", "EncryptionConsulting.com"),
            ("name", "pki"),
            ("target", "srv1.EncryptionConsulting.com."),
        ],
        "srv1.EncryptionConsulting.com.",
    )
    .unwrap();
    assert_eq!(result["name"], "pki");
    assert_eq!(result["applied"], "srv1.EncryptionConsulting.com.");
}

#[test]
fn apply_resources_validates_and_reports_readback() {
    let pairs = [("records", planned_records_json())];
    let result = run(
        &DnsApplyResources,
        &pairs,
        r#"{"applied":3,"records":[{"id":"dns:a:dc:web","status":"created"}]}"#,
    )
    .unwrap();
    assert_eq!(result["applied"], 3);
    assert_eq!(result["readback"]["applied"], 3);

    let step = DnsApplyResources.prepare(&context(&pairs)).unwrap();
    let script = step.shell.as_ref().unwrap().script;
    assert!(script.contains("DNS conflict for PTR ${name}:"));
    assert!(script.contains("DNS conflict for A $name.${zone}:"));
    assert!(script.contains("DNS conflict for CNAME $name.${zone}:"));
}

#[test]
fn apply_resources_rejects_invalid_ptr_zone() {
    let records = r#"[{"id":"dns:ptr:dc:web","kind":"PTR","zone":"encon.pki","name":"192.168.1.92","value":"srv1.encon.pki."}]"#;
    assert!(matches!(
        run(&DnsApplyResources, &[("records", records)], ""),
        Err(CommandError::InvalidParam { .. })
    ));
}

#[test]
fn verify_accepts_srv_and_http_checks() {
    let result = run(
        &DnsVerify,
        &[
            ("records", planned_records_json()),
            ("server", "192.168.1.90"),
            ("requireAdSrv", "true"),
            ("domain", "encon.pki"),
            ("httpUrl", "http://pki.encon.pki/CertEnroll/"),
        ],
        r#"{"all_verified":true,"ad_srv_ok":true,"http_ok":true}"#,
    )
    .unwrap();
    assert_eq!(result["all_verified"], true);
    assert_eq!(result["ad_srv_ok"], true);
    assert_eq!(result["http_ok"], true);
}

#[test]
fn verify_rejects_unsafe_http_url() {
    assert!(matches!(
        run(
            &DnsVerify,
            &[
                ("records", planned_records_json()),
                ("server", "192.168.1.90"),
                ("httpUrl", "http://pki.encon.pki/;Remove-Item"),
            ],
            ""
        ),
        Err(CommandError::InvalidParam { .. })
    ));
}

#[test]
fn set_client_lists_its_servers() {
    let pairs = [
        ("servers", " 192.168.1.90 ,,192.168.1.91"),
        ("interface", "Ethernet 2"),
    ];
    let step = DnsSetClient.prepare(&context(&pairs)).unwrap();
    assert_eq!(step.phase, "configuring DNS client");
    assert_eq!(step.percent, 30);
    let given = args(step);
    assert_eq!(given, ["192.168.1.90,192.168.1.91", "Ethernet 2"]);
    let again = DnsSetClient.prepare(&context(&[("servers", given[0].as_str())])).unwrap();
    assert_eq!(args(again), ["192.168.1.90,192.168.1.91", ""]);
    let result = run(&DnsSetClient, &pairs, "x\n").unwrap();
    assert_eq!(result["interface"], "Ethernet 2");
    assert_eq!(result["applied"], "x");
    // An octet with a leading zero is no address here.
    let (name, why) = reason(run(&DnsSetClient, &[("servers", "010.0.0.1")], ""));
    assert_eq!(name, "servers");
    assert_eq!(why, "must be a comma-separated list of dotted-quad IPv4 addresses");
}

#[test]
fn create_record_refuses_in_order() {
    let all = [("zone", "encon.pki"), ("name", "pki"), ("target", "srv1.encon.pki")];
    for given in 0..all.len() {
        assert_eq!(
            missing(DnsCreateRecord.prepare(&context(&all[..given]))),
            all[given].0
        );
    }
    for (key, why) in [
        ("zone", "must be a DNS zone name"),
        ("name", "must be a single DNS label"),
        ("target", "must be a DNS host name"),
    ] {
        let mut ctx = context(&all);
        ctx.params.insert(key.to_string(), "-".to_string());
        assert_eq!(
            reason(DnsCreateRecord.prepare(&ctx)),
            (key.to_string(), why.to_string())
        );
    }
    let step = DnsCreateRecord.prepare(&context(&all)).unwrap();
    assert_eq!(args(step), ["encon.pki", "pki", "srv1.encon.pki"]);
}

fn record(kind: PlannedDnsKind, zone: &str, name: &str, value: &str) -> PlannedDnsRecord {
    PlannedDnsRecord {
        id: "dns:x".to_string(),
        kind,
        zone: zone.to_string(),
        name: name.to_string(),
        value: value.to_string(),
    }
}

#[test]
fn every_resource_fault_has_its_reason() {
    let why = |record: PlannedDnsRecord| reason(check_record(&record)).1;
    let mut unnamed = record(PlannedDnsKind::A, "z", "n", "10.0.0.1");
    assert!(check_record(&unnamed).is_ok());
    for id in ["", "a b", "a.b"] {
        unnamed.id = id.to_string();
        assert_eq!(
            reason(check_record(&unnamed)).1,
            "contains an invalid resource id"
        );
    }
    unnamed.id = "a".repeat(500);
    assert!(check_record(&unnamed).is_ok());
    unnamed.id.push('a');
    assert!(check_record(&unnamed).is_err());
    assert_eq!(
        why(record(PlannedDnsKind::A, "a..b", "n", "10.0.0.1")),
        "contains an invalid DNS zone"
    );
    assert_eq!(
        why(record(PlannedDnsKind::A, "z", "n.m", "10.0.0.1")),
        "contains an invalid A record"
    );
    assert_eq!(
        why(record(PlannedDnsKind::A, "z", "n", "10.0.0.01")),
        "contains an invalid A record"
    );
    let zone = "10.in-addr.arpa";
    assert!(check_record(&record(PlannedDnsKind::Ptr, zone, "10.0.0.1", "h.z.")).is_ok());
    assert_eq!(
        why(record(PlannedDnsKind::Ptr, zone, "10.0.0", "h.z.")),
        "contains an invalid PTR record"
    );
    assert_eq!(
        why(record(PlannedDnsKind::Ptr, zone, "10.0.0.1", "h z")),
        "contains an invalid PTR record"
    );
    assert!(check_record(&record(PlannedDnsKind::Cname, "z", "n", "h.z.")).is_ok());
    assert_eq!(
        why(record(PlannedDnsKind::Cname, "z", "n.", "h.z.")),
        "contains an invalid CNAME record"
    );
}

#[test]
fn reverse_zones() {
    for zone in [
        "10.in-addr.arpa",
        "1.168.192.in-addr.arpa",
        "1.168.192.IN-ADDR.Arpa.",
        "255.in-addr.arpa...",
        "+007.in-addr.arpa",
    ] {
        assert!(valid_reverse_zone(zone), "{zone}");
    }
    for zone in [
        "",
        ".in-addr.arpa",
        "in-addr.arpa",
        "4.1.168.192.in-addr.arpa",
        "256.in-addr.arpa",
        "x.in-addr.arpa",
        "1..in-addr.arpa",
        "10.in-addr.arpa.x",
    ] {
        assert!(!valid_reverse_zone(zone), "{zone}");
    }
}

#[test]
fn single_labels() {
    assert!(valid_single_label("srv1"));
    assert!(valid_single_label(&"a".repeat(63)));
    assert!(!valid_single_label(&"a".repeat(64)));
    assert!(!valid_single_label("srv1."));
    assert!(!valid_single_label("-a"));
    assert!(!valid_single_label(""));
}

#[test]
fn plans_are_bounded() {
    assert_eq!(missing(parse_planned_records(&context(&[]))), "records");
    for source in ["", "{}", "[7]", r#"[{"id":"a"}]"#] {
        assert_eq!(
            reason(parse_planned_records(&context(&[("records", source)]))).1,
            "must be a JSON array of DNS resources"
        );
    }
    assert_eq!(
        reason(parse_planned_records(&context(&[("records", "[]")]))).1,
        "must contain between 1 and 32 resources"
    );
    let one = r#"{"id":"a","kind":"A","zone":"z","name":"n","value":"10.0.0.1"}"#;
    let plan = |n: usize| format!("[{}]", vec![one; n].join(","));
    let most = plan(32);
    let ctx = context(&[("records", most.as_str())]);
    let (raw, list) = parse_planned_records(&ctx).unwrap();
    assert_eq!(raw, most);
    assert_eq!(list.len(), 32);
    assert_eq!(
        reason(parse_planned_records(&context(&[("records", plan(33).as_str())]))).1,
        "must contain between 1 and 32 resources"
    );
    let padded = format!("{:1$}", plan(1), 32 * 1024);
    assert!(parse_planned_records(&context(&[("records", padded.as_str())])).is_ok());
    let padded = format!("{padded} ");
    assert_eq!(
        reason(parse_planned_records(&context(&[("records", padded.as_str())]))).1,
        "JSON payload is too large"
    );
}

#[test]
fn the_first_faulty_resource_is_named() {
    let source = r#"[{"id":"a","kind":"A","zone":"z","name":"n","value":"10.0.0.1"},
        {"id":"b","kind":"CNAME","zone":"z","name":"n","value":"-"},
        {"id":"","kind":"A","zone":"z","name":"n","value":"10.0.0.1"}]"#;
    assert_eq!(
        reason(parse_planned_records(&context(&[("records", source)]))).1,
        "contains an invalid CNAME record"
    );
}

#[test]
fn apply_concludes_from_the_document() {
    let ctx = context(&[("records", planned_records_json())]);
    let result = DnsApplyResources
        .conclude(&ctx, Json::Text("done".to_string()))
        .unwrap();
    assert_eq!(value(&result)["applied"], 3);
    assert_eq!(value(&result)["readback"], "done");
    assert!(DnsApplyResources.conclude(&context(&[]), Json::Null).is_err());
    let step = DnsApplyResources.prepare(&ctx).unwrap();
    assert_eq!(args(step), [planned_records_json()]);
    // A script that prints no JSON leaves nothing to read back.
    let result = run(&DnsApplyResources, &[("records", planned_records_json())], "ok?").unwrap();
    assert!(result["readback"].is_null());
}

#[test]
fn verify_refuses_in_order() {
    let plan = ("records", planned_records_json());
    let verify = |pairs: &[(&str, &str)]| {
        let mut all = vec![plan];
        all.extend_from_slice(pairs);
        DnsVerify.prepare(&context(&all))
    };
    assert_eq!(missing(DnsVerify.prepare(&context(&[]))), "records");
    assert_eq!(missing(verify(&[])), "server");
    assert_eq!(
        reason(verify(&[("server", "a b")])).1,
        "must be an IPv4 address or DNS name"
    );
    assert_eq!(
        reason(verify(&[("server", "dc"), ("requireAdSrv", "yes")])),
        ("requireAdSrv".to_string(), "must be true or false".to_string())
    );
    assert_eq!(
        reason(verify(&[("server", "dc"), ("requireAdSrv", "true")])),
        ("domain".to_string(), "must be a DNS domain name".to_string())
    );
    assert_eq!(
        reason(verify(&[("server", "dc"), ("httpUrl", "ftp://x")])),
        ("httpUrl".to_string(), "must be a safe HTTP(S) URL".to_string())
    );
    let long = format!("http://{}", "a".repeat(293));
    assert!(verify(&[("server", "dc"), ("httpUrl", long.as_str())]).is_ok());
    let long = format!("{long}a");
    assert!(verify(&[("server", "dc"), ("httpUrl", long.as_str())]).is_err());
    // The domain does not matter while no service records are asked for.
    let step = verify(&[("server", "10.0.0.1"), ("domain", "a b")]).unwrap();
    assert_eq!(step.phase, "verifying DNS resources");
    assert_eq!(args(step), [planned_records_json(), "10.0.0.1", "false", "a b", ""]);
}

#[test]
fn a_mismatch_fails_the_verification() {
    let ctx = context(&[("records", planned_records_json()), ("server", "dc")]);
    let answer = ShellOutput {
        exit_code: 2,
        stdout: "{}".to_string(),
        stderr: "mismatch".to_string(),
    };
    match DnsVerify.execute(&ctx, &answer) {
        Err(CommandError::Shell(PowerShellError::NonZeroExit { exit_code, stderr })) => {
            assert_eq!(exit_code, 2);
            assert_eq!(stderr, "mismatch");
        }
        _ => panic!("the run failed"),
    }
}

#[test]
fn dns_commands_have_names_and_capabilities() {
    assert_eq!(DnsSetClient.name(), "dns.set_client");
    assert_eq!(DnsSetClient.required_capability(), Capability::VmProvision);
    assert_eq!(DnsCreateRecord.name(), "dns.create_record");
    assert_eq!(DnsCreateRecord.required_capability(), Capability::VmProvision);
    assert_eq!(DnsApplyResources.name(), "dns.apply_resources");
    assert_eq!(DnsApplyResources.required_capability(), Capability::VmProvision);
    assert_eq!(DnsVerify.name(), "dns.verify");
    assert_eq!(DnsVerify.required_capability(), Capability::VmRead);
}
