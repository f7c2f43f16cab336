use pki_executor::authz::Capability;
use pki_executor::commands::linux::{
    relay_path_ok, FileRead, FileWrite, HostnameRead, SystemBootInfo, SystemIdentity, SystemReboot,
    RELAY_CAP_B64,
};
use pki_executor::json::Json;
use pki_executor::powershell::{PowerShellError, ShellOutput};
use pki_executor::registry::{CommandContext, CommandError, CommandHandler, Params, Step};
use serde_json::Value;

/// The same document as `serde_json` holds it.
fn value(json: &Json) -> Value {
    match json {
        Json::Null => Value::Null,
        Json::Bool(b) => Value::from(*b),
        Json::Number(n) => Value::from(*n),
        Json::Text(s) => Value::from(s.as_str()),
        Json::Array(items) => Value::from(items.iter().map(value).collect::<Vec<Value>>()),
        Json::Object(members) => Value::Object(
            members
                .iter()
                .map(|(key, member)| (key.clone(), value(member)))
                .collect(),
        ),
        Json::Numeral(source) => serde_json::from_str(source).unwrap(),
    }
}

fn context(pairs: &[(&str, &str)]) -> CommandContext {
    let mut params = Params::new();
    for (key, value) in pairs {
        params.insert(key.to_string(), value.to_string());
    }
    CommandContext {
        params,
        records: None,
    }
}

fn success(stdout: &str) -> ShellOutput {
    ShellOutput {
        exit_code: 0,
        stdout: stdout.to_string(),
        stderr: String::new(),
    }
}

fn run<H: CommandHandler>(
    handler: &H,
    pairs: &[(&str, &str)],
    stdout: &str,
) -> Result<Value, CommandError> {
    let ctx = context(pairs);
    handler
        .execute(&ctx, &success(stdout))
        .map(|result| value(&result))
}

fn args(step: Step) -> Vec<String> {
    step.shell.unwrap().args
}

fn reason<T>(result: Result<T, CommandError>) -> (String, String) {
    match result {
        Err(CommandError::InvalidParam { name, reason }) => (name, reason),
        _ => panic!("the parameter should be refused"),
    }
}

fn missing<T>(result: Result<T, CommandError>) -> String {
    match result {
        Err(CommandError::MissingParam(name)) => name,
        _ => panic!("the parameter should be missed"),
    }
}

#[test]
fn hostname_read_trims_the_shell_output() {
    assert_eq!(
        run(&HostnameRead, &[], "certsecure01\n").unwrap()["hostname"],
        "certsecure01"
    );
}

#[test]
fn system_identity_keeps_the_windows_result_shape() {
    let result = run(
        &SystemIdentity,
        &[],
        r#"{"hostname":"cs01","operating_system":"Ubuntu 24.04.3 LTS","version":"6.8.0-79-generic","product_type":3,"server":true}"#,
    )
    .unwrap();
    assert_eq!(result["hostname"], "cs01");
    assert_eq!(result["server"], true);
    assert_eq!(result["product_type"], 3);
}

#[test]
fn reboot_rejects_out_of_range_delay() {
    for delay in ["0", "3", "300", "-1", "ten"] {
        assert!(matches!(
            run(&SystemReboot, &[("delaySeconds", delay)], ""),
            Err(CommandError::InvalidParam { .. })
        ));
    }
}

/// Whoever waits for a boot to settle keys on `finalizePending` being a boolean
/// and on the uptime advancing.
#[test]
fn boot_info_reports_uptime_and_never_a_pending_finalize() {
    let handler = SystemBootInfo::with_uptime(412_000);
    let result = run(&handler, &[], "").unwrap();
    assert_eq!(result["uptimeS"], 412);
    assert_eq!(result["finalizePending"], false);
    assert_eq!(result["finalizeRunning"], false);
    // No shell call: the command runs on the boots where a cold interpreter is
    // least to be trusted.
    assert!(handler.prepare(&context(&[])).unwrap().shell.is_none());
}

#[test]
fn relay_rejects_paths_outside_the_allowlist() {
    for path in [
        "/etc/passwd",
        "/opt/certsecure-manager/../../etc/shadow",
        "C:\\Transfer\\root-ca.crt",
        "/opt/certsecure-manager/",
        "opt/certsecure-manager/x",
    ] {
        assert!(
            matches!(
                run(&FileRead, &[("path", path)], ""),
                Err(CommandError::InvalidParam { .. })
            ),
            "{path} should be rejected"
        );
    }
}

fn face<H: CommandHandler>(handler: &H) -> (&'static str, Capability) {
    (handler.name(), handler.required_capability())
}

/// Every command answers to the name, and demands the capability, that its
/// Windows sibling has.
#[test]
fn every_override_matches_its_windows_sibling() {
    let overrides: Vec<((&str, Capability), (&str, Capability))> = vec![
        (face(&HostnameRead), ("hostname.read", Capability::VmRead)),
        (face(&SystemIdentity), ("system.identity", Capability::VmRead)),
        (face(&SystemReboot), ("system.reboot", Capability::VmProvision)),
        (face(&FileRead), ("file.read", Capability::VmProvision)),
        (face(&FileWrite), ("file.write", Capability::VmProvision)),
    ];
    for (linux, windows) in overrides {
        assert_eq!(linux.0, windows.0);
        assert_eq!(linux.1, windows.1, "{} changed capability", linux.0);
    }
    let boot = face(&SystemBootInfo::with_uptime(0));
    assert_eq!(boot.0, "system.boot_info");
    assert_eq!(boot.1, Capability::VmRead);
}

#[test]
fn relay_accepts_a_path_inside_the_product_tree() {
    let result = run(
        &FileRead,
        &[("path", "/opt/certsecure-manager/conf/cert.pem")],
        r#"{"contentB64":"QQ==","sha256":"ab","size":1}"#,
    )
    .unwrap();
    assert_eq!(result["contentB64"], "QQ==");
}

#[test]
fn relay_paths_stay_in_two_directories() {
    assert!(relay_path_ok("/var/lib/pki-executor/transfer/a"));
    assert!(relay_path_ok("/opt/certsecure-manager/.x/-y_z.0"));
    assert!(!relay_path_ok("/var/lib/pki-executor/transfer/"));
    assert!(!relay_path_ok("/var/lib/pki-executor/transfer"));
    assert!(!relay_path_ok("/opt/certsecure-manager2/x"));
    assert!(!relay_path_ok("/opt/certsecure-manager/a..b"));
    assert!(!relay_path_ok("/opt/certsecure-manager/a b"));
    assert!(!relay_path_ok(""));
    let (name, why) = reason(run(&FileWrite, &[("path", "/etc/x")], ""));
    assert_eq!(name, "path");
    assert_eq!(
        why,
        "must be an absolute path under /opt/certsecure-manager/ or /var/lib/pki-executor/transfer/"
    );
}

const FILE: &str = "/opt/certsecure-manager/conf/cert.pem";

#[test]
fn file_read_asks_for_the_cap_and_reports_the_file() {
    let step = FileRead.prepare(&context(&[("path", FILE)])).unwrap();
    assert_eq!(step.phase, "reading file");
    assert_eq!(args(step), [FILE, "262144"]);
    let result = run(
        &FileRead,
        &[("path", FILE)],
        r#"{"contentB64":"QQ==","sha256":"ab","size":1}"#,
    )
    .unwrap();
    assert_eq!(result["path"], FILE);
    assert_eq!(result["sha256"], "ab");
    assert_eq!(result["size"], 1);
    assert_eq!(missing(run(&FileRead, &[], "")), "path");
    assert_eq!(
        reason(run(&FileRead, &[("path", FILE)], "{}")),
        ("path".to_string(), "file could not be read".to_string())
    );
}

#[test]
fn file_read_concludes_from_the_document() {
    let ctx = context(&[("path", FILE)]);
    let document = Json::Object(vec![("contentB64".to_string(), Json::Text(String::new()))]);
    let result = value(&FileRead.conclude(&ctx, &document).unwrap());
    assert_eq!(result["contentB64"], "");
    assert!(result["size"].is_null());
    assert!(FileRead.conclude(&ctx, &Json::Array(Vec::new())).is_err());
}

#[test]
fn file_write_takes_base64_up_to_the_cap() {
    let write = |content: &str| {
        FileWrite.prepare(&context(&[("path", FILE), ("contentB64", content)]))
    };
    assert_eq!(args(write("QUI=").unwrap()), [FILE, "QUI="]);
    let most = "A".repeat(RELAY_CAP_B64 as usize);
    assert_eq!(most.len(), 349_528);
    assert!(write(&most).is_ok());
    assert_eq!(
        reason(write(&format!("{most}A"))).1,
        "exceeds the 256 KiB relay cap"
    );
    for content in ["", "QQ==\n", "Q-Q_", "\u{e9}"] {
        assert_eq!(reason(write(content)).1, "must be base64");
    }
    assert_eq!(missing(FileWrite.prepare(&context(&[("path", FILE)]))), "contentB64");
    let result = run(&FileWrite, &[("path", FILE), ("contentB64", "QQ==")], "ab\n").unwrap();
    assert_eq!(result["path"], FILE);
    assert_eq!(result["sha256"], "ab");
}

#[test]
fn what_was_read_is_written_back() {
    let result = run(&FileRead, &[("path", FILE)], r#"{"contentB64":"QQ=="}"#).unwrap();
    let content = result["contentB64"].as_str().unwrap();
    let step = FileWrite
        .prepare(&context(&[("path", FILE), ("contentB64", content)]))
        .unwrap();
    assert_eq!(args(step), [FILE, "QQ=="]);
}

#[test]
fn identity_must_be_an_object() {
    for stdout in ["", "[]", "7", "null", "{"] {
        match run(&SystemIdentity, &[], stdout) {
            Err(CommandError::Shell(PowerShellError::NonZeroExit { exit_code, stderr })) => {
                assert_eq!(exit_code, 1);
                assert_eq!(stderr, "system.identity returned invalid JSON");
            }
            _ => panic!("{stdout:?} is no object"),
        }
    }
    assert!(SystemIdentity.conclude(Json::Object(Vec::new())).is_ok());
    assert!(SystemIdentity.conclude(Json::Text("x".to_string())).is_err());
}

#[test]
fn identity_keeps_nested_values() {
    let source = r#"{"a":{"b":[1,-2,2.5,"x",null]},"c":[true,{"d":18446744073709551615}],"e":-7}"#;
    let result = run(&SystemIdentity, &[], source).unwrap();
    let expected: Value = serde_json::from_str(source).unwrap();
    assert_eq!(result, expected);
}

#[test]
fn decoded_values_keep_their_shape() {
    let ctx = context(&[]);
    let answer = success(r#"{"b":[-0.5,{"c":"x"},[]],"a":1e2}"#);
    let Json::Object(members) = SystemIdentity.execute(&ctx, &answer).unwrap() else {
        panic!("an object was decoded");
    };
    let [(a, number), (b, list)] = &members[..] else {
        panic!("two members were decoded");
    };
    assert_eq!((a.as_str(), b.as_str()), ("a", "b"));
    assert!(matches!(number, Json::Numeral(n) if n == "100.0"));
    let Json::Array(items) = list else {
        panic!("an array was decoded");
    };
    assert_eq!(items.len(), 3);
    assert!(matches!(&items[0], Json::Numeral(n) if n == "-0.5"));
    assert!(matches!(items[1].get("c"), Json::Text(text) if text == "x"));
    assert!(matches!(&items[2], Json::Array(none) if none.is_empty()));
}

#[test]
fn reboot_leaves_time_for_the_result() {
    let step = SystemReboot.prepare(&context(&[])).unwrap();
    assert_eq!(args(step), ["10"]);
    for delay in ["5", "120", "+007"] {
        let pairs = [("delaySeconds", delay)];
        assert_eq!(args(SystemReboot.prepare(&context(&pairs)).unwrap()), [delay]);
        let result = run(&SystemReboot, &pairs, "").unwrap();
        assert_eq!(result["rebooting"], true);
        assert_eq!(result["delay_seconds"], delay);
    }
    for delay in ["4", "121", "", "10 ", "99999999999999999999"] {
        assert_eq!(
            reason(run(&SystemReboot, &[("delaySeconds", delay)], "")).1,
            "must be an integer in 5-120"
        );
    }
}

#[test]
fn uptime_is_reported_in_whole_seconds() {
    let uptime = |ms: u64| run(&SystemBootInfo::with_uptime(ms), &[], "").unwrap();
    assert_eq!(uptime(999)["uptimeS"], 0);
    assert_eq!(uptime(1_999)["uptimeS"], 1);
    assert_eq!(uptime(2_000)["uptimeS"], 2);
    assert_eq!(
        uptime(412_000)["raw"],
        "/proc/uptime 412s; no firstboot finalize task on Linux"
    );
    assert_eq!(uptime(u64::MAX)["uptimeS"], u64::MAX / 1000);
}
