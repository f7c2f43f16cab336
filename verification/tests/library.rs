use pki_executor::authz::{lacking_message, Capability, Role};
use pki_executor::commands::certsecure::{
    AptRefresh, CertSecureHarden, CertSecureInstall, CertSecureMakeCert, CertSecureVerify,
    CertSecureWriteHosts,
};
use pki_executor::commands::dns::{DnsApplyResources, DnsCreateRecord, DnsSetClient, DnsVerify};
use pki_executor::commands::linux::{
    FileRead, FileWrite, HostnameRead, SystemBootInfo, SystemIdentity, SystemReboot,
};
use pki_executor::commands::pki_verify::PkiVerify;
use pki_executor::commands::util::{valid_dns_name, valid_posix_path};
use pki_executor::dispatch::{begin, finish, DispatchError};
use pki_executor::ipv4::{dotted_quad, valid_ipv4};
use pki_executor::json::Json;
use pki_executor::number::{parse_up_to, to_decimal, within};
use pki_executor::powershell::ShellOutput;
use pki_executor::registry::{CommandContext, CommandError, CommandHandler, Params};
use pki_executor::split::{join, list_entries, list_items, split, split_words, trimmed, Separator};

fn empty() -> CommandContext {
    CommandContext {
        params: Params::new(),
        records: None,
    }
}

fn answer(stdout: &str) -> ShellOutput {
    ShellOutput {
        exit_code: 0,
        stdout: stdout.to_string(),
        stderr: String::new(),
    }
}

fn face<H: CommandHandler>(handler: &H) -> (&'static str, Capability) {
    (handler.name(), handler.required_capability())
}

fn catalog() -> Vec<(&'static str, Capability)> {
    vec![
        face(&AptRefresh),
        face(&CertSecureWriteHosts),
        face(&CertSecureMakeCert),
        face(&CertSecureInstall),
        face(&CertSecureVerify),
        face(&CertSecureHarden),
        face(&DnsSetClient),
        face(&DnsCreateRecord),
        face(&DnsApplyResources),
        face(&DnsVerify),
        face(&HostnameRead),
        face(&SystemIdentity),
        face(&SystemReboot),
        face(&SystemBootInfo::with_uptime(0)),
        face(&FileRead),
        face(&FileWrite),
        face(&PkiVerify),
    ]
}

#[test]
fn no_two_commands_share_a_name() {
    let mut names: Vec<&str> = catalog().into_iter().map(|(name, _)| name).collect();
    names.sort();
    names.dedup();
    assert_eq!(names.len(), 17);
}

#[test]
fn commands_that_only_observe() {
    let mut observing: Vec<&str> = catalog()
        .into_iter()
        .filter(|(_, capability)| *capability == Capability::VmRead)
        .map(|(name, _)| name)
        .collect();
    observing.sort();
    assert_eq!(
        observing,
        [
            "certsecure.verify",
            "dns.verify",
            "hostname.read",
            "pki.verify",
            "system.boot_info",
            "system.identity",
        ]
    );
}

#[test]
fn a_guest_may_observe() {
    let step = begin(&HostnameRead, Role::Guest, &empty()).unwrap();
    assert!(step.shell.is_some());
    let result = finish(&HostnameRead, Role::Guest, &empty(), &answer("a\n")).unwrap();
    assert!(matches!(result.get("hostname"), Json::Text(name) if name == "a"));
}

#[test]
fn a_guest_may_not_provision() {
    // The role is held against the command before the parameters are looked at.
    match begin(&FileRead, Role::Guest, &empty()) {
        Err(DispatchError::Forbidden { role, capability, command }) => {
            assert_eq!(role, Role::Guest);
            assert_eq!(capability, Capability::VmProvision);
            assert_eq!(command, "file.read");
        }
        _ => panic!("a guest may not read files"),
    }
    assert!(matches!(
        finish(&AptRefresh, Role::Guest, &empty(), &answer("")),
        Err(DispatchError::Forbidden { .. })
    ));
}

#[test]
fn an_operator_gets_the_answer_of_the_command() {
    assert!(begin(&AptRefresh, Role::Operator, &empty()).is_ok());
    assert!(matches!(
        begin(&FileRead, Role::Operator, &empty()),
        Err(DispatchError::Command(CommandError::MissingParam(name))) if name == "path"
    ));
    assert!(matches!(
        finish(&FileRead, Role::Operator, &empty(), &answer("{}")),
        Err(DispatchError::Command(CommandError::MissingParam(name))) if name == "path"
    ));
}

#[test]
fn nobody_but_an_operator_runs_anything_at_all() {
    assert!(Role::Operator.has(Capability::VmExecArbitrary));
    assert!(!Role::Guest.has(Capability::VmExecArbitrary));
    assert!(!Role::Guest.has(Capability::VmUpdate));
    assert!(!Role::Guest.has(Capability::VmProvision));
    assert!(Role::Guest.has(Capability::VmRead));
    assert_eq!(
        lacking_message(
            Role::Guest,
            Capability::VmExecArbitrary,
            "powershell.exec_arbitrary"
        ),
        "role Guest lacks capability VmExecArbitrary required by 'powershell.exec_arbitrary'"
    );
}

#[test]
fn parameters_are_replaced_by_name() {
    let mut params = Params::new();
    assert_eq!(params.get("a"), None);
    params.insert("a".to_string(), "1".to_string());
    params.insert("a".to_string(), "2".to_string());
    params.insert("b".to_string(), String::new());
    assert_eq!(params.get("a"), Some("2"));
    assert_eq!(params.get("b"), Some(""));
}

#[test]
fn pieces_and_words() {
    let dot = Separator::Char('.');
    assert_eq!(split("", dot), [""]);
    assert_eq!(split(".a..b", dot), ["", "a", "", "b"]);
    assert_eq!(split_words("\u{a0}a\t b\u{2003}c\n"), ["a", "b", "c"]);
    assert!(split_words(" \r\n").is_empty());
    assert_eq!(trimmed(" \u{3000}a b\u{85}\n"), "a b");
    assert_eq!(trimmed(" "), "");
    assert_eq!(list_entries(" a,, b "), ["a", "", "b"]);
    assert_eq!(list_items(" a,, b "), ["a", "b"]);
    assert!(list_items(" , ").is_empty());
    let text = "x..yz.";
    assert_eq!(join(&split(text, dot), "."), text);
    let list = vec!["a".to_string(), String::new(), "c d".to_string()];
    assert_eq!(split(&join(&list, "."), dot), list);
    assert_eq!(list_items(&join(&list_items(" a , b,"), ",")), ["a", "b"]);
}

#[test]
fn numbers() {
    assert_eq!(parse_up_to("+0042", 255), Some(42));
    assert_eq!(parse_up_to("255", 255), Some(255));
    assert_eq!(parse_up_to("256", 255), None);
    assert_eq!(parse_up_to("99999999999999999999999", 0xffff_ffff), None);
    for text in ["", "+", "-1", "1 ", "++1", "\u{661}"] {
        assert_eq!(parse_up_to(text, 255), None, "{text:?}");
    }
    assert!(within("5", 5, 120));
    assert!(!within("4", 5, 120));
    assert_eq!(to_decimal(0), "0");
    assert_eq!(to_decimal(262_144), "262144");
    assert_eq!(to_decimal(u64::MAX), "18446744073709551615");
}

#[test]
fn addresses() {
    for text in ["0.0.0.0", "255.255.255.255", "10.0.181.5"] {
        assert!(valid_ipv4(text) && dotted_quad(text), "{text}");
    }
    for text in ["010.0.0.1", "1.2.3.004"] {
        assert!(valid_ipv4(text) && !dotted_quad(text), "{text}");
    }
    for text in ["", "1.2.3", "1.2.3.4.5", "1.2.3.256", "1.2.3.", "1.2.3.+4", "1.2.3.0004", " 1.2.3.4"] {
        assert!(!valid_ipv4(text) && !dotted_quad(text), "{text}");
    }
}

#[test]
fn names_and_paths() {
    let label = "a".repeat(63);
    let long = format!("{label}.{label}.{label}.{}", "a".repeat(61));
    assert_eq!(long.len(), 253);
    assert!(valid_dns_name(&long));
    assert!(valid_dns_name(&format!("{long}.")));
    assert!(!valid_dns_name(&format!("{long}a")));
    for name in ["a", "A-1.b", "srv1.encon.pki.", "1"] {
        assert!(valid_dns_name(name), "{name}");
    }
    for name in ["", ".", "a..b", "-a", "a-", "a_b", "a b", "a.b..", "\u{e9}"] {
        assert!(!valid_dns_name(name), "{name}");
    }
    assert!(valid_posix_path("/a/b-c_d.e"));
    assert!(valid_posix_path("/"));
    assert!(!valid_posix_path("a/b"));
    assert!(!valid_posix_path("/a b"));
    assert!(!valid_posix_path(""));
}
