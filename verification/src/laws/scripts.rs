//! Laws of the scripts: which argument each takes for what, and what it prints.
//! A proof names the text of its script to look at the characters.

use vstd::prelude::*;

use crate::commands::{certsecure, linux, dns, pki_verify};

verus! {

/// `words` stand in `script` from the place `at` on.
pub open spec fn says_at(script: Seq<char>, words: Seq<char>, at: int) -> bool {
    &&& 0 <= at
    &&& at + words.len() <= script.len()
    &&& script.subrange(at, at + words.len()) == words
}

/// `words` stand somewhere in `script`.
pub open spec fn says(script: Seq<char>, words: Seq<char>) -> bool {
    exists|at: int| says_at(script, words, at)
}

/// The refresh updates the package lists.
pub proof fn refresh_script_updates()
    ensures
        says(certsecure::APT_REFRESH_SCRIPT@, "apt-get update"@),
{
    reveal_strlit(r#"set -eu
export DEBIAN_FRONTEND=noninteractive
apt-get update
"#);
    reveal_strlit("apt-get update");
    assert(certsecure::APT_REFRESH_SCRIPT@.subrange(46, 60) =~= "apt-get update"@);
    assert(says_at(certsecure::APT_REFRESH_SCRIPT@, "apt-get update"@, 46));
}

/// The hosts script takes the two marking lines and the block, drops what stood
/// between such lines, and appends the block between them to what is left.
pub proof fn hosts_script_replaces_the_block()
    ensures
        says(certsecure::WRITE_HOSTS_SCRIPT@, "begin=\"$1\"\nend=\"$2\"\nblock=\"$3\"\n"@),
        says(certsecure::WRITE_HOSTS_SCRIPT@, "sed \"/^${begin}\\$/,/^${end}\\$/d\" /etc/hosts > \"$tmp\""@),
        says(certsecure::WRITE_HOSTS_SCRIPT@, "  printf '%s\\n' \"$begin\"\n  printf '%s\\n' \"$block\"\n  printf '%s\\n' \"$end\"\n} >> \"$tmp\""@),
        says(certsecure::WRITE_HOSTS_SCRIPT@, "cat \"$tmp\" > /etc/hosts"@),
        says(certsecure::WRITE_HOSTS_SCRIPT@, "grep -c . /etc/hosts"@),
{
    reveal_strlit(r#"set -eu
begin="$1"
end="$2"
block="$3"
tmp="$(mktemp)"
# Drop any previous managed block, then append the current one. sed's range
# form deletes an unterminated block to EOF too, so a half-written file from an
# interrupted run converges rather than accumulating.
sed "/^${begin}\$/,/^${end}\$/d" /etc/hosts > "$tmp"
{
  printf '%s\n' "$begin"
  printf '%s\n' "$block"
  printf '%s\n' "$end"
} >> "$tmp"
# Preserve /etc/hosts' own mode and ownership rather than mktemp's 0600, which
# would make the file unreadable to every non-root resolver on the box.
chmod 0644 "$tmp"
chown root:root "$tmp"
cat "$tmp" > /etc/hosts
rm -f "$tmp"
grep -c . /etc/hosts
"#);
    reveal_strlit("begin=\"$1\"\nend=\"$2\"\nblock=\"$3\"\n");
    assert(certsecure::WRITE_HOSTS_SCRIPT@.subrange(8, 39) =~= "begin=\"$1\"\nend=\"$2\"\nblock=\"$3\"\n"@);
    assert(says_at(certsecure::WRITE_HOSTS_SCRIPT@, "begin=\"$1\"\nend=\"$2\"\nblock=\"$3\"\n"@, 8));
    reveal_strlit("sed \"/^${begin}\\$/,/^${end}\\$/d\" /etc/hosts > \"$tmp\"");
    assert(certsecure::WRITE_HOSTS_SCRIPT@.subrange(265, 317) =~= "sed \"/^${begin}\\$/,/^${end}\\$/d\" /etc/hosts > \"$tmp\""@);
    assert(says_at(certsecure::WRITE_HOSTS_SCRIPT@, "sed \"/^${begin}\\$/,/^${end}\\$/d\" /etc/hosts > \"$tmp\""@, 265));
    reveal_strlit("  printf '%s\\n' \"$begin\"\n  printf '%s\\n' \"$block\"\n  printf '%s\\n' \"$end\"\n} >> \"$tmp\"");
    assert(certsecure::WRITE_HOSTS_SCRIPT@.subrange(320, 404) =~= "  printf '%s\\n' \"$begin\"\n  printf '%s\\n' \"$block\"\n  printf '%s\\n' \"$end\"\n} >> \"$tmp\""@);
    assert(says_at(certsecure::WRITE_HOSTS_SCRIPT@, "  printf '%s\\n' \"$begin\"\n  printf '%s\\n' \"$block\"\n  printf '%s\\n' \"$end\"\n} >> \"$tmp\""@, 320));
    reveal_strlit("cat \"$tmp\" > /etc/hosts");
    assert(certsecure::WRITE_HOSTS_SCRIPT@.subrange(597, 620) =~= "cat \"$tmp\" > /etc/hosts"@);
    assert(says_at(certsecure::WRITE_HOSTS_SCRIPT@, "cat \"$tmp\" > /etc/hosts"@, 597));
    reveal_strlit("grep -c . /etc/hosts");
    assert(certsecure::WRITE_HOSTS_SCRIPT@.subrange(634, 654) =~= "grep -c . /etc/hosts"@);
    assert(says_at(certsecure::WRITE_HOSTS_SCRIPT@, "grep -c . /etc/hosts"@, 634));
}

/// The certificate script takes the two paths, the subject, the alternative names
/// and the days, and uses each for what it is.
pub proof fn certificate_script_uses_each_argument()
    ensures
        says(certsecure::MAKE_CERT_SCRIPT@, "cert_path=\"$1\"\nkey_path=\"$2\"\nsubject_cn=\"$3\"\nsan=\"$4\"\ndays=\"$5\"\n"@),
        says(certsecure::MAKE_CERT_SCRIPT@, "openssl req -x509 -newkey rsa:2048 -sha256 -nodes"@),
        says(certsecure::MAKE_CERT_SCRIPT@, "-days \"$days\""@),
        says(certsecure::MAKE_CERT_SCRIPT@, "-keyout \"$key_path\" -out \"$cert_path\""@),
        says(certsecure::MAKE_CERT_SCRIPT@, "-subj \"/CN=${subject_cn}\""@),
        says(certsecure::MAKE_CERT_SCRIPT@, "\"subjectAltName=${san}\""@),
        says(certsecure::MAKE_CERT_SCRIPT@, "chmod 0600 \"$key_path\""@),
        says(certsecure::MAKE_CERT_SCRIPT@, "{\"contentB64\":\"%s\",\"sha256\":\"%s\",\"notAfter\":\"%s\"}"@),
{
    reveal_strlit(r#"set -eu
cert_path="$1"
key_path="$2"
subject_cn="$3"
san="$4"
days="$5"
mkdir -p "$(dirname "$cert_path")" "$(dirname "$key_path")"
openssl req -x509 -newkey rsa:2048 -sha256 -nodes \
  -days "$days" \
  -keyout "$key_path" -out "$cert_path" \
  -subj "/CN=${subject_cn}" \
  -addext "subjectAltName=${san}" \
  -addext "basicConstraints=critical,CA:FALSE" \
  -addext "keyUsage=critical,digitalSignature,keyEncipherment" \
  -addext "extendedKeyUsage=serverAuth" >/dev/null 2>&1
chmod 0600 "$key_path"
chmod 0644 "$cert_path"
printf '{"contentB64":"%s","sha256":"%s","notAfter":"%s"}' \
  "$(openssl x509 -in "$cert_path" -outform DER | base64 -w0)" \
  "$(openssl x509 -in "$cert_path" -outform DER | sha256sum | cut -d' ' -f1)" \
  "$(openssl x509 -in "$cert_path" -noout -enddate | cut -d= -f2)"
"#);
    reveal_strlit("cert_path=\"$1\"\nkey_path=\"$2\"\nsubject_cn=\"$3\"\nsan=\"$4\"\ndays=\"$5\"\n");
    assert(certsecure::MAKE_CERT_SCRIPT@.subrange(8, 72) =~= "cert_path=\"$1\"\nkey_path=\"$2\"\nsubject_cn=\"$3\"\nsan=\"$4\"\ndays=\"$5\"\n"@);
    assert(says_at(certsecure::MAKE_CERT_SCRIPT@, "cert_path=\"$1\"\nkey_path=\"$2\"\nsubject_cn=\"$3\"\nsan=\"$4\"\ndays=\"$5\"\n"@, 8));
    reveal_strlit("openssl req -x509 -newkey rsa:2048 -sha256 -nodes");
    assert(certsecure::MAKE_CERT_SCRIPT@.subrange(132, 181) =~= "openssl req -x509 -newkey rsa:2048 -sha256 -nodes"@);
    assert(says_at(certsecure::MAKE_CERT_SCRIPT@, "openssl req -x509 -newkey rsa:2048 -sha256 -nodes"@, 132));
    reveal_strlit("-days \"$days\"");
    assert(certsecure::MAKE_CERT_SCRIPT@.subrange(186, 199) =~= "-days \"$days\""@);
    assert(says_at(certsecure::MAKE_CERT_SCRIPT@, "-days \"$days\""@, 186));
    reveal_strlit("-keyout \"$key_path\" -out \"$cert_path\"");
    assert(certsecure::MAKE_CERT_SCRIPT@.subrange(204, 241) =~= "-keyout \"$key_path\" -out \"$cert_path\""@);
    assert(says_at(certsecure::MAKE_CERT_SCRIPT@, "-keyout \"$key_path\" -out \"$cert_path\""@, 204));
    reveal_strlit("-subj \"/CN=${subject_cn}\"");
    assert(certsecure::MAKE_CERT_SCRIPT@.subrange(246, 271) =~= "-subj \"/CN=${subject_cn}\""@);
    assert(says_at(certsecure::MAKE_CERT_SCRIPT@, "-subj \"/CN=${subject_cn}\""@, 246));
    reveal_strlit("\"subjectAltName=${san}\"");
    assert(certsecure::MAKE_CERT_SCRIPT@.subrange(284, 307) =~= "\"subjectAltName=${san}\""@);
    assert(says_at(certsecure::MAKE_CERT_SCRIPT@, "\"subjectAltName=${san}\""@, 284));
    reveal_strlit("chmod 0600 \"$key_path\"");
    assert(certsecure::MAKE_CERT_SCRIPT@.subrange(480, 502) =~= "chmod 0600 \"$key_path\""@);
    assert(says_at(certsecure::MAKE_CERT_SCRIPT@, "chmod 0600 \"$key_path\""@, 480));
    reveal_strlit("{\"contentB64\":\"%s\",\"sha256\":\"%s\",\"notAfter\":\"%s\"}");
    assert(certsecure::MAKE_CERT_SCRIPT@.subrange(535, 584) =~= "{\"contentB64\":\"%s\",\"sha256\":\"%s\",\"notAfter\":\"%s\"}"@);
    assert(says_at(certsecure::MAKE_CERT_SCRIPT@, "{\"contentB64\":\"%s\",\"sha256\":\"%s\",\"notAfter\":\"%s\"}"@, 535));
}

/// The installer runs in the directory that it is given first, and is answered
/// the other six arguments in order.
pub proof fn installer_is_answered_in_order()
    ensures
        says(certsecure::INSTALL_SCRIPT@, "install_dir=\"$1\"\ncd \"$install_dir\"\n"@),
        says(certsecure::INSTALL_SCRIPT@, "\"$2\" \"$3\" \"$4\" \"$5\" \"$6\" \"$7\" \\\n  | ./install-linux.sh"@),
{
    reveal_strlit(r#"set -eu
install_dir="$1"
cd "$install_dir"
chmod +x ./install-linux.sh
# The six read_inputs prompts, in order: frontend host, backend host, SSL
# certificate path, SSL private key path, Keycloak host, Keycloak realm.
printf '%s\n%s\n%s\n%s\n%s\n%s\n' "$2" "$3" "$4" "$5" "$6" "$7" \
  | ./install-linux.sh
# The installer's own log is the record of what happened; echo its tail so a
# failed step carries something diagnosable in the op error.
tail -n 5 "${install_dir}/installation-logs.log" 2>/dev/null || true
"#);
    reveal_strlit("install_dir=\"$1\"\ncd \"$install_dir\"\n");
    assert(certsecure::INSTALL_SCRIPT@.subrange(8, 43) =~= "install_dir=\"$1\"\ncd \"$install_dir\"\n"@);
    assert(says_at(certsecure::INSTALL_SCRIPT@, "install_dir=\"$1\"\ncd \"$install_dir\"\n"@, 8));
    reveal_strlit("\"$2\" \"$3\" \"$4\" \"$5\" \"$6\" \"$7\" \\\n  | ./install-linux.sh");
    assert(certsecure::INSTALL_SCRIPT@.subrange(252, 306) =~= "\"$2\" \"$3\" \"$4\" \"$5\" \"$6\" \"$7\" \\\n  | ./install-linux.sh"@);
    assert(says_at(certsecure::INSTALL_SCRIPT@, "\"$2\" \"$3\" \"$4\" \"$5\" \"$6\" \"$7\" \\\n  | ./install-linux.sh"@, 252));
}

/// The probe prints the first argument's status as the dashboard's and the
/// second's as Keycloak's.
pub proof fn probe_script_keeps_endpoints_apart()
    ensures
        says(certsecure::VERIFY_SCRIPT@, "{\"frontendStatus\":\"%s\",\"keycloakStatus\":\"%s\"}'   \"$(probe \"$1\")\" \"$(probe \"${2:-}\")\""@),
        says(certsecure::VERIFY_SCRIPT@, "[ -z \"$1\" ] && { printf '0'; return; }"@),
        says(certsecure::VERIFY_SCRIPT@, "|| printf '000'"@),
{
    reveal_strlit(r#"set -eu
probe() {
  [ -z "$1" ] && { printf '0'; return; }
  curl -sk -o /dev/null -m 10 -w '%{http_code}' "$1" 2>/dev/null || printf '000'
}
printf '{"frontendStatus":"%s","keycloakStatus":"%s"}'   "$(probe "$1")" "$(probe "${2:-}")"
"#);
    reveal_strlit("{\"frontendStatus\":\"%s\",\"keycloakStatus\":\"%s\"}'   \"$(probe \"$1\")\" \"$(probe \"${2:-}\")\"");
    assert(certsecure::VERIFY_SCRIPT@.subrange(150, 234) =~= "{\"frontendStatus\":\"%s\",\"keycloakStatus\":\"%s\"}'   \"$(probe \"$1\")\" \"$(probe \"${2:-}\")\""@);
    assert(says_at(certsecure::VERIFY_SCRIPT@, "{\"frontendStatus\":\"%s\",\"keycloakStatus\":\"%s\"}'   \"$(probe \"$1\")\" \"$(probe \"${2:-}\")\""@, 150));
    reveal_strlit("[ -z \"$1\" ] && { printf '0'; return; }");
    assert(certsecure::VERIFY_SCRIPT@.subrange(20, 58) =~= "[ -z \"$1\" ] && { printf '0'; return; }"@);
    assert(says_at(certsecure::VERIFY_SCRIPT@, "[ -z \"$1\" ] && { printf '0'; return; }"@, 20));
    reveal_strlit("|| printf '000'");
    assert(certsecure::VERIFY_SCRIPT@.subrange(124, 139) =~= "|| printf '000'"@);
    assert(says_at(certsecure::VERIFY_SCRIPT@, "|| printf '000'"@, 124));
}

/// The hardening script takes a directory and then files with their modes, and
/// sets each mode.
pub proof fn harden_script_sets_each_mode()
    ensures
        says(certsecure::HARDEN_SCRIPT@, "install_dir=\"$1\"\nshift\n"@),
        says(certsecure::HARDEN_SCRIPT@, "rel=\"$1\"\n  mode=\"$2\"\n  shift 2\n  path=\"${install_dir}/${rel}\""@),
        says(certsecure::HARDEN_SCRIPT@, "chmod \"$mode\" \"$path\""@),
{
    reveal_strlit(r#"set -eu
install_dir="$1"
shift
changed=""
while [ "$#" -gt 0 ]; do
  rel="$1"
  mode="$2"
  shift 2
  path="${install_dir}/${rel}"
  if [ -f "$path" ]; then
    chown root:root "$path"
    chmod "$mode" "$path"
    changed="${changed}${rel} "
  fi
done
printf '%s' "$changed"
"#);
    reveal_strlit("install_dir=\"$1\"\nshift\n");
    assert(certsecure::HARDEN_SCRIPT@.subrange(8, 31) =~= "install_dir=\"$1\"\nshift\n"@);
    assert(says_at(certsecure::HARDEN_SCRIPT@, "install_dir=\"$1\"\nshift\n"@, 8));
    reveal_strlit("rel=\"$1\"\n  mode=\"$2\"\n  shift 2\n  path=\"${install_dir}/${rel}\"");
    assert(certsecure::HARDEN_SCRIPT@.subrange(69, 130) =~= "rel=\"$1\"\n  mode=\"$2\"\n  shift 2\n  path=\"${install_dir}/${rel}\""@);
    assert(says_at(certsecure::HARDEN_SCRIPT@, "rel=\"$1\"\n  mode=\"$2\"\n  shift 2\n  path=\"${install_dir}/${rel}\""@, 69));
    reveal_strlit("chmod \"$mode\" \"$path\"");
    assert(certsecure::HARDEN_SCRIPT@.subrange(189, 210) =~= "chmod \"$mode\" \"$path\""@);
    assert(says_at(certsecure::HARDEN_SCRIPT@, "chmod \"$mode\" \"$path\""@, 189));
}

/// The identity script prints the host name, the system and its version, each
/// under its name.
pub proof fn identity_script_names_each_part()
    ensures
        says(linux::IDENTITY_SCRIPT@, "{\"hostname\":\"%s\",\"operating_system\":\"%s\",\"version\":\"%s\",\"product_type\":3,\"server\":true}"@),
        says(linux::IDENTITY_SCRIPT@, "\"$(uname -n)\" \"${PRETTY_NAME:-${NAME:-Linux}}\" \"$(uname -r)\""@),
{
    reveal_strlit(r#"set -eu
. /etc/os-release
printf '{"hostname":"%s","operating_system":"%s","version":"%s","product_type":3,"server":true}' \
  "$(uname -n)" "${PRETTY_NAME:-${NAME:-Linux}}" "$(uname -r)"
"#);
    reveal_strlit("{\"hostname\":\"%s\",\"operating_system\":\"%s\",\"version\":\"%s\",\"product_type\":3,\"server\":true}");
    assert(linux::IDENTITY_SCRIPT@.subrange(34, 121) =~= "{\"hostname\":\"%s\",\"operating_system\":\"%s\",\"version\":\"%s\",\"product_type\":3,\"server\":true}"@);
    assert(says_at(linux::IDENTITY_SCRIPT@, "{\"hostname\":\"%s\",\"operating_system\":\"%s\",\"version\":\"%s\",\"product_type\":3,\"server\":true}"@, 34));
    reveal_strlit("\"$(uname -n)\" \"${PRETTY_NAME:-${NAME:-Linux}}\" \"$(uname -r)\"");
    assert(linux::IDENTITY_SCRIPT@.subrange(127, 187) =~= "\"$(uname -n)\" \"${PRETTY_NAME:-${NAME:-Linux}}\" \"$(uname -r)\""@);
    assert(says_at(linux::IDENTITY_SCRIPT@, "\"$(uname -n)\" \"${PRETTY_NAME:-${NAME:-Linux}}\" \"$(uname -r)\""@, 127));
}

/// The reboot script waits for the seconds that it is given.
pub proof fn reboot_script_waits()
    ensures
        says(linux::REBOOT_SCRIPT@, "delay=\"$1\"\n"@),
        says(linux::REBOOT_SCRIPT@, "--on-active=\"${delay}s\" /usr/bin/systemctl reboot"@),
        says(linux::REBOOT_SCRIPT@, "sleep ${delay}; /sbin/shutdown -r now"@),
{
    reveal_strlit(r#"set -eu
delay="$1"
if command -v systemd-run >/dev/null 2>&1; then
  systemd-run --quiet --on-active="${delay}s" /usr/bin/systemctl reboot
else
  # Detached from this shell so the executor's wait on it returns immediately
  # and the reboot still happens after the grace window.
  nohup sh -c "sleep ${delay}; /sbin/shutdown -r now" >/dev/null 2>&1 &
fi
"#);
    reveal_strlit("delay=\"$1\"\n");
    assert(linux::REBOOT_SCRIPT@.subrange(8, 19) =~= "delay=\"$1\"\n"@);
    assert(says_at(linux::REBOOT_SCRIPT@, "delay=\"$1\"\n"@, 8));
    reveal_strlit("--on-active=\"${delay}s\" /usr/bin/systemctl reboot");
    assert(linux::REBOOT_SCRIPT@.subrange(89, 138) =~= "--on-active=\"${delay}s\" /usr/bin/systemctl reboot"@);
    assert(says_at(linux::REBOOT_SCRIPT@, "--on-active=\"${delay}s\" /usr/bin/systemctl reboot"@, 89));
    reveal_strlit("sleep ${delay}; /sbin/shutdown -r now");
    assert(linux::REBOOT_SCRIPT@.subrange(294, 331) =~= "sleep ${delay}; /sbin/shutdown -r now"@);
    assert(says_at(linux::REBOOT_SCRIPT@, "sleep ${delay}; /sbin/shutdown -r now"@, 294));
}

/// The reading script takes a path and a cap, refuses a file over the cap, and
/// prints content, checksum and size, each under its name.
pub proof fn read_script_prints_the_file()
    ensures
        says(linux::FILE_READ_SCRIPT@, "path=\"$1\"\ncap=\"$2\"\n"@),
        says(linux::FILE_READ_SCRIPT@, "[ \"$size\" -gt \"$cap\" ]"@),
        says(linux::FILE_READ_SCRIPT@, "{\"contentB64\":\"%s\",\"sha256\":\"%s\",\"size\":%s}' \\\n  \"$(base64 -w0 \"$path\")\" \"$(sha256sum \"$path\""@),
        says(linux::FILE_READ_SCRIPT@, "\"$size\"\n"@),
{
    reveal_strlit(r#"set -eu
path="$1"
cap="$2"
size=$(stat -c %s "$path")
if [ "$size" -gt "$cap" ]; then
  echo "file exceeds the relay cap" >&2
  exit 1
fi
printf '{"contentB64":"%s","sha256":"%s","size":%s}' \
  "$(base64 -w0 "$path")" "$(sha256sum "$path" | cut -d' ' -f1)" "$size"
"#);
    reveal_strlit("path=\"$1\"\ncap=\"$2\"\n");
    assert(linux::FILE_READ_SCRIPT@.subrange(8, 27) =~= "path=\"$1\"\ncap=\"$2\"\n"@);
    assert(says_at(linux::FILE_READ_SCRIPT@, "path=\"$1\"\ncap=\"$2\"\n"@, 8));
    reveal_strlit("[ \"$size\" -gt \"$cap\" ]");
    assert(linux::FILE_READ_SCRIPT@.subrange(57, 79) =~= "[ \"$size\" -gt \"$cap\" ]"@);
    assert(says_at(linux::FILE_READ_SCRIPT@, "[ \"$size\" -gt \"$cap\" ]"@, 57));
    reveal_strlit("{\"contentB64\":\"%s\",\"sha256\":\"%s\",\"size\":%s}' \\\n  \"$(base64 -w0 \"$path\")\" \"$(sha256sum \"$path\"");
    assert(linux::FILE_READ_SCRIPT@.subrange(146, 239) =~= "{\"contentB64\":\"%s\",\"sha256\":\"%s\",\"size\":%s}' \\\n  \"$(base64 -w0 \"$path\")\" \"$(sha256sum \"$path\""@);
    assert(says_at(linux::FILE_READ_SCRIPT@, "{\"contentB64\":\"%s\",\"sha256\":\"%s\",\"size\":%s}' \\\n  \"$(base64 -w0 \"$path\")\" \"$(sha256sum \"$path\""@, 146));
    reveal_strlit("\"$size\"\n");
    assert(linux::FILE_READ_SCRIPT@.subrange(258, 266) =~= "\"$size\"\n"@);
    assert(says_at(linux::FILE_READ_SCRIPT@, "\"$size\"\n"@, 258));
}

/// The writing script decodes its second argument to the path that is its first,
/// and prints the checksum.
pub proof fn write_script_decodes_to_the_path()
    ensures
        says(linux::FILE_WRITE_SCRIPT@, "path=\"$1\"\n"@),
        says(linux::FILE_WRITE_SCRIPT@, "'%s' \"$2\" | base64 -d > \"$path\""@),
        says(linux::FILE_WRITE_SCRIPT@, "sha256sum \"$path\""@),
{
    reveal_strlit(r#"set -eu
path="$1"
mkdir -p "$(dirname "$path")"
printf '%s' "$2" | base64 -d > "$path"
sha256sum "$path" | cut -d' ' -f1
"#);
    reveal_strlit("path=\"$1\"\n");
    assert(linux::FILE_WRITE_SCRIPT@.subrange(8, 18) =~= "path=\"$1\"\n"@);
    assert(says_at(linux::FILE_WRITE_SCRIPT@, "path=\"$1\"\n"@, 8));
    reveal_strlit("'%s' \"$2\" | base64 -d > \"$path\"");
    assert(linux::FILE_WRITE_SCRIPT@.subrange(55, 86) =~= "'%s' \"$2\" | base64 -d > \"$path\""@);
    assert(says_at(linux::FILE_WRITE_SCRIPT@, "'%s' \"$2\" | base64 -d > \"$path\""@, 55));
    reveal_strlit("sha256sum \"$path\"");
    assert(linux::FILE_WRITE_SCRIPT@.subrange(87, 104) =~= "sha256sum \"$path\""@);
    assert(says_at(linux::FILE_WRITE_SCRIPT@, "sha256sum \"$path\""@, 87));
}

/// The client script takes the servers and the interface.
pub proof fn client_script_takes_servers_and_interface()
    ensures
        says_at(dns::SET_CLIENT_SCRIPT@, "param([string]$Servers,[string]$Alias) "@, 0),
        says(dns::SET_CLIENT_SCRIPT@, "-InterfaceAlias $Alias -ServerAddresses ($Servers -split ',')"@),
{
    reveal_strlit("param([string]$Servers,[string]$Alias) \
            $ErrorActionPreference = 'Stop'; \
            if (-not $Alias) { $Alias = Get-NetAdapter | Where-Object Status -eq 'Up' | Sort-Object ifIndex | Select-Object -First 1 -ExpandProperty Name }; \
            Set-DnsClientServerAddress -InterfaceAlias $Alias -ServerAddresses ($Servers -split ','); \
            (Get-DnsClientServerAddress -InterfaceAlias $Alias -AddressFamily IPv4).ServerAddresses -join ','");
    reveal_strlit("param([string]$Servers,[string]$Alias) ");
    assert(dns::SET_CLIENT_SCRIPT@.subrange(0, 39) =~= "param([string]$Servers,[string]$Alias) "@);
    assert(says_at(dns::SET_CLIENT_SCRIPT@, "param([string]$Servers,[string]$Alias) "@, 0));
    reveal_strlit("-InterfaceAlias $Alias -ServerAddresses ($Servers -split ',')");
    assert(dns::SET_CLIENT_SCRIPT@.subrange(244, 305) =~= "-InterfaceAlias $Alias -ServerAddresses ($Servers -split ',')"@);
    assert(says_at(dns::SET_CLIENT_SCRIPT@, "-InterfaceAlias $Alias -ServerAddresses ($Servers -split ',')"@, 244));
}

/// The alias script takes the zone, the name and the target.
pub proof fn alias_script_takes_zone_name_and_target()
    ensures
        says_at(dns::CREATE_RECORD_SCRIPT@, "param([string]$Zone,[string]$Name,[string]$Target) "@, 0),
        says(dns::CREATE_RECORD_SCRIPT@, "-ZoneName $Zone -Name $Name -HostNameAlias $Target"@),
{
    reveal_strlit("param([string]$Zone,[string]$Name,[string]$Target) \
            $ErrorActionPreference = 'Stop'; \
            $existing = Get-DnsServerResourceRecord -ZoneName $Zone -Name $Name -RRType CName -ErrorAction SilentlyContinue; \
            if ($existing) { $existing | Remove-DnsServerResourceRecord -ZoneName $Zone -Force }; \
            Add-DnsServerResourceRecordCName -ZoneName $Zone -Name $Name -HostNameAlias $Target; \
            (Get-DnsServerResourceRecord -ZoneName $Zone -Name $Name -RRType CName).RecordData.HostNameAlias");
    reveal_strlit("param([string]$Zone,[string]$Name,[string]$Target) ");
    assert(dns::CREATE_RECORD_SCRIPT@.subrange(0, 51) =~= "param([string]$Zone,[string]$Name,[string]$Target) "@);
    assert(says_at(dns::CREATE_RECORD_SCRIPT@, "param([string]$Zone,[string]$Name,[string]$Target) "@, 0));
    reveal_strlit("-ZoneName $Zone -Name $Name -HostNameAlias $Target");
    assert(dns::CREATE_RECORD_SCRIPT@.subrange(316, 366) =~= "-ZoneName $Zone -Name $Name -HostNameAlias $Target"@);
    assert(says_at(dns::CREATE_RECORD_SCRIPT@, "-ZoneName $Zone -Name $Name -HostNameAlias $Target"@, 316));
}

/// The applying script takes the plan, stops at a value that is there already and
/// is another, and adds each missing record of its own kind, its name to its
/// value.
pub proof fn apply_script_takes_the_plan()
    ensures
        says_at(dns::APPLY_SCRIPT@, "param([string]$RecordsJson)\n"@, 0),
        says(dns::APPLY_SCRIPT@, "$records = $RecordsJson | ConvertFrom-Json"@),
        says(dns::APPLY_SCRIPT@, "    $zone = [string]$record.zone\n    $name = [string]$record.name\n    $value = [string]$record.value\n"@),
        says(dns::APPLY_SCRIPT@, "throw \"DNS conflict for PTR ${name}:"@),
        says(dns::APPLY_SCRIPT@, "throw \"DNS conflict for A $name.${zone}:"@),
        says(dns::APPLY_SCRIPT@, "throw \"DNS conflict for CNAME $name.${zone}:"@),
        says(dns::APPLY_SCRIPT@, "RecordPtr -ZoneName $zone -Name $relativeName -PtrDomainName $value"@),
        says(dns::APPLY_SCRIPT@, "RecordA -ZoneName $zone -Name $name -IPv4Address $value"@),
        says(dns::APPLY_SCRIPT@, "RecordCName -ZoneName $zone -Name $name -HostNameAlias $value"@),
{
    reveal_strlit(r#"param([string]$RecordsJson)
$ErrorActionPreference = 'Stop'
Import-Module DnsServer
# Windows PowerShell 5.1 writes a decoded JSON array to the pipeline as one
# object, so @(... | ConvertFrom-Json) nests it and the loop below would bind
# every record at once. Assign first, then normalise to an array.
$records = $RecordsJson | ConvertFrom-Json
$records = @($records)
$results = foreach ($record in $records) {
    $zone = [string]$record.zone
    $name = [string]$record.name
    $value = [string]$record.value
    if ($record.kind -eq 'PTR') {
        $existingZone = Get-DnsServerZone -Name $zone -ErrorAction SilentlyContinue
        if (-not $existingZone) {
            $prefixLabels = @($zone.ToLowerInvariant().Replace('.in-addr.arpa','').Split('.'))
            [array]::Reverse($prefixLabels)
            $networkOctets = @($prefixLabels)
            while ($networkOctets.Count -lt 4) { $networkOctets += '0' }
            $networkId = ($networkOctets -join '.') + '/' + ($prefixLabels.Count * 8)
            Add-DnsServerPrimaryZone -NetworkId $networkId -ReplicationScope Forest | Out-Null
        }
        $prefixCount = @($zone.ToLowerInvariant().Replace('.in-addr.arpa','').Split('.')).Count
        $remaining = @($name.Split('.')[$prefixCount..3])
        [array]::Reverse($remaining)
        $relativeName = $remaining -join '.'
        $existing = @(Get-DnsServerResourceRecord -ZoneName $zone -Name $relativeName -RRType PTR -ErrorAction SilentlyContinue)
        $actual = @($existing | ForEach-Object { $_.RecordData.PtrDomainName.TrimEnd('.') })
        $expected = $value.TrimEnd('.')
        if ($existing.Count -gt 0 -and -not ($actual.Count -eq 1 -and $actual[0] -ieq $expected)) {
            throw "DNS conflict for PTR ${name}: expected $value; found $($actual -join ',')"
        }
        if ($existing.Count -eq 0) {
            Add-DnsServerResourceRecordPtr -ZoneName $zone -Name $relativeName -PtrDomainName $value | Out-Null
            $status = 'created'
        } else { $status = 'retained' }
    } elseif ($record.kind -eq 'A') {
        $existing = @(Get-DnsServerResourceRecord -ZoneName $zone -Name $name -RRType A -ErrorAction SilentlyContinue)
        $actual = @($existing | ForEach-Object { $_.RecordData.IPv4Address.IPAddressToString })
        if ($existing.Count -gt 0 -and -not ($actual.Count -eq 1 -and $actual[0] -eq $value)) {
            throw "DNS conflict for A $name.${zone}: expected $value; found $($actual -join ',')"
        }
        if ($existing.Count -eq 0) {
            Add-DnsServerResourceRecordA -ZoneName $zone -Name $name -IPv4Address $value | Out-Null
            $status = 'created'
        } else { $status = 'retained' }
    } elseif ($record.kind -eq 'CNAME') {
        $existing = @(Get-DnsServerResourceRecord -ZoneName $zone -Name $name -RRType CNAME -ErrorAction SilentlyContinue)
        $actual = @($existing | ForEach-Object { $_.RecordData.HostNameAlias.TrimEnd('.') })
        $expected = $value.TrimEnd('.')
        if ($existing.Count -gt 0 -and -not ($actual.Count -eq 1 -and $actual[0] -ieq $expected)) {
            throw "DNS conflict for CNAME $name.${zone}: expected $value; found $($actual -join ',')"
        }
        if ($existing.Count -eq 0) {
            Add-DnsServerResourceRecordCName -ZoneName $zone -Name $name -HostNameAlias $value | Out-Null
            $status = 'created'
        } else { $status = 'retained' }
    } else { throw "Unsupported DNS resource kind '$($record.kind)'" }
    [pscustomobject]@{ id = [string]$record.id; kind = [string]$record.kind; status = $status }
}
[pscustomobject]@{ applied = @($results).Count; records = @($results) } | ConvertTo-Json -Depth 5 -Compress"#);
    reveal_strlit("param([string]$RecordsJson)\n");
    assert(dns::APPLY_SCRIPT@.subrange(0, 28) =~= "param([string]$RecordsJson)\n"@);
    assert(says_at(dns::APPLY_SCRIPT@, "param([string]$RecordsJson)\n"@, 0));
    reveal_strlit("$records = $RecordsJson | ConvertFrom-Json");
    assert(dns::APPLY_SCRIPT@.subrange(304, 346) =~= "$records = $RecordsJson | ConvertFrom-Json"@);
    assert(says_at(dns::APPLY_SCRIPT@, "$records = $RecordsJson | ConvertFrom-Json"@, 304));
    reveal_strlit("    $zone = [string]$record.zone\n    $name = [string]$record.name\n    $value = [string]$record.value\n");
    assert(dns::APPLY_SCRIPT@.subrange(413, 514) =~= "    $zone = [string]$record.zone\n    $name = [string]$record.name\n    $value = [string]$record.value\n"@);
    assert(says_at(dns::APPLY_SCRIPT@, "    $zone = [string]$record.zone\n    $name = [string]$record.name\n    $value = [string]$record.value\n"@, 413));
    reveal_strlit("throw \"DNS conflict for PTR ${name}:");
    assert(dns::APPLY_SCRIPT@.subrange(1725, 1761) =~= "throw \"DNS conflict for PTR ${name}:"@);
    assert(says_at(dns::APPLY_SCRIPT@, "throw \"DNS conflict for PTR ${name}:"@, 1725));
    reveal_strlit("throw \"DNS conflict for A $name.${zone}:");
    assert(dns::APPLY_SCRIPT@.subrange(2399, 2439) =~= "throw \"DNS conflict for A $name.${zone}:"@);
    assert(says_at(dns::APPLY_SCRIPT@, "throw \"DNS conflict for A $name.${zone}:"@, 2399));
    reveal_strlit("throw \"DNS conflict for CNAME $name.${zone}:");
    assert(dns::APPLY_SCRIPT@.subrange(3114, 3158) =~= "throw \"DNS conflict for CNAME $name.${zone}:"@);
    assert(says_at(dns::APPLY_SCRIPT@, "throw \"DNS conflict for CNAME $name.${zone}:"@, 3114));
    reveal_strlit("RecordPtr -ZoneName $zone -Name $relativeName -PtrDomainName $value");
    assert(dns::APPLY_SCRIPT@.subrange(1887, 1954) =~= "RecordPtr -ZoneName $zone -Name $relativeName -PtrDomainName $value"@);
    assert(says_at(dns::APPLY_SCRIPT@, "RecordPtr -ZoneName $zone -Name $relativeName -PtrDomainName $value"@, 1887));
    reveal_strlit("RecordA -ZoneName $zone -Name $name -IPv4Address $value");
    assert(dns::APPLY_SCRIPT@.subrange(2565, 2620) =~= "RecordA -ZoneName $zone -Name $name -IPv4Address $value"@);
    assert(says_at(dns::APPLY_SCRIPT@, "RecordA -ZoneName $zone -Name $name -IPv4Address $value"@, 2565));
    reveal_strlit("RecordCName -ZoneName $zone -Name $name -HostNameAlias $value");
    assert(dns::APPLY_SCRIPT@.subrange(3284, 3345) =~= "RecordCName -ZoneName $zone -Name $name -HostNameAlias $value"@);
    assert(says_at(dns::APPLY_SCRIPT@, "RecordCName -ZoneName $zone -Name $name -HostNameAlias $value"@, 3284));
}

/// The verifying script takes the plan, the server, whether to check service
/// records, the domain and the URL; it looks service records up in the domain
/// where that is asked for, and fails on any mismatch.
pub proof fn verify_script_takes_every_setting()
    ensures
        says_at(dns::VERIFY_SCRIPT@, "param([string]$RecordsJson,[string]$Server,[string]$RequireAdSrv,[string]$Domain,[string]$HttpUrl)\n"@, 0),
        says(dns::VERIFY_SCRIPT@, "$records = $RecordsJson | ConvertFrom-Json"@),
        says(dns::VERIFY_SCRIPT@, "if ($RequireAdSrv -eq 'true') {\n"@),
        says(dns::VERIFY_SCRIPT@, "\"_ldap._tcp.$Domain\", \"_kerberos._tcp.$Domain\""@),
        says(dns::VERIFY_SCRIPT@, "Resolve-DnsName -Name $_ -Type SRV -Server $Server"@),
        says(dns::VERIFY_SCRIPT@, "if ($HttpUrl) {\n"@),
        says(dns::VERIFY_SCRIPT@, "if (-not $allVerified -or -not $adSrvOk -or -not $httpOk) { throw"@),
{
    reveal_strlit(r#"param([string]$RecordsJson,[string]$Server,[string]$RequireAdSrv,[string]$Domain,[string]$HttpUrl)
$ErrorActionPreference = 'Stop'
# See dns.apply_resources: @(... | ConvertFrom-Json) nests the decoded array on
# Windows PowerShell 5.1, which binds $record to every record at once.
$records = $RecordsJson | ConvertFrom-Json
$records = @($records)
$checks = foreach ($record in $records) {
    if ($record.kind -eq 'PTR') {
        $answer = @(Resolve-DnsName -Name ([string]$record.name) -Type PTR -Server $Server -DnsOnly -NoHostsFile)
        $actual = @($answer | Where-Object Type -eq PTR | ForEach-Object { $_.NameHost.TrimEnd('.') })
        $expected = ([string]$record.value).TrimEnd('.')
    } else {
        $fqdn = ([string]$record.name) + '.' + ([string]$record.zone)
        $answer = @(Resolve-DnsName -Name $fqdn -Type ([string]$record.kind) -Server $Server -DnsOnly -NoHostsFile)
        if ($record.kind -eq 'A') { $actual = @($answer | Where-Object Type -eq A | ForEach-Object IPAddress); $expected = [string]$record.value }
        else { $actual = @($answer | Where-Object Type -eq CNAME | ForEach-Object { $_.NameHost.TrimEnd('.') }); $expected = ([string]$record.value).TrimEnd('.') }
    }
    $ok = @($actual | Where-Object { $_ -ieq $expected }).Count -gt 0
    [pscustomobject]@{ id = [string]$record.id; kind = [string]$record.kind; ok = $ok; expected = $expected; actual = @($actual) }
}
$adSrvOk = $true
$srvChecks = @()
if ($RequireAdSrv -eq 'true') {
    $srvNames = @("_ldap._tcp.$Domain", "_kerberos._tcp.$Domain", "_ldap._tcp.dc._msdcs.$Domain")
    $srvChecks = @($srvNames | ForEach-Object {
        $answers = @(Resolve-DnsName -Name $_ -Type SRV -Server $Server -DnsOnly -NoHostsFile)
        [pscustomobject]@{ name = $_; ok = @($answers | Where-Object Type -eq SRV).Count -gt 0 }
    })
    $adSrvOk = @($srvChecks | Where-Object { -not $_.ok }).Count -eq 0
}
$httpOk = $true
if ($HttpUrl) {
    $response = Invoke-WebRequest -Uri $HttpUrl -UseBasicParsing -TimeoutSec 30
    $httpOk = [int]$response.StatusCode -ge 200 -and [int]$response.StatusCode -lt 400
}
$allVerified = @($checks | Where-Object { -not $_.ok }).Count -eq 0
if (-not $allVerified -or -not $adSrvOk -or -not $httpOk) { throw 'DNS verification failed' }
[pscustomobject]@{ all_verified = $allVerified; ad_srv_ok = $adSrvOk; http_ok = $httpOk; records = @($checks); srv = @($srvChecks) } | ConvertTo-Json -Depth 6 -Compress"#);
    reveal_strlit("param([string]$RecordsJson,[string]$Server,[string]$RequireAdSrv,[string]$Domain,[string]$HttpUrl)\n");
    assert(dns::VERIFY_SCRIPT@.subrange(0, 99) =~= "param([string]$RecordsJson,[string]$Server,[string]$RequireAdSrv,[string]$Domain,[string]$HttpUrl)\n"@);
    assert(says_at(dns::VERIFY_SCRIPT@, "param([string]$RecordsJson,[string]$Server,[string]$RequireAdSrv,[string]$Domain,[string]$HttpUrl)\n"@, 0));
    reveal_strlit("$records = $RecordsJson | ConvertFrom-Json");
    assert(dns::VERIFY_SCRIPT@.subrange(282, 324) =~= "$records = $RecordsJson | ConvertFrom-Json"@);
    assert(says_at(dns::VERIFY_SCRIPT@, "$records = $RecordsJson | ConvertFrom-Json"@, 282));
    reveal_strlit("if ($RequireAdSrv -eq 'true') {\n");
    assert(dns::VERIFY_SCRIPT@.subrange(1451, 1483) =~= "if ($RequireAdSrv -eq 'true') {\n"@);
    assert(says_at(dns::VERIFY_SCRIPT@, "if ($RequireAdSrv -eq 'true') {\n"@, 1451));
    reveal_strlit("\"_ldap._tcp.$Domain\", \"_kerberos._tcp.$Domain\"");
    assert(dns::VERIFY_SCRIPT@.subrange(1501, 1547) =~= "\"_ldap._tcp.$Domain\", \"_kerberos._tcp.$Domain\""@);
    assert(says_at(dns::VERIFY_SCRIPT@, "\"_ldap._tcp.$Domain\", \"_kerberos._tcp.$Domain\""@, 1501));
    reveal_strlit("Resolve-DnsName -Name $_ -Type SRV -Server $Server");
    assert(dns::VERIFY_SCRIPT@.subrange(1650, 1700) =~= "Resolve-DnsName -Name $_ -Type SRV -Server $Server"@);
    assert(says_at(dns::VERIFY_SCRIPT@, "Resolve-DnsName -Name $_ -Type SRV -Server $Server"@, 1650));
    reveal_strlit("if ($HttpUrl) {\n");
    assert(dns::VERIFY_SCRIPT@.subrange(1917, 1933) =~= "if ($HttpUrl) {\n"@);
    assert(says_at(dns::VERIFY_SCRIPT@, "if ($HttpUrl) {\n"@, 1917));
    reveal_strlit("if (-not $allVerified -or -not $adSrvOk -or -not $httpOk) { throw");
    assert(dns::VERIFY_SCRIPT@.subrange(2170, 2235) =~= "if (-not $allVerified -or -not $adSrvOk -or -not $httpOk) { throw"@);
    assert(says_at(dns::VERIFY_SCRIPT@, "if (-not $allVerified -or -not $adSrvOk -or -not $httpOk) { throw"@, 2170));
}

/// The script takes the two authorities, the templates and the URLs, and looks
/// for each where it must be published.
pub proof fn read_back_script_takes_every_name()
    ensures
        says_at(pki_verify::PKI_VERIFY_SCRIPT@, "param([string]$RootCa,[string]$IssuingCa,[string]$Templates,[string]$HttpUrls) "@, 0),
        says(pki_verify::PKI_VERIFY_SCRIPT@, "$publicationUrls = $HttpUrls | ConvertFrom-Json"@),
        says(pki_verify::PKI_VERIFY_SCRIPT@, "$aiaNames -contains $RootCa -and $aiaNames -contains $IssuingCa"@),
        says(pki_verify::PKI_VERIFY_SCRIPT@, "$cdpNames -contains $RootCa -and $cdpNames -contains $IssuingCa"@),
        says(pki_verify::PKI_VERIFY_SCRIPT@, "$caOk = $caNames -contains $RootCa;"@),
        says(pki_verify::PKI_VERIFY_SCRIPT@, "$enrollmentOk = $enrollmentNames -contains $IssuingCa;"@),
        says(pki_verify::PKI_VERIFY_SCRIPT@, "@($Templates -split"@),
        says(pki_verify::PKI_VERIFY_SCRIPT@, "$status -ge 200 -and $status -lt 300"@),
{
    reveal_strlit("param([string]$RootCa,[string]$IssuingCa,[string]$Templates,[string]$HttpUrls) \
            $ErrorActionPreference = 'Stop'; \
            Import-Module ActiveDirectory; \
            $configDn = (Get-ADRootDSE).configurationNamingContext; \
            $pkiBase = \"CN=Public Key Services,CN=Services,$configDn\"; \
            function Child-Names([string]$Container) { @(Get-ADObject -SearchBase \"CN=$Container,$pkiBase\" -SearchScope OneLevel -Filter * | Select-Object -ExpandProperty Name) }; \
            $ntAuth = Get-ADObject -Identity \"CN=NTAuthCertificates,$pkiBase\" -Properties cACertificate; \
            $ntAuthOk = @($ntAuth.cACertificate).Count -gt 0; \
            $aiaNames = Child-Names 'AIA'; \
            $cdpNames = Child-Names 'CDP'; \
            $caNames = Child-Names 'Certification Authorities'; \
            $enrollmentNames = Child-Names 'Enrollment Services'; \
            $templateNames = Child-Names 'Certificate Templates'; \
            $aiaOk = $aiaNames -contains $RootCa -and $aiaNames -contains $IssuingCa; \
            $cdpOk = $cdpNames -contains $RootCa -and $cdpNames -contains $IssuingCa; \
            $caOk = $caNames -contains $RootCa; \
            $enrollmentOk = $enrollmentNames -contains $IssuingCa; \
            $requiredTemplates = @($Templates -split ',' | ForEach-Object { $_.Trim() }); \
            $missingTemplates = @($requiredTemplates | Where-Object { $templateNames -notcontains $_ }); \
            $http = @(); \
            $publicationUrls = $HttpUrls | ConvertFrom-Json; \
            foreach ($url in @($publicationUrls)) { \
                $status = 0; \
                try { $status = [int](Invoke-WebRequest -Uri $url -UseBasicParsing -Method Head -TimeoutSec 20).StatusCode } catch { if ($_.Exception.Response) { $status = [int]$_.Exception.Response.StatusCode } }; \
                $http += @{ url = $url; status = $status; ok = ($status -ge 200 -and $status -lt 300) } \
            }; \
            $httpOk = @($http | Where-Object { -not $_.ok }).Count -eq 0; \
            $templatesOk = $missingTemplates.Count -eq 0; \
            @{ healthy = ($ntAuthOk -and $aiaOk -and $cdpOk -and $caOk -and $enrollmentOk -and $templatesOk -and $httpOk); containers = @{ nt_auth = $ntAuthOk; aia = $aiaOk; cdp = $cdpOk; certification_authorities = $caOk; enrollment_services = $enrollmentOk }; templates = @{ ok = $templatesOk; required = $requiredTemplates; missing = $missingTemplates }; http_artifacts = @{ ok = $httpOk; results = $http }; observed = @{ aia = $aiaNames; cdp = $cdpNames; certification_authorities = $caNames; enrollment_services = $enrollmentNames } } | ConvertTo-Json -Depth 6 -Compress");
    reveal_strlit("param([string]$RootCa,[string]$IssuingCa,[string]$Templates,[string]$HttpUrls) ");
    assert(pki_verify::PKI_VERIFY_SCRIPT@.subrange(0, 79) =~= "param([string]$RootCa,[string]$IssuingCa,[string]$Templates,[string]$HttpUrls) "@);
    assert(says_at(pki_verify::PKI_VERIFY_SCRIPT@, "param([string]$RootCa,[string]$IssuingCa,[string]$Templates,[string]$HttpUrls) "@, 0));
    reveal_strlit("$publicationUrls = $HttpUrls | ConvertFrom-Json");
    assert(pki_verify::PKI_VERIFY_SCRIPT@.subrange(1214, 1261) =~= "$publicationUrls = $HttpUrls | ConvertFrom-Json"@);
    assert(says_at(pki_verify::PKI_VERIFY_SCRIPT@, "$publicationUrls = $HttpUrls | ConvertFrom-Json"@, 1214));
    reveal_strlit("$aiaNames -contains $RootCa -and $aiaNames -contains $IssuingCa");
    assert(pki_verify::PKI_VERIFY_SCRIPT@.subrange(800, 863) =~= "$aiaNames -contains $RootCa -and $aiaNames -contains $IssuingCa"@);
    assert(says_at(pki_verify::PKI_VERIFY_SCRIPT@, "$aiaNames -contains $RootCa -and $aiaNames -contains $IssuingCa"@, 800));
    reveal_strlit("$cdpNames -contains $RootCa -and $cdpNames -contains $IssuingCa");
    assert(pki_verify::PKI_VERIFY_SCRIPT@.subrange(874, 937) =~= "$cdpNames -contains $RootCa -and $cdpNames -contains $IssuingCa"@);
    assert(says_at(pki_verify::PKI_VERIFY_SCRIPT@, "$cdpNames -contains $RootCa -and $cdpNames -contains $IssuingCa"@, 874));
    reveal_strlit("$caOk = $caNames -contains $RootCa;");
    assert(pki_verify::PKI_VERIFY_SCRIPT@.subrange(939, 974) =~= "$caOk = $caNames -contains $RootCa;"@);
    assert(says_at(pki_verify::PKI_VERIFY_SCRIPT@, "$caOk = $caNames -contains $RootCa;"@, 939));
    reveal_strlit("$enrollmentOk = $enrollmentNames -contains $IssuingCa;");
    assert(pki_verify::PKI_VERIFY_SCRIPT@.subrange(975, 1029) =~= "$enrollmentOk = $enrollmentNames -contains $IssuingCa;"@);
    assert(says_at(pki_verify::PKI_VERIFY_SCRIPT@, "$enrollmentOk = $enrollmentNames -contains $IssuingCa;"@, 975));
    reveal_strlit("@($Templates -split");
    assert(pki_verify::PKI_VERIFY_SCRIPT@.subrange(1051, 1070) =~= "@($Templates -split"@);
    assert(says_at(pki_verify::PKI_VERIFY_SCRIPT@, "@($Templates -split"@, 1051));
    reveal_strlit("$status -ge 200 -and $status -lt 300");
    assert(pki_verify::PKI_VERIFY_SCRIPT@.subrange(1563, 1599) =~= "$status -ge 200 -and $status -lt 300"@);
    assert(says_at(pki_verify::PKI_VERIFY_SCRIPT@, "$status -ge 200 -and $status -lt 300"@, 1563));
}

} // verus!
