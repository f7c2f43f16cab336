# pki-executor

An agent that builds up and checks the machines of a PKI lab, one command at a
time: host names and hosts files, DNS clients and records, the CertSecure Manager
product, file relay, and reading back what an enterprise PKI has published.

The library under `src/` is verified with Verus. It decides, for the parameters of
a command, whether they are accepted and which script runs on which arguments, and
turns what the shell answered into the result. Every handler states both exactly,
as the spec functions `step` and `outcome` of `registry::CommandHandler`.

- `authz`, `dispatch`: roles and capabilities; a caller's role is held against a
  command before its handler sees anything.
- `registry`: parameters, errors, and the contract of a command handler.
- `commands`: the handlers: `certsecure` (with `hosts`), `dns`, `linux` (with `paths`),
  `pki_verify`, and what they share in `util`.
- `text`, `split`, `number`, `ipv4`: reading and writing text.
- `json`: JSON values, and decoding them with `serde_json`.
- `powershell`: calls of the shell and their answers.

Besides the contracts, public proof functions state what holds across commands:
that a refusal is final, that a guest only observes, that a hosts block reads back
as what was asked for, that relayed files and certificates stay in their
directories, that lists handed to a script split back into what they were made of,
and others.

The program under `app/` runs a command on this machine:

```sh
pki-executor run system.boot_info
pki-executor run file.read --role operator --param path=/opt/certsecure-manager/conf.ini
```
